use drakonix::api::calendar::CalendarEvent;
use drakonix::api::rss::RssItem;
use drakonix::api::weather::WeatherData;
use drakonix::api::ApiUpdate;
use drakonix::app::{App, Key, KeyAction, RefreshJob, Tab, TabState, REFRESH_INTERVAL_NS};
use drakonix::config::Config;
use drakonix::tiling::Side;

fn config(feeds: &[&str]) -> Config {
    Config {
        weather_lat: "1.5".to_string(),
        weather_lon: "2.5".to_string(),
        weather_location_name: "Home".to_string(),
        google_client_id: "id".to_string(),
        google_client_secret: "secret".to_string(),
        google_calendar_id: "primary".to_string(),
        rss_feeds: feeds.iter().map(|s| s.to_string()).collect(),
    }
}

fn item(title: &str, link: Option<&str>) -> RssItem {
    RssItem {
        title: title.to_string(),
        source: "src".to_string(),
        published: None,
        link: link.map(|l| l.to_string()),
    }
}

fn weather() -> WeatherData {
    WeatherData {
        location: "Home".to_string(),
        temp_f_bits: 70.0f64.to_bits(),
        feels_like_f_bits: 68.0f64.to_bits(),
        humidity: 40,
        wind_mph_bits: 5.0f64.to_bits(),
        description: "Clear sky".to_string(),
        icon: "☀",
        forecast: vec![],
    }
}

fn is_continue(a: &KeyAction) -> bool {
    matches!(a, KeyAction::Continue)
}

#[test]
fn tab_labels_and_indices() {
    assert_eq!(Tab::Weather.label(), "Weather");
    assert_eq!(Tab::Calendar.label(), "Google Calendar");
    assert_eq!(Tab::Rss.label(), "RSS");
    assert_eq!(Tab::Rss.index(), 2);
    assert_eq!(Tab::from_index(1), Tab::Calendar);
    assert_eq!(Tab::from_index(5), Tab::Rss);
    assert_eq!(Tab::ALL, [Tab::Weather, Tab::Calendar, Tab::Rss]);
}

#[test]
fn tab_state_refresh_timing() {
    let mut s: TabState<u8> = TabState::default();
    assert!(s.needs_refresh(0));
    s.set_loading();
    assert!(s.loading);
    assert!(!s.needs_refresh(0));
    s.loading = false;
    s.last_refresh = Some(1_000);
    assert!(!s.needs_refresh(1_000 + REFRESH_INTERVAL_NS));
    assert!(s.needs_refresh(1_001 + REFRESH_INTERVAL_NS));
    assert!(!s.needs_refresh(10));
    s.error = Some("x".to_string());
    s.set_loading();
    assert_eq!(s.error, None);
}

#[test]
fn new_app_state() {
    let app = App::new(config(&["a", "b"]));
    assert_eq!(app.rss_feed_enabled, vec![true, true]);
    assert_eq!(app.calendar_days_enabled, [true; 7]);
    assert_eq!(app.focused_tab(), Tab::Weather);
    assert!(app.tiles.is_single());
    assert!(!app.show_help);
}

#[test]
fn quit_and_help_keys() {
    let mut app = App::new(config(&[]));
    let a = app.handle_key(Key::Char('?'));
    assert!(is_continue(&a) && app.show_help);
    let a = app.handle_key(Key::Char('q'));
    assert!(is_continue(&a) && !app.show_help);
    assert!(matches!(app.handle_key(Key::Esc), KeyAction::Quit));
    assert!(matches!(app.handle_key(Key::Char('q')), KeyAction::Quit));
}

#[test]
fn layout_keys() {
    let mut app = App::new(config(&[]));
    app.handle_key(Key::Char('|'));
    assert_eq!(app.tiles.visible_tabs(), vec![Tab::Weather, Tab::Weather]);
    app.handle_key(Key::Char('2'));
    assert_eq!(app.tiles.visible_tabs(), vec![Tab::Weather, Tab::Calendar]);
    app.handle_key(Key::Tab);
    assert_eq!(app.focused_tab(), Tab::Weather);
    app.handle_key(Key::Left);
    assert_eq!(app.focused_tab(), Tab::Rss);
    app.handle_key(Key::Right);
    app.handle_key(Key::Right);
    assert_eq!(app.focused_tab(), Tab::Calendar);
    app.handle_key(Key::BackTab);
    assert_eq!(app.tiles.focus_path.0, vec![Side::Right]);
    app.handle_key(Key::Char('x'));
    assert_eq!(app.tiles.visible_tabs(), vec![Tab::Calendar]);
    app.handle_key(Key::Char('-'));
    app.handle_key(Key::Char('3'));
    assert_eq!(app.tiles.visible_tabs(), vec![Tab::Calendar, Tab::Rss]);
    app.handle_key(Key::Char('1'));
    assert_eq!(app.focused_tab(), Tab::Weather);
}

#[test]
fn refresh_key_marks_focused_tab_stale() {
    let mut app = App::new(config(&[]));
    app.handle_key(Key::Char('2'));
    app.calendar.last_refresh = Some(5);
    app.calendar.loading = true;
    app.calendar_scroll = 3;
    app.weather.last_refresh = Some(5);
    app.handle_key(Key::Char('r'));
    assert_eq!(app.calendar.last_refresh, None);
    assert!(!app.calendar.loading);
    assert_eq!(app.calendar_scroll, 0);
    assert_eq!(app.weather.last_refresh, Some(5));
}

#[test]
fn feed_picker_keys() {
    let mut app = App::new(config(&["a", "b", "c"]));
    app.handle_key(Key::Char('f'));
    assert!(!app.rss_feed_picker_open);
    app.handle_key(Key::Char('3'));
    app.handle_key(Key::Char('f'));
    assert!(app.rss_feed_picker_open);
    app.handle_key(Key::Down);
    app.handle_key(Key::Char('j'));
    app.handle_key(Key::Char('j'));
    assert_eq!(app.rss_feed_cursor, 2);
    app.handle_key(Key::Up);
    app.rss.last_refresh = Some(7);
    app.rss.loading = true;
    app.handle_key(Key::Char(' '));
    assert_eq!(app.rss_feed_enabled, vec![true, false, true]);
    assert_eq!(app.rss.last_refresh, None);
    assert!(!app.rss.loading);
    // the picker takes every key: `|` does not split the pane
    app.handle_key(Key::Char('|'));
    assert!(app.tiles.is_single());
    assert!(app.rss_feed_picker_open);
    assert_eq!(app.enabled_feeds(), vec!["a".to_string(), "c".to_string()]);
    app.handle_key(Key::Esc);
    assert!(!app.rss_feed_picker_open);
}

#[test]
fn q_closes_an_open_picker_instead_of_quitting() {
    let mut app = App::new(config(&["https://a.example/rss"]));
    app.handle_key(Key::Char('3'));
    app.handle_key(Key::Char('f'));
    assert!(app.rss_feed_picker_open);
    assert!(is_continue(&app.handle_key(Key::Char('q'))));
    assert!(!app.rss_feed_picker_open);
    app.handle_key(Key::Char('2'));
    app.handle_key(Key::Char('d'));
    assert!(app.calendar_day_picker_open);
    assert!(is_continue(&app.handle_key(Key::Char('q'))));
    assert!(!app.calendar_day_picker_open);
    assert!(matches!(app.handle_key(Key::Char('q')), KeyAction::Quit));
}

#[test]
fn day_picker_keys() {
    let mut app = App::new(config(&[]));
    app.handle_key(Key::Char('2'));
    app.handle_key(Key::Char('d'));
    assert!(app.calendar_day_picker_open);
    for _ in 0..10 {
        app.handle_key(Key::Down);
    }
    assert_eq!(app.calendar_day_cursor, 6);
    app.handle_key(Key::Enter);
    assert_eq!(app.calendar_days_enabled, [true, true, true, true, true, true, false]);
    app.handle_key(Key::Char('k'));
    app.handle_key(Key::Char(' '));
    app.handle_key(Key::Char(' '));
    assert_eq!(app.calendar_days_enabled, [true, true, true, true, true, true, false]);
    app.handle_key(Key::Char('d'));
    assert!(!app.calendar_day_picker_open);
}

#[test]
fn scrolling_and_opening_links() {
    let mut app = App::new(config(&[]));
    app.handle_key(Key::Char('3'));
    app.rss.data = Some(vec![item("a", None), item("b", Some("https://b.example"))]);
    assert!(is_continue(&app.handle_key(Key::Enter)));
    app.handle_key(Key::Down);
    app.handle_key(Key::Down);
    assert_eq!(app.rss_selected, 1);
    match app.handle_key(Key::Enter) {
        KeyAction::OpenLink(l) => assert_eq!(l, "https://b.example"),
        _ => panic!("expected a link"),
    }
    app.handle_key(Key::Up);
    app.handle_key(Key::Up);
    assert_eq!(app.rss_selected, 0);
    app.handle_key(Key::Char('2'));
    app.handle_key(Key::Up);
    assert_eq!(app.calendar_scroll, 0);
    app.handle_key(Key::Down);
    app.handle_key(Key::Char('j'));
    assert_eq!(app.calendar_scroll, 2);
    app.calendar_scroll = u16::MAX;
    app.handle_key(Key::Down);
    assert_eq!(app.calendar_scroll, u16::MAX);
}

#[test]
fn updates_fill_tab_state() {
    let mut app = App::new(config(&[]));
    app.weather.loading = true;
    app.apply_update(ApiUpdate::Weather(weather()), 42);
    assert!(!app.weather.loading);
    assert_eq!(app.weather.last_refresh, Some(42));
    assert_eq!(app.weather.data.as_ref().unwrap().humidity, 40);
    app.apply_update(ApiUpdate::WeatherError("boom".to_string()), 50);
    assert_eq!(app.weather.error.as_deref(), Some("boom"));
    assert_eq!(app.weather.last_refresh, Some(42));

    app.rss_selected = 3;
    app.apply_update(ApiUpdate::Rss(vec![item("a", None)]), 7);
    assert_eq!(app.rss_selected, 0);
    assert_eq!(app.rss.data.as_ref().unwrap().len(), 1);
    app.apply_update(ApiUpdate::RssError("bad".to_string()), 8);
    assert_eq!(app.rss.error.as_deref(), Some("bad"));

    app.apply_update(ApiUpdate::CalendarNeedAuth("https://auth".to_string()), 9);
    assert_eq!(app.calendar_auth_url.as_deref(), Some("https://auth"));
    app.calendar_scroll = 4;
    let ev = CalendarEvent {
        title: "t".to_string(),
        start: "2025-01-13".to_string(),
        end: "2025-01-14".to_string(),
        location: None,
    };
    app.apply_update(ApiUpdate::Calendar(vec![ev]), 10);
    assert_eq!(app.calendar_auth_url, None);
    assert_eq!(app.calendar_scroll, 0);
    assert_eq!(app.calendar.last_refresh, Some(10));
    app.apply_update(ApiUpdate::CalendarNeedAuth("u".to_string()), 11);
    app.apply_update(ApiUpdate::CalendarError("no".to_string()), 12);
    assert_eq!(app.calendar_auth_url, None);
    assert_eq!(app.calendar.error.as_deref(), Some("no"));
}

#[test]
fn refresh_starts_one_fetch_per_visible_tab() {
    let mut app = App::new(config(&["a", "b"]));
    app.rss_feed_enabled = vec![false, true];
    app.handle_key(Key::Char('|'));
    app.handle_key(Key::Char('|'));
    app.handle_key(Key::Char('3'));
    // panes: Weather, Weather, Rss
    let jobs = app.refresh_visible(0);
    assert_eq!(jobs.len(), 2);
    match &jobs[0] {
        RefreshJob::Weather { lat, lon, location_name } => {
            assert_eq!((lat.as_str(), lon.as_str(), location_name.as_str()), ("1.5", "2.5", "Home"));
        }
        _ => panic!("expected weather first"),
    }
    match &jobs[1] {
        RefreshJob::Rss { feeds } => assert_eq!(feeds, &vec!["b".to_string()]),
        _ => panic!("expected rss second"),
    }
    assert!(app.weather.loading && app.rss.loading && !app.calendar.loading);
    assert!(app.refresh_visible(1).is_empty());
    app.handle_key(Key::Char('2'));
    let job = app.refresh_tab(Tab::Calendar, 1);
    match job {
        Some(RefreshJob::Calendar { client_id, client_secret, calendar_id }) => {
            assert_eq!((client_id.as_str(), client_secret.as_str(), calendar_id.as_str()), ("id", "secret", "primary"));
        }
        _ => panic!("expected a calendar job"),
    }
}
