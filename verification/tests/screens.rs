use drakonix::api::calendar::CalendarEvent;
use drakonix::api::rss::RssItem;
use drakonix::app::TabState;
use drakonix::screens::{
    calendar_screen, column_title, day_columns, day_picker_labels, picker_label, rss_screen,
    rss_selection_out_of_range, CalendarScreen, RssScreen,
};
use drakonix::ui::{centered_popup_fits, Area};

fn item(title: &str, source: &str, published: Option<&str>, link: Option<&str>) -> RssItem {
    RssItem {
        title: title.to_string(),
        source: source.to_string(),
        published: published.map(|p| p.to_string()),
        link: link.map(|l| l.to_string()),
    }
}

fn event(title: &str, start: &str) -> CalendarEvent {
    CalendarEvent { title: title.to_string(), start: start.to_string(), end: start.to_string(), location: None }
}

fn with_items(items: Vec<RssItem>) -> TabState<Vec<RssItem>> {
    TabState { data: Some(items), error: None, loading: false, last_refresh: Some(1) }
}

#[test]
fn rss_screen_before_any_fetch_prompts_to_load() {
    let state: TabState<Vec<RssItem>> = TabState::default();
    assert!(matches!(rss_screen(&state, 0), RssScreen::Prompt));
}

#[test]
fn rss_screen_while_loading_shows_loading_over_old_data() {
    let mut state = with_items(vec![item("a", "s", None, None)]);
    state.loading = true;
    assert!(matches!(rss_screen(&state, 0), RssScreen::Loading));
}

#[test]
fn rss_screen_shows_the_error() {
    let mut state = with_items(vec![item("a", "s", None, None)]);
    state.error = Some("boom".to_string());
    match rss_screen(&state, 0) {
        RssScreen::Failed(m) => assert_eq!(m, "boom"),
        _ => panic!("expected the error screen"),
    }
}

#[test]
fn rss_screen_with_no_items() {
    let state = with_items(vec![]);
    assert!(matches!(rss_screen(&state, 5), RssScreen::NoItems));
    assert!(!rss_selection_out_of_range(&state, 5));
}

#[test]
fn rss_screen_lists_items_and_details_the_selected_one() {
    let state = with_items(vec![
        item("First", "Blog", Some("Jan 13 09:30"), None),
        item("Second", "News", None, Some("https://n.example/2")),
    ]);
    match rss_screen(&state, 1) {
        RssScreen::Items(list) => {
            assert_eq!(list.heading, " RSS (2 items) ");
            assert_eq!(list.selected, 1);
            assert_eq!(list.rows.len(), 2);
            assert_eq!(list.rows[0].title, "First");
            assert_eq!(list.rows[0].source_line, "  Blog Jan 13 09:30");
            assert!(!list.rows[0].selected);
            assert_eq!(list.rows[1].title, "Second");
            assert_eq!(list.rows[1].source_line, "  News ");
            assert!(list.rows[1].selected);
            assert_eq!(list.detail.title, "Second");
            assert_eq!(list.detail.source_line, "Source: News");
            assert_eq!(list.detail.published_line, None);
            assert_eq!(list.detail.link, Some("https://n.example/2".to_string()));
        }
        _ => panic!("expected the item list"),
    }
}

#[test]
fn rss_detail_shows_when_the_item_was_published() {
    let state = with_items(vec![item("First", "Blog", Some("Jan 13 09:30"), None)]);
    match rss_screen(&state, 0) {
        RssScreen::Items(list) => {
            assert_eq!(list.heading, " RSS (1 items) ");
            assert_eq!(list.detail.published_line, Some("Published: Jan 13 09:30".to_string()));
            assert_eq!(list.detail.link, None);
        }
        _ => panic!("expected the item list"),
    }
}

#[test]
fn rss_selection_past_the_list_is_detected() {
    let state = with_items(vec![item("a", "s", None, None)]);
    assert!(rss_selection_out_of_range(&state, 1));
    assert!(!rss_selection_out_of_range(&state, 0));
    let mut loading = with_items(vec![item("a", "s", None, None)]);
    loading.loading = true;
    assert!(!rss_selection_out_of_range(&loading, 3));
}

#[test]
fn calendar_screen_waits_for_authorization_first() {
    let mut state: TabState<Vec<CalendarEvent>> = TabState::default();
    state.loading = true;
    let url = Some("https://accounts.example/auth".to_string());
    match calendar_screen(&url, &state) {
        CalendarScreen::AwaitingAuth(u) => assert_eq!(u, "https://accounts.example/auth"),
        _ => panic!("expected the authorization screen"),
    }
    assert!(matches!(calendar_screen(&None, &state), CalendarScreen::Loading));
}

#[test]
fn calendar_screen_offers_setup_steps_for_missing_credentials() {
    let mut state: TabState<Vec<CalendarEvent>> = TabState::default();
    state.error = Some("GOOGLE_CLIENT_ID not set in .env".to_string());
    match calendar_screen(&None, &state) {
        CalendarScreen::Failed { message, setup_help } => {
            assert_eq!(message, "GOOGLE_CLIENT_ID not set in .env");
            assert!(setup_help);
        }
        _ => panic!("expected the error screen"),
    }
    state.error = Some("Calendar API error 500: oops".to_string());
    match calendar_screen(&None, &state) {
        CalendarScreen::Failed { setup_help, .. } => assert!(!setup_help),
        _ => panic!("expected the error screen"),
    }
}

#[test]
fn calendar_screen_heading_counts_events() {
    let state = TabState {
        data: Some(vec![event("a", "2025-01-13"), event("b", "2025-01-14"), event("c", "2025-01-15")]),
        error: None,
        loading: false,
        last_refresh: Some(3),
    };
    match calendar_screen(&None, &state) {
        CalendarScreen::Days { heading } => {
            assert_eq!(heading, " Google Calendar  [d] toggle days  [j/k] scroll (3 events) ")
        }
        _ => panic!("expected the day columns"),
    }
    let empty: TabState<Vec<CalendarEvent>> = TabState::default();
    assert!(matches!(calendar_screen(&None, &empty), CalendarScreen::Prompt));
}

#[test]
fn day_columns_count_and_name_the_days() {
    let cols = day_columns("2025-01-13", &vec![0, 2, 6]).unwrap();
    assert_eq!(cols.len(), 3);
    assert_eq!((cols[0].day, cols[0].date.as_str(), cols[0].title.as_str()), (0, "2025-01-13", " Today Mon Jan 13 "));
    assert_eq!((cols[1].day, cols[1].date.as_str(), cols[1].title.as_str()), (2, "2025-01-15", " Wed Jan 15 "));
    assert_eq!((cols[2].day, cols[2].date.as_str(), cols[2].title.as_str()), (6, "2025-01-19", " Sun Jan 19 "));
}

#[test]
fn day_columns_cross_the_year() {
    let cols = day_columns("2024-12-30", &vec![3]).unwrap();
    assert_eq!(cols[0].date, "2025-01-02");
    assert_eq!(cols[0].title, " Thu Jan 02 ");
}

#[test]
fn day_columns_of_no_days_or_a_bad_date() {
    assert_eq!(day_columns("2025-01-13", &vec![]).unwrap().len(), 0);
    assert!(day_columns("13/01/2025", &vec![0]).is_none());
}

#[test]
fn day_picker_labels_for_a_week() {
    let labels = day_picker_labels("2025-01-13").unwrap();
    assert_eq!(
        labels,
        vec!["Today  Mon Jan 13", "Tue Jan 14", "Wed Jan 15", "Thu Jan 16", "Fri Jan 17", "Sat Jan 18", "Sun Jan 19"]
    );
    assert!(day_picker_labels("yesterday").is_none());
}

#[test]
fn titles_and_labels_mark_today() {
    assert_eq!(column_title(0, "Mon Jan 13"), " Today Mon Jan 13 ");
    assert_eq!(column_title(4, "Fri Jan 17"), " Fri Jan 17 ");
    assert_eq!(picker_label(0, "Mon Jan 13"), "Today  Mon Jan 13");
    assert_eq!(picker_label(1, "Tue Jan 14"), "Tue Jan 14");
}

#[test]
fn popup_fits_unless_its_position_leaves_sixteen_bits() {
    let a = Area { x: 0, y: 0, width: 80, height: 24 };
    assert!(centered_popup_fits(a, 52, 30));
    let far = Area { x: 65500, y: 0, width: 1000, height: 24 };
    assert!(!centered_popup_fits(far, 36, 11));
}
