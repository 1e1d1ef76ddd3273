use drakonix::api::calendar::CalendarEvent;
use drakonix::api::calendar::{extract_query_param, redirect_uri};
use drakonix::app::Tab;
use drakonix::text::{decimal_string, hex_string, trim};
use drakonix::tiling::{Side, SplitDir, TileLayout};
use drakonix::ui::{
    centered_popup, checkbox, feed_picker_area, feed_picker_can_fit, enabled_day_indices, event_time_label, events_on_day,
    forecast_columns, is_setup_error, pane_is_focused, tab_bar_hint, Area,
};

#[test]
fn numbers_as_text() {
    assert_eq!(decimal_string(0), "0");
    assert_eq!(decimal_string(1234567890), "1234567890");
    assert_eq!(decimal_string(u64::MAX), "18446744073709551615");
    assert_eq!(hex_string(255, 4), "00ff");
    assert_eq!(hex_string(0x12345, 2), "45");
}

#[test]
fn trimming() {
    assert_eq!(trim("  a b \n"), "a b");
    assert_eq!(trim("\u{3000}x\u{a0}"), "x");
    assert_eq!(trim("   "), "");
    assert_eq!(trim(""), "");
}

#[test]
fn url_codec() {
    let v = |q: &str| extract_query_param(&format!("GET /?v={q} HTTP/1.1"), "v");
    assert_eq!(v("%41%zz+%4").as_deref(), Some("A%zz+%4"));
    assert_eq!(v("%C3%BC").as_deref(), Some("ü"));
    assert_eq!(v("%FF").as_deref(), Some(""));
    assert_eq!(redirect_uri(1), "http://127.0.0.1:1");
    let url = drakonix::api::calendar::events_url("a b/ü~", "");
    assert!(url.contains("/calendars/a%20b%2F%C3%BC~/events?timeMin=&"));
}

#[test]
fn popups_are_centered() {
    let area = Area { x: 2, y: 3, width: 100, height: 20 };
    assert_eq!(centered_popup(area, 52, 30), Area { x: 26, y: 3, width: 52, height: 20 });
    assert_eq!(centered_popup(area, 200, 4), Area { x: 2, y: 11, width: 100, height: 4 });
}

#[test]
fn event_time_labels() {
    assert_eq!(event_time_label("2025-01-13 09:30"), "09:30");
    assert_eq!(event_time_label("2025-01-13 09::"), "09");
    assert_eq!(event_time_label("2025-01-13"), "All day");
    assert_eq!(event_time_label("2025-01-13 "), "");
}

#[test]
fn day_columns() {
    let ev = |start: &str| CalendarEvent {
        title: "t".to_string(),
        start: start.to_string(),
        end: String::new(),
        location: None,
    };
    let events = vec![ev("2025-01-13 09:30"), ev("2025-01-14"), ev("2025-01-13")];
    assert_eq!(events_on_day(&events, "2025-01-13"), vec![0, 2]);
    assert_eq!(events_on_day(&events, "2025-01-15"), Vec::<usize>::new());
    assert_eq!(enabled_day_indices(&[true, false, true, false, false, false, true]), vec![0, 2, 6]);
    assert_eq!(forecast_columns(9), 7);
    assert_eq!(forecast_columns(3), 3);
}

#[test]
fn pane_marks() {
    let mut l = TileLayout::new(Tab::Weather);
    assert!(!pane_is_focused(&l, &vec![]));
    assert_eq!(tab_bar_hint(l.is_single()), " [|] split  [-] split  [?] help ");
    l.split(SplitDir::Horizontal);
    assert!(pane_is_focused(&l, &vec![Side::Right]));
    assert!(!pane_is_focused(&l, &vec![Side::Left]));
    assert_eq!(tab_bar_hint(l.is_single()), " [Tab] next pane  [x] close  [|/-] split  [?] help ");
    assert_eq!(checkbox(true), "[x]");
    assert_eq!(checkbox(false), "[ ]");
    assert!(is_setup_error("GOOGLE_CLIENT_ID / GOOGLE_CLIENT_SECRET not set in .env"));
    assert!(!is_setup_error("Calendar API 500: oops"));
}

#[test]
fn feed_picker_placement() {
    let feeds = vec!["https://a.example/rss".to_string(), "x".to_string()];
    let area = Area { x: 0, y: 0, width: 100, height: 30 };
    assert!(feed_picker_can_fit(&feeds, area));
    assert_eq!(feed_picker_area(&feeds, area), Area { x: 32, y: 12, width: 36, height: 6 });
    let long = vec!["u".repeat(80)];
    assert_eq!(feed_picker_area(&long, area), Area { x: 6, y: 12, width: 88, height: 5 });
    let longer = vec!["u".repeat(100)];
    assert_eq!(feed_picker_area(&longer, area), Area { x: 2, y: 12, width: 96, height: 5 });
    assert!(!feed_picker_can_fit(&feeds, Area { x: 0, y: 0, width: 39, height: 30 }));
}
