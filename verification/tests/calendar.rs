use drakonix::api::calendar::{
    build_auth_url, calendar_events, callback_code, credentials_error, events_url,
    extract_query_param, http_error_message, random_state, redirect_uri, refreshed_tokens,
    to_calendar_event, token_expiry, token_plan, tokens_from_response, CallbackError, EventList,
    EventTime, GCalEvent, StoredTokens, TokenPlan, TokenResponse,
};

fn time(date_time: Option<&str>, date: Option<&str>) -> EventTime {
    EventTime { date_time: date_time.map(|s| s.to_string()), date: date.map(|s| s.to_string()) }
}

#[test]
fn state_is_eight_hex_digits() {
    assert_eq!(random_state(0x1a2b), "00001a2b");
    assert_eq!(random_state(999_999_999), "3b9ac9ff");
    assert_eq!(random_state(0), "00000000");
}

#[test]
fn redirect_uri_has_port() {
    assert_eq!(redirect_uri(8080), "http://127.0.0.1:8080");
    assert_eq!(redirect_uri(0), "http://127.0.0.1:0");
    assert_eq!(redirect_uri(65535), "http://127.0.0.1:65535");
}

#[test]
fn auth_url_encodes_its_parts() {
    let url = build_auth_url("my id.apps", "http://127.0.0.1:9000", "00ab");
    assert_eq!(
        url,
        "https://accounts.google.com/o/oauth2/v2/auth?client_id=my%20id.apps\
         &redirect_uri=http%3A%2F%2F127.0.0.1%3A9000&response_type=code\
         &scope=https%3A%2F%2Fwww.googleapis.com%2Fauth%2Fcalendar.readonly&state=00ab\
         &access_type=offline&prompt=consent"
    );
}

#[test]
fn query_params_from_request_line() {
    let req = "GET /?code=4%2F0Ab%20c&state=xyz HTTP/1.1\r\nHost: localhost\r\n\r\n";
    assert_eq!(extract_query_param(req, "code").as_deref(), Some("4/0Ab c"));
    assert_eq!(extract_query_param(req, "state").as_deref(), Some("xyz"));
    assert_eq!(extract_query_param(req, "scope"), None);
    assert_eq!(extract_query_param("", "code"), None);
    assert_eq!(extract_query_param("GET / HTTP/1.1\r\n", "code"), None);
    assert_eq!(extract_query_param("GET /?a=1&code=%FF HTTP/1.1", "code").as_deref(), Some(""));
    assert_eq!(extract_query_param("GET /?xcode=1&code=2", "code").as_deref(), Some("2"));
    assert_eq!(extract_query_param("\nGET /?code=1", "code"), None);
    assert_eq!(extract_query_param("GET /?code=1?code=2 HTTP", "code").as_deref(), Some("1"));
}

#[test]
fn callback_checks_code_and_state() {
    let ok = "GET /?code=abc&state=s1 HTTP/1.1\r\n";
    assert_eq!(callback_code(ok, "s1"), Ok("abc".to_string()));
    assert_eq!(callback_code(ok, "s2"), Err(CallbackError::StateMismatch));
    assert_eq!(callback_code("GET /?state=s1 HTTP/1.1", "s1"), Err(CallbackError::NoCode));
    assert_eq!(callback_code("GET /?code=abc HTTP/1.1", ""), Ok("abc".to_string()));
    assert_eq!(CallbackError::NoCode.message(), "No authorization code received from Google");
    assert_eq!(CallbackError::StateMismatch.message(), "OAuth state mismatch (possible CSRF)");
}

#[test]
fn token_lifetimes() {
    assert_eq!(token_expiry(1000, Some(60)), 1060);
    assert_eq!(token_expiry(1000, None), 4600);
    let t = tokens_from_response(
        TokenResponse { access_token: "a".to_string(), refresh_token: None, expires_in: Some(10) },
        5,
    );
    assert_eq!((t.access_token.as_str(), t.refresh_token.as_str(), t.expires_at), ("a", "", 15));
    let r = refreshed_tokens(t, "b".to_string(), 99);
    assert_eq!((r.access_token.as_str(), r.refresh_token.as_str(), r.expires_at), ("b", "", 99));
}

#[test]
fn token_plans() {
    let stored = |exp: i64, refresh: &str| {
        Some(StoredTokens {
            access_token: "acc".to_string(),
            refresh_token: refresh.to_string(),
            expires_at: exp,
        })
    };
    assert!(matches!(token_plan(&None, 0), TokenPlan::Authorize));
    match token_plan(&stored(1061, ""), 1000) {
        TokenPlan::UseStored(a) => assert_eq!(a, "acc"),
        p => panic!("unexpected {:?}", p),
    }
    match token_plan(&stored(1060, "ref"), 1000) {
        TokenPlan::Refresh(r) => assert_eq!(r, "ref"),
        p => panic!("unexpected {:?}", p),
    }
    assert!(matches!(token_plan(&stored(1060, ""), 1000), TokenPlan::Authorize));
    assert!(matches!(token_plan(&stored(i64::MAX, ""), i64::MAX), TokenPlan::Authorize));
}

#[test]
fn error_texts() {
    assert_eq!(
        http_error_message("Calendar API", "403 Forbidden", "nope"),
        "Calendar API 403 Forbidden: nope"
    );
    assert_eq!(
        credentials_error("", "x").as_deref(),
        Some("GOOGLE_CLIENT_ID / GOOGLE_CLIENT_SECRET not set in .env")
    );
    assert_eq!(credentials_error("id", ""), credentials_error("", "x"));
    assert_eq!(credentials_error("id", "x"), None);
}

#[test]
fn event_time_display() {
    assert_eq!(time(Some("2025-01-13T09:30:00-05:00"), None).display(), "2025-01-13 09:30");
    assert_eq!(time(Some("2025-01-13T09:30"), Some("x")).display(), "2025-01-13 09:30");
    assert_eq!(time(Some("2025-01-13T09"), None).display(), "2025-01-13T09");
    assert_eq!(time(None, Some("2025-01-14")).display(), "2025-01-14");
    assert_eq!(time(None, None).display(), "");
    // byte 16 falls inside the two-byte 'é': the text is kept whole
    assert_eq!(time(Some("2025-01-13T09:3é0"), None).display(), "2025-01-13T09:3é0");
    assert_eq!(time(Some("2025-01-13T09:é0"), None).display(), "2025-01-13 09:é");
}

#[test]
fn events_from_list() {
    let list = EventList {
        items: vec![
            GCalEvent {
                summary: None,
                start: time(Some("2025-01-13T09:30:00Z"), None),
                end: time(Some("2025-01-13T10:00:00Z"), None),
                location: Some("Room".to_string()),
            },
            GCalEvent {
                summary: Some("Trip".to_string()),
                start: time(None, Some("2025-01-14")),
                end: time(None, Some("2025-01-15")),
                location: None,
            },
        ],
    };
    let evs = calendar_events(list);
    assert_eq!(evs.len(), 2);
    assert_eq!(evs[0].title, "(no title)");
    assert_eq!(evs[0].start, "2025-01-13 09:30");
    assert_eq!(evs[0].end, "2025-01-13 10:00");
    assert_eq!(evs[0].location.as_deref(), Some("Room"));
    assert_eq!(evs[1].title, "Trip");
    assert_eq!(evs[1].start, "2025-01-14");
    let one = to_calendar_event(GCalEvent {
        summary: Some("A".to_string()),
        start: time(None, None),
        end: time(None, None),
        location: None,
    });
    assert_eq!((one.title.as_str(), one.start.as_str()), ("A", ""));
}

#[test]
fn events_url_encodes_calendar_and_time() {
    assert_eq!(
        events_url("me@example.com", "2025-01-13T09:30:00+00:00"),
        "https://www.googleapis.com/calendar/v3/calendars/me%40example.com/events\
         ?timeMin=2025-01-13T09%3A30%3A00%2B00%3A00&maxResults=20&singleEvents=true&orderBy=startTime"
    );
}
