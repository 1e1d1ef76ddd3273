use drakonix::config::{
    credentials_from_doc, nonempty, parse_feed_list, ClientSection, Config, CredentialsDoc,
    EnvSettings,
};

fn section(id: Option<&str>, secret: Option<&str>) -> ClientSection {
    ClientSection { client_id: id.map(|s| s.to_string()), client_secret: secret.map(|s| s.to_string()) }
}

fn empty_settings() -> EnvSettings {
    EnvSettings {
        weather_lat: None,
        weather_lon: None,
        weather_location_name: None,
        google_client_id: None,
        google_client_secret: None,
        google_calendar_id: None,
        rss_feeds: None,
        credentials: None,
    }
}

#[test]
fn feed_list_is_split_and_trimmed() {
    assert_eq!(
        parse_feed_list(" https://a , ,https://b,"),
        vec!["https://a".to_string(), "https://b".to_string()]
    );
    assert!(parse_feed_list("").is_empty());
    assert!(parse_feed_list(" , ").is_empty());
    assert_eq!(parse_feed_list("x"), vec!["x".to_string()]);
}

#[test]
fn defaults_when_nothing_is_set() {
    let c = Config::from_settings(empty_settings());
    assert_eq!(c.weather_lat, "40.71");
    assert_eq!(c.weather_lon, "-74.01");
    assert_eq!(c.weather_location_name, "");
    assert_eq!(c.google_client_id, "");
    assert_eq!(c.google_calendar_id, "primary");
    assert!(c.rss_feeds.is_empty());
}

#[test]
fn credentials_precedence() {
    let doc = CredentialsDoc {
        installed: None,
        web: Some(section(Some("web-id"), None)),
        top: section(Some("top-id"), Some("top-secret")),
    };
    assert_eq!(credentials_from_doc(&Some(doc.clone())), ("web-id".to_string(), String::new()));
    let mut s = empty_settings();
    s.credentials = Some(doc);
    s.google_client_id = Some(String::new());
    s.google_client_secret = Some("env-secret".to_string());
    s.weather_lat = Some(String::new());
    s.rss_feeds = Some("a,b".to_string());
    let c = Config::from_settings(s);
    assert_eq!(c.google_client_id, "web-id");
    assert_eq!(c.google_client_secret, "env-secret");
    assert_eq!(c.weather_lat, "");
    assert_eq!(c.rss_feeds, vec!["a".to_string(), "b".to_string()]);
    let top = CredentialsDoc { installed: None, web: None, top: section(Some("t"), Some("s")) };
    assert_eq!(credentials_from_doc(&Some(top)), ("t".to_string(), "s".to_string()));
    assert_eq!(credentials_from_doc(&None), (String::new(), String::new()));
    assert_eq!(nonempty(Some(String::new())), None);
    assert_eq!(nonempty(Some("v".to_string())), Some("v".to_string()));
}
