use drakonix::api::rss::{
    collect_items, error_item, feed_items, feed_targets, items_from_feed, FeedFetch,
    ParsedEntry, ParsedFeed, RssItem,
};

const RSS: &str = r#"<?xml version="1.0"?>
<rss version="2.0"><channel><title>Example News</title><link>https://example.com</link>
<description>d</description>
<item><title>First</title><link>https://example.com/1</link><pubDate>Mon, 13 Jan 2025 09:30:00 GMT</pubDate></item>
<item><link>https://example.com/2</link></item>
</channel></rss>"#;

#[test]
fn rss_document_becomes_items() {
    let items = items_from_feed(RSS.as_bytes(), "https://example.com/feed").unwrap();
    assert_eq!(items.len(), 2);
    assert_eq!(items[0].title, "First");
    assert_eq!(items[0].source, "Example News");
    assert_eq!(items[0].published.as_deref(), Some("Jan 13 09:30"));
    assert_eq!(items[0].link.as_deref(), Some("https://example.com/1"));
    assert_eq!(items[1].title, "(no title)");
    assert_eq!(items[1].published, None);
}

#[test]
fn unreadable_document_is_an_error() {
    assert!(items_from_feed(b"this is not a feed", "u").is_err());
    assert!(items_from_feed(b"", "u").is_err());
}

#[test]
fn parsed_feed_mapping() {
    let feed = ParsedFeed {
        title: None,
        entries: vec![ParsedEntry {
            title: Some("T".to_string()),
            links: vec!["l1".to_string(), "l2".to_string()],
            published: None,
            updated: Some(0),
        }],
    };
    let items = feed_items(feed, "https://u");
    assert_eq!(items.len(), 1);
    assert_eq!(items[0].source, "https://u");
    assert_eq!(items[0].link.as_deref(), Some("l1"));
    assert_eq!(items[0].published.as_deref(), Some("Jan 01 00:00"));
}

#[test]
fn feed_targets_are_trimmed() {
    let urls = vec![" a ".to_string(), "".to_string(), "\t\n".to_string(), "b".to_string()];
    assert_eq!(feed_targets(&urls), vec!["a".to_string(), "b".to_string()]);
}

#[test]
fn failed_feed_shows_error_item() {
    let e = error_item("https://x", "timeout");
    assert_eq!(e.title, "[Error loading feed: timeout]");
    assert_eq!(e.source, "https://x");
    let ok = RssItem { title: "t".to_string(), source: "s".to_string(), published: None, link: None };
    let all = collect_items(vec![
        FeedFetch { url: "u1".to_string(), result: Ok(vec![ok.clone(), ok.clone()]) },
        FeedFetch { url: "u2".to_string(), result: Err("bad".to_string()) },
        FeedFetch { url: "u3".to_string(), result: Ok(vec![]) },
    ]);
    assert_eq!(all.len(), 3);
    assert_eq!(all[2].title, "[Error loading feed: bad]");
    assert_eq!(all[2].source, "u2");
}
