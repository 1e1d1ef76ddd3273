use vstd::prelude::*;

use crate::api::timefmt::{feed_time_format, format_utc_time, utc_time_text};
use crate::text::{trim, trimmed};

verus! {

broadcast use vstd::string::group_string_axioms;

/// One entry of an RSS/Atom feed as shown in the list.
#[derive(Debug, Clone)]
pub struct RssItem {
    pub title: String,
    pub source: String,
    pub published: Option<String>,
    pub link: Option<String>,
}

/// An item as plain values: title, source, published, link.
pub type ItemView = (Seq<char>, Seq<char>, Option<Seq<char>>, Option<Seq<char>>);

pub open spec fn opt_text(o: Option<String>) -> Option<Seq<char>> {
    match o {
        Some(s) => Some(s@),
        None => None,
    }
}

impl View for RssItem {
    type V = ItemView;

    open spec fn view(&self) -> ItemView {
        (self.title@, self.source@, opt_text(self.published), opt_text(self.link))
    }
}

pub open spec fn items_view(v: Seq<RssItem>) -> Seq<ItemView> {
    v.map_values(|i: RssItem| i@)
}

/// What a feed entry holds that the list shows. Times are Unix seconds.
#[derive(Debug)]
pub struct ParsedEntry {
    pub title: Option<String>,
    /// The hrefs of the entry's links, in order.
    pub links: Vec<String>,
    pub published: Option<i64>,
    pub updated: Option<i64>,
}

/// An entry as plain values: title, links, published, updated.
pub type EntryView = (Option<Seq<char>>, Seq<Seq<char>>, Option<i64>, Option<i64>);

impl View for ParsedEntry {
    type V = EntryView;

    open spec fn view(&self) -> EntryView {
        (opt_text(self.title), self.links@.map_values(|l: String| l@), self.published, self.updated)
    }
}

/// What a feed holds that the list shows.
#[derive(Debug)]
pub struct ParsedFeed {
    pub title: Option<String>,
    pub entries: Vec<ParsedEntry>,
}

/// A feed as plain values: title and entries.
pub type FeedView = (Option<Seq<char>>, Seq<EntryView>);

impl View for ParsedFeed {
    type V = FeedView;

    open spec fn view(&self) -> FeedView {
        (opt_text(self.title), self.entries@.map_values(|e: ParsedEntry| e@))
    }
}

/// What `feed_rs` reads from the bytes of a feed document: the feed, or the
/// text of the error.
pub uninterp spec fn feed_rs_parse(bytes: Seq<u8>) -> Result<FeedView, Seq<char>>;

/// Calls `feed_rs::parser::parse` on the bytes and keeps, of the feed, its
/// title text and, of each entry, its title text, the hrefs of its links and
/// its published and updated times as Unix seconds; an error is kept as its
/// text. The result depends on the bytes alone.
#[verifier::external_body]
pub(crate) fn parse_feed(bytes: &[u8]) -> (r: Result<ParsedFeed, String>)
    ensures
        match r {
            Ok(f) => feed_rs_parse(bytes@) == Ok::<FeedView, Seq<char>>(f@),
            Err(e) => feed_rs_parse(bytes@) == Err::<FeedView, Seq<char>>(e@),
        },
{
    match feed_rs::parser::parse(bytes) {
        Ok(feed) => Ok(ParsedFeed {
            title: feed.title.map(|t| t.content),
            entries: feed.entries.into_iter().map(|e| ParsedEntry {
                title: e.title.map(|t| t.content),
                links: e.links.into_iter().map(|l| l.href).collect(),
                published: e.published.map(|d| d.timestamp()),
                updated: e.updated.map(|d| d.timestamp()),
            }).collect(),
        }),
        Err(e) => Err(e.to_string()),
    }
}

/// Title shown for an entry without one.
pub open spec fn untitled() -> Seq<char> {
    "(no title)"@
}

/// The list item shown for entry `e` of the feed named `source`: its title (or
/// "(no title)"), its first link, and its published time (else its updated
/// time) written as "Jan 13 09:30".
pub open spec fn entry_item(e: EntryView, source: Seq<char>) -> ItemView {
    (
        match e.0 {
            Some(t) => t,
            None => untitled(),
        },
        source,
        match (if e.2 is Some { e.2 } else { e.3 }) {
            Some(t) => utc_time_text(t, feed_time_format()),
            None => None,
        },
        if e.1.len() > 0 {
            Some(e.1[0])
        } else {
            None
        },
    )
}

/// The name a feed is listed under: its title, else its url.
pub open spec fn feed_source(f: FeedView, url: Seq<char>) -> Seq<char> {
    match f.0 {
        Some(t) => t,
        None => url,
    }
}

/// The list items of a feed fetched from `url`, one per entry, in order.
pub open spec fn feed_item_views(f: FeedView, url: Seq<char>) -> Seq<ItemView> {
    f.1.map_values(|e: EntryView| entry_item(e, feed_source(f, url)))
}

/// Each entry of a feed becomes one item, in order: its title, or
/// "(no title)" when it has none; the feed's title as the source, or the url
/// when the feed has none; its first link; and its published time, else its
/// updated time, written as "Jan 13 09:30" in UTC.
pub proof fn law_feed_entries_become_items(f: FeedView, url: Seq<char>, i: int)
    requires
        0 <= i < f.1.len(),
    ensures
        feed_item_views(f, url).len() == f.1.len(),
        ({
            let e = f.1[i];
            let it = feed_item_views(f, url)[i];
            &&& e.0 matches Some(t) ==> it.0 == t
            &&& e.0 is None ==> it.0 == "(no title)"@
            &&& f.0 matches Some(t) ==> it.1 == t
            &&& f.0 is None ==> it.1 == url
            &&& e.1.len() > 0 ==> it.3 == Some(e.1[0])
            &&& e.1.len() == 0 ==> it.3 is None
            &&& e.2 matches Some(p) ==> it.2 == utc_time_text(p, "%b %d %H:%M"@)
            &&& (e.2 is None && e.3 is Some) ==> it.2 == utc_time_text(e.3->Some_0, "%b %d %H:%M"@)
            &&& (e.2 is None && e.3 is None) ==> it.2 is None
        }),
{
}

fn entry_to_item(e: ParsedEntry, source: &String) -> (item: RssItem)
    ensures
        item@ == entry_item(e@, source@),
{
    let ghost ev = e@;
    let title = match e.title {
        Some(t) => t,
        None => String::from_str("(no title)"),
    };
    let time = if e.published.is_some() {
        e.published
    } else {
        e.updated
    };
    let published = match time {
        Some(t) => format_utc_time(t, "%b %d %H:%M"),
        None => None,
    };
    let mut links = e.links;
    let link = if links.len() > 0 {
        Some(links.swap_remove(0))
    } else {
        None
    };
    RssItem { title, source: source.clone(), published, link }
}

/// The list items of a parsed feed fetched from `url`.
pub fn feed_items(feed: ParsedFeed, url: &str) -> (items: Vec<RssItem>)
    ensures
        items_view(items@) == feed_item_views(feed@, url@),
{
    let ghost fv = feed@;
    let source = match feed.title {
        Some(t) => t,
        None => String::from_str(url),
    };
    let mut entries = feed.entries;
    let ghost orig = entries@;
    let mut rev: Vec<ParsedEntry> = Vec::new();
    while entries.len() > 0
        invariant
            rev@.len() + entries@.len() == orig.len(),
            entries@ == orig.take(entries@.len() as int),
            forall|j: int| 0 <= j < rev@.len() ==> rev@[j] == orig[orig.len() - 1 - j],
        decreases entries.len(),
    {
        let e = entries.pop().unwrap();
        rev.push(e);
        assert(entries@ =~= orig.take(entries@.len() as int));
    }
    let mut items: Vec<RssItem> = Vec::new();
    while rev.len() > 0
        invariant
            items@.len() + rev@.len() == orig.len(),
            source@ == feed_source(fv, url@),
            fv.1 == orig.map_values(|e: ParsedEntry| e@),
            forall|j: int| 0 <= j < rev@.len() ==> rev@[j] == orig[orig.len() - 1 - j],
            forall|i: int|
                0 <= i < items@.len() ==> #[trigger] items@[i]@ == entry_item(
                    orig[i]@,
                    source@,
                ),
        decreases rev.len(),
    {
        let e = rev.pop().unwrap();
        items.push(entry_to_item(e, &source));
    }
    assert(items_view(items@) =~= feed_item_views(fv, url@));
    items
}

/// The items of a feed document fetched from `url`, or the text of the error
/// that reading it gave.
pub fn items_from_feed(bytes: &[u8], url: &str) -> (r: Result<Vec<RssItem>, String>)
    ensures
        match r {
            Ok(items) => feed_rs_parse(bytes@) matches Ok(f) && items_view(items@)
                == feed_item_views(f, url@),
            Err(e) => feed_rs_parse(bytes@) == Err::<FeedView, Seq<char>>(e@),
        },
{
    match parse_feed(bytes) {
        Ok(feed) => Ok(feed_items(feed, url)),
        Err(e) => Err(e),
    }
}

// ── several feeds ───────────────────────────────────────────────────────────

/// The feeds to fetch: the urls trimmed, empty ones left out, in order.
pub open spec fn feed_targets_of(urls: Seq<Seq<char>>) -> Seq<Seq<char>>
    decreases urls.len(),
{
    if urls.len() == 0 {
        Seq::empty()
    } else {
        let rest = feed_targets_of(urls.drop_last());
        let t = trimmed(urls.last());
        if t.len() > 0 {
            rest.push(t)
        } else {
            rest
        }
    }
}

pub fn feed_targets(urls: &Vec<String>) -> (targets: Vec<String>)
    ensures
        targets@.map_values(|s: String| s@) == feed_targets_of(urls@.map_values(|s: String| s@)),
{
    let ghost all = urls@.map_values(|s: String| s@);
    let mut targets: Vec<String> = Vec::new();
    let mut i: usize = 0;
    while i < urls.len()
        invariant
            i <= urls.len(),
            all == urls@.map_values(|s: String| s@),
            targets@.map_values(|s: String| s@) == feed_targets_of(all.take(i as int)),
        decreases urls.len() - i,
    {
        let t = trim(urls[i].as_str());
        assert(all.take(i + 1).drop_last() =~= all.take(i as int));
        if t.unicode_len() > 0 {
            targets.push(t);
        }
        i = i + 1;
        assert(targets@.map_values(|s: String| s@) =~= feed_targets_of(all.take(i as int)));
    }
    assert(all.take(urls.len() as int) =~= all);
    targets
}

/// The item that stands for a feed that could not be loaded.
pub open spec fn error_item_of(url: Seq<char>, message: Seq<char>) -> ItemView {
    ("[Error loading feed: "@ + message + "]"@, url, None, None)
}

pub fn error_item(url: &str, message: &str) -> (item: RssItem)
    ensures
        item@ == error_item_of(url@, message@),
{
    let mut title = String::from_str("[Error loading feed: ");
    title.append(message);
    title.append("]");
    RssItem { title, source: String::from_str(url), published: None, link: None }
}

/// The outcome of fetching one feed.
#[derive(Debug)]
pub struct FeedFetch {
    pub url: String,
    pub result: Result<Vec<RssItem>, String>,
}

/// The items of the fetches, in order; a failed fetch shows as one error item
/// instead of failing the whole batch.
pub open spec fn collected(fs: Seq<FeedFetch>) -> Seq<ItemView>
    decreases fs.len(),
{
    if fs.len() == 0 {
        Seq::empty()
    } else {
        let f = fs.last();
        collected(fs.drop_last()) + match f.result {
            Ok(items) => items_view(items@),
            Err(e) => seq![error_item_of(f.url@, e@)],
        }
    }
}

/// The items of fetches made one after another are the items of the first
/// ones followed by those of the rest.
pub proof fn law_collected_in_order(a: Seq<FeedFetch>, b: Seq<FeedFetch>)
    ensures
        collected(a + b) == collected(a) + collected(b),
    decreases b.len(),
{
    if b.len() == 0 {
        assert(a + b =~= a);
    } else {
        law_collected_in_order(a, b.drop_last());
        assert((a + b).drop_last() =~= a + b.drop_last());
        assert(collected(a + b) =~= collected(a) + collected(b));
    }
}

/// A feed that loaded gives its items; one that failed gives a single item
/// that names the error, with the feed's url as its source and no time or link.
pub proof fn law_collected_one(f: FeedFetch)
    ensures
        f.result matches Ok(items) ==> collected(seq![f]) == items_view(items@),
        f.result matches Err(e) ==> collected(seq![f]) == seq![
            ("[Error loading feed: "@ + e@ + "]"@, f.url@, None::<Seq<char>>, None::<Seq<char>>),
        ],
{
    assert(seq![f].drop_last() =~= Seq::<FeedFetch>::empty());
    assert(collected(Seq::<FeedFetch>::empty()) + items_view(Seq::<RssItem>::empty()) =~= items_view(Seq::<RssItem>::empty()));
    match f.result {
        Ok(items) => assert(collected(seq![f]) =~= items_view(items@)),
        Err(e) => assert(collected(seq![f]) =~= seq![error_item_of(f.url@, e@)]),
    }
}

/// The feeds fetched are the configured urls trimmed, in order, without the
/// ones that are empty once trimmed.
pub proof fn law_feed_targets(a: Seq<Seq<char>>, u: Seq<char>)
    ensures
        feed_targets_of(Seq::<Seq<char>>::empty()).len() == 0,
        trimmed(u).len() > 0 ==> feed_targets_of(a.push(u)) == feed_targets_of(a).push(trimmed(u)),
        trimmed(u).len() == 0 ==> feed_targets_of(a.push(u)) == feed_targets_of(a),
{
    assert(a.push(u).drop_last() =~= a);
}

pub fn collect_items(fetches: Vec<FeedFetch>) -> (items: Vec<RssItem>)
    ensures
        items_view(items@) == collected(fetches@),
{
    let mut fetches = fetches;
    let ghost orig = fetches@;
    let mut rev: Vec<FeedFetch> = Vec::new();
    while fetches.len() > 0
        invariant
            rev@.len() + fetches@.len() == orig.len(),
            fetches@ == orig.take(fetches@.len() as int),
            forall|j: int| 0 <= j < rev@.len() ==> rev@[j] == orig[orig.len() - 1 - j],
        decreases fetches.len(),
    {
        let f = fetches.pop().unwrap();
        rev.push(f);
        assert(fetches@ =~= orig.take(fetches@.len() as int));
    }
    let mut all: Vec<RssItem> = Vec::new();
    let mut done: usize = 0;
    let total = rev.len();
    while rev.len() > 0
        invariant
            done + rev@.len() == orig.len(),
            orig.len() == total,
            forall|j: int| 0 <= j < rev@.len() ==> rev@[j] == orig[orig.len() - 1 - j],
            items_view(all@) == collected(orig.take(done as int)),
        decreases rev.len(),
    {
        let f = rev.pop().unwrap();
        assert(orig.take(done + 1).drop_last() =~= orig.take(done as int));
        assert(orig.take(done + 1).last() == f);
        match f.result {
            Ok(items) => {
                let mut items = items;
                let ghost before = all@;
                all.append(&mut items);
                assert(items_view(all@) =~= items_view(before) + items_view(f.result->Ok_0@));
            },
            Err(e) => {
                let item = error_item(f.url.as_str(), e.as_str());
                let ghost before = all@;
                all.push(item);
                assert(items_view(all@) =~= items_view(before) + seq![error_item_of(f.url@, e@)]);
            },
        }
        done = done + 1;
    }
    assert(orig.take(orig.len() as int) =~= orig);
    all
}

} // verus!
