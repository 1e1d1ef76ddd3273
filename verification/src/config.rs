use vstd::prelude::*;

use crate::text::{
    after, before, chars_of, find_char, lemma_first_pos, lemma_trimmed_is_trimmed,
    substring, trim, trimmed,
};

verus! {

broadcast use vstd::string::group_string_axioms;

/// Settings of the dashboard.
#[derive(Debug, Clone)]
pub struct Config {
    pub weather_lat: String,
    pub weather_lon: String,
    pub weather_location_name: String,
    pub google_client_id: String,
    pub google_client_secret: String,
    pub google_calendar_id: String,
    pub rss_feeds: Vec<String>,
}

/// The client id and secret found in one section of a `credentials.json`
/// file; a key whose value is not a text counts as missing.
#[derive(Debug, Clone)]
pub struct ClientSection {
    pub client_id: Option<String>,
    pub client_secret: Option<String>,
}

/// What the dashboard reads from a `credentials.json` file: the `installed`
/// and `web` sections when present, and the keys at the top level.
#[derive(Debug, Clone)]
pub struct CredentialsDoc {
    pub installed: Option<ClientSection>,
    pub web: Option<ClientSection>,
    pub top: ClientSection,
}

/// The raw settings: each environment variable's value when it is set, and
/// the credentials file when one is named and reads as JSON.
#[derive(Debug, Clone)]
pub struct EnvSettings {
    pub weather_lat: Option<String>,
    pub weather_lon: Option<String>,
    pub weather_location_name: Option<String>,
    pub google_client_id: Option<String>,
    pub google_client_secret: Option<String>,
    pub google_calendar_id: Option<String>,
    pub rss_feeds: Option<String>,
    pub credentials: Option<CredentialsDoc>,
}

pub open spec fn text_or(o: Option<String>, dflt: Seq<char>) -> Seq<char> {
    match o {
        Some(s) => s@,
        None => dflt,
    }
}

/// The section the client credentials are taken from: `installed`, else `web`,
/// else the top level.
pub open spec fn credentials_section(d: CredentialsDoc) -> ClientSection {
    match d.installed {
        Some(s) => s,
        None => match d.web {
            Some(s) => s,
            None => d.top,
        },
    }
}

/// Client id and secret from the credentials file; empty when missing.
pub open spec fn file_credentials(doc: Option<CredentialsDoc>) -> (Seq<char>, Seq<char>) {
    match doc {
        None => (Seq::empty(), Seq::empty()),
        Some(d) => (
            text_or(credentials_section(d).client_id, Seq::empty()),
            text_or(credentials_section(d).client_secret, Seq::empty()),
        ),
    }
}

fn text_or_empty(o: &Option<String>) -> (s: String)
    ensures
        s@ == text_or(*o, Seq::empty()),
{
    match o {
        Some(s) => s.clone(),
        None => String::new(),
    }
}

pub fn credentials_from_doc(doc: &Option<CredentialsDoc>) -> (r: (String, String))
    ensures
        (r.0@, r.1@) == file_credentials(*doc),
{
    match doc {
        None => (String::new(), String::new()),
        Some(d) => {
            let section = match &d.installed {
                Some(s) => s,
                None => match &d.web {
                    Some(s) => s,
                    None => &d.top,
                },
            };
            (text_or_empty(&section.client_id), text_or_empty(&section.client_secret))
        },
    }
}

/// A value that is set and not empty.
pub open spec fn nonempty_of(v: Option<String>) -> Option<String> {
    match v {
        Some(s) => if s@.len() > 0 {
            Some(s)
        } else {
            None
        },
        None => None,
    }
}

pub fn nonempty(v: Option<String>) -> (r: Option<String>)
    ensures
        r == nonempty_of(v),
{
    match v {
        Some(s) => if s.unicode_len() > 0 {
            Some(s)
        } else {
            None
        },
        None => None,
    }
}

/// The feeds of a comma-separated list: each piece trimmed, empty pieces left out.
pub open spec fn feed_list_of(s: Seq<char>) -> Seq<Seq<char>>
    decreases s.len(),
{
    let head = trimmed(before(s, ','));
    let rest = match after(s, ',') {
        Some(r) => if r.len() < s.len() {
            feed_list_of(r)
        } else {
            Seq::empty()
        },
        None => Seq::empty(),
    };
    if head.len() > 0 {
        seq![head] + rest
    } else {
        rest
    }
}

/// Every feed of a list is a non-empty url without surrounding white space.
pub proof fn law_feed_list_clean(s: Seq<char>)
    ensures
        forall|i: int|
            0 <= i < feed_list_of(s).len() ==> #[trigger] feed_list_of(s)[i].len() > 0 && trimmed(
                feed_list_of(s)[i],
            ) == feed_list_of(s)[i],
    decreases s.len(),
{
    lemma_trimmed_is_trimmed(before(s, ','));
    match after(s, ',') {
        Some(r) => if r.len() < s.len() {
            law_feed_list_clean(r);
        },
        None => {},
    }
    let head = trimmed(before(s, ','));
    let rest = match after(s, ',') {
        Some(r) => if r.len() < s.len() {
            feed_list_of(r)
        } else {
            Seq::empty()
        },
        None => Seq::empty(),
    };
    if head.len() > 0 {
        assert forall|i: int| 0 <= i < feed_list_of(s).len() implies #[trigger] feed_list_of(s)[i].len() > 0 && trimmed(
            feed_list_of(s)[i],
        ) == feed_list_of(s)[i] by {
            if i > 0 {
                assert(feed_list_of(s)[i] == rest[i - 1]);
            }
        }
    }
}

/// A list without commas is a single feed: the text trimmed, or none when
/// that is empty.
pub proof fn law_feed_list_single(s: Seq<char>)
    requires
        !s.contains(','),
    ensures
        feed_list_of(s) == if trimmed(s).len() > 0 {
            seq![trimmed(s)]
        } else {
            Seq::<Seq<char>>::empty()
        },
{
    assert forall|k: int| 0 <= k < s.len() implies s[k] != ',' by {
        if s[k] == ',' {
            assert(s.contains(','));
        }
    }
    lemma_first_pos(s, ',', s.len() as int);
    assert(s.take(s.len() as int) =~= s);
}

/// A comma splits the list: the feeds of `a,b` are those of `a` followed by
/// those of `b`, where `a` has no comma.
pub proof fn law_feed_list_splits_at_comma(a: Seq<char>, b: Seq<char>)
    requires
        !a.contains(','),
    ensures
        feed_list_of(a + seq![','] + b) == feed_list_of(a) + feed_list_of(b),
{
    let s = a + seq![','] + b;
    assert forall|k: int| 0 <= k < a.len() implies s[k] != ',' by {
        assert(s[k] == a[k]);
        if a[k] == ',' {
            assert(a.contains(','));
        }
    }
    lemma_first_pos(s, ',', a.len() as int);
    assert(before(s, ',') =~= a);
    assert(s.skip(a.len() as int + 1) =~= b);
    assert(after(s, ',') == Some(b));
    law_feed_list_single(a);
    if trimmed(a).len() > 0 {
        assert(feed_list_of(s) =~= feed_list_of(a) + feed_list_of(b));
    } else {
        assert(feed_list_of(s) =~= feed_list_of(a) + feed_list_of(b));
    }
}

/// The client credentials of a `credentials.json` file come from its
/// `installed` section when it has one, else from its `web` section, else
/// from its top level; a missing key, or a missing file, gives empty texts.
pub proof fn law_credentials_section_order(doc: Option<CredentialsDoc>)
    ensures
        doc is None ==> file_credentials(doc) == (Seq::<char>::empty(), Seq::<char>::empty()),
        doc matches Some(d) ==> ({
            let sec = match d.installed {
                Some(i) => i,
                None => match d.web {
                    Some(w) => w,
                    None => d.top,
                },
            };
            &&& d.installed matches Some(i) ==> sec == i
            &&& (d.installed is None && d.web is Some) ==> sec == d.web->Some_0
            &&& (d.installed is None && d.web is None) ==> sec == d.top
            &&& file_credentials(doc).0 == match sec.client_id {
                Some(t) => t@,
                None => Seq::<char>::empty(),
            }
            &&& file_credentials(doc).1 == match sec.client_secret {
                Some(t) => t@,
                None => Seq::<char>::empty(),
            }
        }),
{
}

/// What is not set takes its default: the coordinates of New York City
/// (40.71, -74.01), no place name, the primary calendar and no feeds. What is
/// set is taken as it is, and a client id or secret set to a non-empty text
/// wins over the credentials file, whose values count where they are not.
pub proof fn law_settings_defaults(e: EnvSettings, c: Config)
    requires
        config_of(e, c),
    ensures
        e.weather_lat is None ==> c.weather_lat@ == "40.71"@,
        e.weather_lon is None ==> c.weather_lon@ == "-74.01"@,
        e.weather_location_name is None ==> c.weather_location_name@.len() == 0,
        e.google_calendar_id is None ==> c.google_calendar_id@ == "primary"@,
        e.rss_feeds is None ==> c.rss_feeds@.len() == 0,
        e.weather_lat matches Some(v) ==> c.weather_lat@ == v@,
        e.weather_lon matches Some(v) ==> c.weather_lon@ == v@,
        e.weather_location_name matches Some(v) ==> c.weather_location_name@ == v@,
        e.google_calendar_id matches Some(v) ==> c.google_calendar_id@ == v@,
        e.google_client_id matches Some(v) ==> (v@.len() > 0 ==> c.google_client_id@ == v@) && (
        v@.len() == 0 ==> c.google_client_id@ == file_credentials(e.credentials).0),
        e.google_client_secret matches Some(v) ==> (v@.len() > 0 ==> c.google_client_secret@ == v@)
            && (v@.len() == 0 ==> c.google_client_secret@ == file_credentials(e.credentials).1),
        e.google_client_id is None ==> c.google_client_id@ == file_credentials(e.credentials).0,
        e.google_client_secret is None ==> c.google_client_secret@ == file_credentials(
            e.credentials,
        ).1,
{
    if e.rss_feeds is None {
        assert(c.rss_feeds@.map_values(|f: String| f@).len() == c.rss_feeds@.len());
        law_feed_list_single(Seq::empty());
        assert(trimmed(Seq::<char>::empty()).len() == 0) by {
            reveal_with_fuel(trimmed, 2);
        }
    }
}

pub fn parse_feed_list(s: &str) -> (feeds: Vec<String>)
    ensures
        feeds@.map_values(|f: String| f@) == feed_list_of(s@),
{
    let v = chars_of(s);
    let n = v.len();
    let mut feeds: Vec<String> = Vec::new();
    let mut start: usize = 0;
    assert(v@.subrange(0, n as int) =~= s@);
    loop
        invariant
            start <= n,
            n == v@.len(),
            v@ == s@,
            feed_list_of(s@) == feeds@.map_values(|f: String| f@) + feed_list_of(
                v@.subrange(start as int, n as int),
            ),
        decreases n - start,
    {
        let ghost rest = v@.subrange(start as int, n as int);
        let comma = find_char(&v, start, n, ',');
        proof {
            let sub = v@.subrange(start as int, n as int);
            assert(sub.take(comma - start) =~= v@.subrange(start as int, comma as int));
            if comma < n {
                assert(sub.skip(comma - start + 1) =~= v@.subrange(comma + 1, n as int));
            }
        }
        let piece = substring(s, start, comma);
        let t = trim(piece.as_str());
        let ghost before_feeds = feeds@.map_values(|f: String| f@);
        if t.unicode_len() > 0 {
            feeds.push(t);
            assert(feeds@.map_values(|f: String| f@) =~= before_feeds.push(t@));
        }
        if comma == n {
            assert(feed_list_of(rest) =~= if t@.len() > 0 { seq![t@] } else { Seq::empty() });
            assert(feed_list_of(s@) =~= feeds@.map_values(|f: String| f@));
            return feeds;
        }
        start = comma + 1;
        assert(feed_list_of(s@) =~= feeds@.map_values(|f: String| f@) + feed_list_of(
            v@.subrange(start as int, n as int),
        ));
    }
}

/// Coordinates of New York City, used when none are set.
pub open spec fn default_lat() -> Seq<char> {
    "40.71"@
}

pub open spec fn default_lon() -> Seq<char> {
    "-74.01"@
}

/// The calendar shown when none is set.
pub open spec fn default_calendar() -> Seq<char> {
    "primary"@
}

/// The configuration the settings give: defaults for what is not set, the
/// client credentials from the environment when set and not empty and from
/// the credentials file otherwise, and the feed list split at commas.
pub open spec fn config_of(e: EnvSettings, c: Config) -> bool {
    &&& c.weather_lat@ == text_or(e.weather_lat, default_lat())
    &&& c.weather_lon@ == text_or(e.weather_lon, default_lon())
    &&& c.weather_location_name@ == text_or(e.weather_location_name, Seq::empty())
    &&& c.google_client_id@ == match nonempty_of(e.google_client_id) {
        Some(s) => s@,
        None => file_credentials(e.credentials).0,
    }
    &&& c.google_client_secret@ == match nonempty_of(e.google_client_secret) {
        Some(s) => s@,
        None => file_credentials(e.credentials).1,
    }
    &&& c.google_calendar_id@ == text_or(e.google_calendar_id, default_calendar())
    &&& c.rss_feeds@.map_values(|f: String| f@) == feed_list_of(text_or(e.rss_feeds, Seq::empty()))
}

fn text_or_default(o: Option<String>, dflt: &str) -> (s: String)
    ensures
        s@ == text_or(o, dflt@),
{
    match o {
        Some(s) => s,
        None => String::from_str(dflt),
    }
}

impl Config {
    pub fn from_settings(e: EnvSettings) -> (c: Config)
        ensures
            config_of(e, c),
    {
        let ghost e0 = e;
        let (json_id, json_secret) = credentials_from_doc(&e.credentials);
        let feeds_text = text_or_default(e.rss_feeds, "");
        proof {
            reveal_strlit("");
            assert(""@ =~= Seq::<char>::empty());
        }
        let google_client_id = match nonempty(e.google_client_id) {
            Some(s) => s,
            None => json_id,
        };
        let google_client_secret = match nonempty(e.google_client_secret) {
            Some(s) => s,
            None => json_secret,
        };
        Config {
            weather_lat: text_or_default(e.weather_lat, "40.71"),
            weather_lon: text_or_default(e.weather_lon, "-74.01"),
            weather_location_name: text_or_default(e.weather_location_name, ""),
            google_client_id,
            google_client_secret,
            google_calendar_id: text_or_default(e.google_calendar_id, "primary"),
            rss_feeds: parse_feed_list(feeds_text.as_str()),
        }
    }
}

} // verus!
