//! Which screen a tab shows for the state of its data, and the text on it.

use vstd::prelude::*;

use crate::api::calendar::{missing_credentials_text, CalendarEvent};
use crate::api::rss::{opt_text, ItemView, RssItem};
use crate::api::timefmt::{
    date_reformatted, date_shifted, day_name_format, iso_date_format,
    reformat_date, shift_date,
};
use crate::app::TabState;
use crate::text::{decimal, decimal_string};
use crate::ui::{contains_text, is_setup_error};

verus! {

broadcast use vstd::string::group_string_axioms;

// ── RSS ─────────────────────────────────────────────────────────────────────

/// One row of the item list: the title, and the line under it.
pub struct RssRow {
    pub title: String,
    pub source_line: String,
    pub selected: bool,
}

/// The detail of the selected item.
pub struct RssDetail {
    pub title: String,
    pub source_line: String,
    pub published_line: Option<String>,
    pub link: Option<String>,
}

/// The list of items beside the detail of the selected one.
pub struct RssList {
    pub heading: String,
    pub rows: Vec<RssRow>,
    pub selected: usize,
    pub detail: RssDetail,
}

pub enum RssScreen {
    Loading,
    Failed(String),
    NoItems,
    Items(RssList),
    Prompt,
}

pub open spec fn text_or_empty(o: Option<Seq<char>>) -> Seq<char> {
    match o {
        Some(t) => t,
        None => Seq::empty(),
    }
}

/// The line under an item's title: its source and, where known, when it was
/// published.
pub open spec fn row_source_line(it: ItemView) -> Seq<char> {
    "  "@ + it.1 + " "@ + text_or_empty(it.2)
}

pub open spec fn rss_heading(n: nat) -> Seq<char> {
    " RSS ("@ + decimal(n) + " items) "@
}

pub open spec fn opt_prefixed(p: Seq<char>, o: Option<Seq<char>>) -> Option<Seq<char>> {
    match o {
        Some(t) => Some(p + t),
        None => None,
    }
}

impl View for RssRow {
    type V = (Seq<char>, Seq<char>, bool);

    open spec fn view(&self) -> (Seq<char>, Seq<char>, bool) {
        (self.title@, self.source_line@, self.selected)
    }
}

impl View for RssDetail {
    type V = (Seq<char>, Seq<char>, Option<Seq<char>>, Option<Seq<char>>);

    open spec fn view(&self) -> (Seq<char>, Seq<char>, Option<Seq<char>>, Option<Seq<char>>) {
        (self.title@, self.source_line@, opt_text(self.published_line), opt_text(self.link))
    }
}

/// The row shown for item `i` of `items` when `selected` is selected.
pub open spec fn rss_row_of(items: Seq<RssItem>, selected: nat, i: int) -> (Seq<char>, Seq<char>, bool) {
    (items[i]@.0, row_source_line(items[i]@), i == selected)
}

pub open spec fn rss_detail_of(it: ItemView) -> (Seq<char>, Seq<char>, Option<Seq<char>>, Option<Seq<char>>) {
    (it.0, "Source: "@ + it.1, opt_prefixed("Published: "@, it.2), it.3)
}

/// What the screen shows: a fetch in progress comes first, then an error,
/// then the items; before any fetch, a prompt to load.
pub open spec fn rss_screen_matches(state: TabState<Vec<RssItem>>, selected: usize, s: RssScreen) -> bool {
    if state.loading {
        s is Loading
    } else if state.error is Some {
        match s {
            RssScreen::Failed(m) => m@ == state.error->Some_0@,
            _ => false,
        }
    } else {
        match state.data {
            None => s is Prompt,
            Some(items) => if items@.len() == 0 {
                s is NoItems
            } else {
                match s {
                    RssScreen::Items(l) => {
                        &&& l.heading@ == rss_heading(items@.len())
                        &&& l.selected == selected
                        &&& l.rows@.len() == items@.len()
                        &&& forall|i: int|
                            0 <= i < items@.len() ==> #[trigger] l.rows@[i]@ == rss_row_of(
                                items@,
                                selected as nat,
                                i,
                            )
                        &&& l.detail@ == rss_detail_of(items@[selected as int]@)
                    },
                    _ => false,
                }
            },
        }
    }
}

/// Whether the screen would show the item list with `selected` past its end.
pub open spec fn selection_past_end(state: TabState<Vec<RssItem>>, selected: usize) -> bool {
    !state.loading && state.error is None && match state.data {
        Some(items) => items@.len() > 0 && selected >= items@.len(),
        None => false,
    }
}

/// A fetch in progress hides an error and old items; an error hides old
/// items; items are listed with the selected one detailed, under a heading
/// that counts them; a fetch that gave no items says so; before any fetch
/// the tab prompts to load.
pub proof fn law_rss_screen_order(state: TabState<Vec<RssItem>>, selected: usize, s: RssScreen)
    requires
        rss_screen_matches(state, selected, s),
        !selection_past_end(state, selected),
    ensures
        state.loading ==> s is Loading,
        state.error matches Some(e) ==> (!state.loading ==> (s matches RssScreen::Failed(m) && m@ == e@)),
        (!state.loading && state.error is None && state.data is None) ==> s is Prompt,
        state.data matches Some(items) ==> ((!state.loading && state.error is None) ==> (items@.len()
            == 0 <==> s is NoItems)),
        s matches RssScreen::Items(l) ==> ({
            let items = state.data->Some_0@;
            &&& !state.loading && state.error is None && items.len() > 0
            &&& l.heading@ == " RSS ("@ + decimal(items.len()) + " items) "@
            &&& l.rows@.len() == items.len()
            &&& forall|i: int| 0 <= i < items.len() ==> (#[trigger] l.rows@[i]).title@ == items[i].title@
                && l.rows@[i].selected == (i == selected)
            &&& l.detail.title@ == items[selected as int].title@
            &&& l.detail.source_line@ == "Source: "@ + items[selected as int].source@
            &&& opt_text(l.detail.link) == opt_text(items[selected as int].link)
        }),
{
    if let RssScreen::Items(l) = s {
        let items = state.data->Some_0@;
        assert forall|i: int| 0 <= i < items.len() implies (#[trigger] l.rows@[i]).title@ == items[i].title@
            && l.rows@[i].selected == (i == selected) by {
            assert(l.rows@[i]@ == rss_row_of(items, selected as nat, i));
        }
    }
}

/// Whether `selected` lies past the end of a list of items that the screen
/// would show; the screen cannot be chosen then.
pub fn rss_selection_out_of_range(state: &TabState<Vec<RssItem>>, selected: usize) -> (b: bool)
    ensures
        b == selection_past_end(*state, selected),
{
    !state.loading && state.error.is_none() && match &state.data {
        Some(items) => items.len() > 0 && selected >= items.len(),
        None => false,
    }
}

fn opt_string(o: &Option<String>) -> (r: Option<String>)
    ensures
        opt_text(r) == opt_text(*o),
{
    match o {
        Some(t) => Some(t.clone()),
        None => None,
    }
}

fn prefixed(p: &str, o: &Option<String>) -> (r: Option<String>)
    ensures
        opt_text(r) == opt_prefixed(p@, opt_text(*o)),
{
    match o {
        Some(t) => {
            let mut s = String::from_str(p);
            s.append(t.as_str());
            Some(s)
        },
        None => None,
    }
}

fn source_line(item: &RssItem) -> (s: String)
    ensures
        s@ == row_source_line(item@),
{
    let mut s = String::from_str("  ");
    s.append(item.source.as_str());
    s.append(" ");
    match &item.published {
        Some(p) => s.append(p.as_str()),
        None => {},
    }
    s
}

/// The screen of the RSS tab for the tab's state and the selected item.
pub fn rss_screen(state: &TabState<Vec<RssItem>>, selected: usize) -> (s: RssScreen)
    requires
        !selection_past_end(*state, selected),
    ensures
        rss_screen_matches(*state, selected, s),
{
    if state.loading {
        return RssScreen::Loading;
    }
    if let Some(err) = &state.error {
        return RssScreen::Failed(err.clone());
    }
    match &state.data {
        None => RssScreen::Prompt,
        Some(items) => {
            if items.len() == 0 {
                return RssScreen::NoItems;
            }
            let mut heading = String::from_str(" RSS (");
            let n = decimal_string(items.len() as u64);
            heading.append(n.as_str());
            heading.append(" items) ");
            let mut rows: Vec<RssRow> = Vec::new();
            let mut i: usize = 0;
            while i < items.len()
                invariant
                    i <= items@.len(),
                    rows@.len() == i,
                    forall|k: int|
                        0 <= k < i ==> #[trigger] rows@[k]@ == rss_row_of(
                            items@,
                            selected as nat,
                            k,
                        ),
                decreases items@.len() - i,
            {
                let item = &items[i];
                rows.push(
                    RssRow {
                        title: item.title.clone(),
                        source_line: source_line(item),
                        selected: i == selected,
                    },
                );
                i = i + 1;
            }
            let chosen = &items[selected];
            let mut source = String::from_str("Source: ");
            source.append(chosen.source.as_str());
            let detail = RssDetail {
                title: chosen.title.clone(),
                source_line: source,
                published_line: prefixed("Published: ", &chosen.published),
                link: opt_string(&chosen.link),
            };
            RssScreen::Items(RssList { heading, rows, selected, detail })
        },
    }
}

// ── Calendar ────────────────────────────────────────────────────────────────

pub enum CalendarScreen {
    /// Waiting for the user to authorize in the browser at this address.
    AwaitingAuth(String),
    Loading,
    /// The error, and whether it comes from missing credentials, so that the
    /// setup steps are shown.
    Failed { message: String, setup_help: bool },
    /// The day columns, under this heading.
    Days { heading: String },
    Prompt,
}

pub open spec fn calendar_heading(n: nat) -> Seq<char> {
    " Google Calendar  [d] toggle days  [j/k] scroll ("@ + decimal(n) + " events) "@
}

/// What the screen shows: an authorization in progress comes first, then a
/// fetch in progress, an error, the events; before any fetch, a prompt.
pub open spec fn calendar_screen_matches(
    auth_url: Option<String>,
    state: TabState<Vec<CalendarEvent>>,
    s: CalendarScreen,
) -> bool {
    if auth_url is Some {
        match s {
            CalendarScreen::AwaitingAuth(u) => u@ == auth_url->Some_0@,
            _ => false,
        }
    } else if state.loading {
        s is Loading
    } else if state.error is Some {
        match s {
            CalendarScreen::Failed { message, setup_help } => {
                &&& message@ == state.error->Some_0@
                &&& setup_help == contains_text(message@, "not set in .env"@)
            },
            _ => false,
        }
    } else {
        match state.data {
            Some(events) => match s {
                CalendarScreen::Days { heading } => heading@ == calendar_heading(events@.len()),
                _ => false,
            },
            None => s is Prompt,
        }
    }
}

/// A pending authorization comes before everything, then a fetch in
/// progress, then an error (with the setup steps exactly when the error says
/// that a credential is not set), then the events under a heading that counts
/// them; before any fetch the tab prompts to load.
pub proof fn law_calendar_screen_order(
    auth_url: Option<String>,
    state: TabState<Vec<CalendarEvent>>,
    s: CalendarScreen,
)
    requires
        calendar_screen_matches(auth_url, state, s),
    ensures
        auth_url matches Some(u) ==> (s matches CalendarScreen::AwaitingAuth(v) && v@ == u@),
        (auth_url is None && state.loading) ==> s is Loading,
        state.error matches Some(e) ==> ((auth_url is None && !state.loading) ==> (
        s matches CalendarScreen::Failed { message, setup_help } && message@ == e@ && setup_help
            == contains_text(e@, "not set in .env"@))),
        state.data matches Some(ev) ==> ((auth_url is None && !state.loading && state.error is None)
            ==> (s matches CalendarScreen::Days { heading } && heading@
            == " Google Calendar  [d] toggle days  [j/k] scroll ("@ + decimal(ev@.len()) + " events) "@)),
        (auth_url is None && !state.loading && state.error is None && state.data is None) ==> s is Prompt,
{
}

/// The error given when the client credentials are missing is one for which
/// the calendar shows the setup steps.
pub proof fn law_missing_credentials_show_setup()
    ensures
        contains_text(missing_credentials_text(), "not set in .env"@),
{
    reveal_strlit("GOOGLE_CLIENT_ID / GOOGLE_CLIENT_SECRET not set in .env");
    reveal_strlit("not set in .env");
    let t = missing_credentials_text();
    let p = "not set in .env"@;
    assert(t.subrange(40, 40 + p.len() as int) =~= p);
}

/// The screen of the calendar tab for a pending authorization and the tab's
/// state.
pub fn calendar_screen(auth_url: &Option<String>, state: &TabState<Vec<CalendarEvent>>) -> (s:
    CalendarScreen)
    ensures
        calendar_screen_matches(*auth_url, *state, s),
{
    if let Some(url) = auth_url {
        return CalendarScreen::AwaitingAuth(url.clone());
    }
    if state.loading {
        return CalendarScreen::Loading;
    }
    if let Some(err) = &state.error {
        return CalendarScreen::Failed { message: err.clone(), setup_help: is_setup_error(err) };
    }
    match &state.data {
        Some(events) => {
            let mut heading = String::from_str(" Google Calendar  [d] toggle days  [j/k] scroll (");
            let n = decimal_string(events.len() as u64);
            heading.append(n.as_str());
            heading.append(" events) ");
            CalendarScreen::Days { heading }
        },
        None => CalendarScreen::Prompt,
    }
}

/// One column of the calendar: the day, counted from today, its date as
/// "2025-01-13", and its title.
pub struct DayColumn {
    pub day: usize,
    pub date: String,
    pub title: String,
}

/// The date, written "2025-01-13", and the name, written "Mon Jan 13", of the
/// day `day` days after `today`, as `chrono` counts and names dates.
pub open spec fn day_of(today: Seq<char>, day: usize) -> Option<(Seq<char>, Seq<char>)> {
    match date_shifted(today, iso_date_format(), day as u64) {
        Some(d) => match date_reformatted(d, iso_date_format(), day_name_format()) {
            Some(name) => Some((d, name)),
            None => None,
        },
        None => None,
    }
}

/// The title of the column of day `day` whose name is `name`; today's says so.
pub open spec fn column_title_of(day: int, name: Seq<char>) -> Seq<char> {
    if day == 0 {
        " Today "@ + name + " "@
    } else {
        " "@ + name + " "@
    }
}

/// The label of day `day` in the day picker; today's says so.
pub open spec fn picker_label_of(day: int, name: Seq<char>) -> Seq<char> {
    if day == 0 {
        "Today  "@ + name
    } else {
        name
    }
}

fn date_and_name(today: &str, day: usize) -> (r: Option<(String, String)>)
    ensures
        match r {
            Some((d, n)) => day_of(today@, day) == Some((d@, n@)),
            None => day_of(today@, day) is None,
        },
{
    proof {
        reveal_strlit("%Y-%m-%d");
        reveal_strlit("%a %b %d");
    }
    match shift_date(today, "%Y-%m-%d", day as u64) {
        Some(date) => match reformat_date(date.as_str(), "%Y-%m-%d", "%a %b %d") {
            Some(name) => Some((date, name)),
            None => None,
        },
        None => None,
    }
}

pub fn column_title(day: usize, name: &str) -> (s: String)
    ensures
        s@ == column_title_of(day as int, name@),
{
    let mut s = if day == 0 {
        String::from_str(" Today ")
    } else {
        String::from_str(" ")
    };
    s.append(name);
    s.append(" ");
    s
}

pub fn picker_label(day: usize, name: &str) -> (s: String)
    ensures
        s@ == picker_label_of(day as int, name@),
{
    if day == 0 {
        let mut s = String::from_str("Today  ");
        s.append(name);
        s
    } else {
        String::from_str(name)
    }
}

/// The columns of the given days after `today` (written "2025-01-13"), in
/// order; `None` when a date cannot be counted or named.
pub fn day_columns(today: &str, days: &Vec<usize>) -> (r: Option<Vec<DayColumn>>)
    ensures
        r is Some <==> forall|k: int| 0 <= k < days@.len() ==> (#[trigger] day_of(today@, days@[k])) is Some,
        r matches Some(cols) ==> {
            &&& cols@.len() == days@.len()
            &&& forall|k: int|
                0 <= k < days@.len() ==> {
                    &&& #[trigger] cols@[k].day == days@[k]
                    &&& day_of(today@, days@[k]) matches Some((d, name))
                    &&& cols@[k].date@ == d
                    &&& cols@[k].title@ == column_title_of(days@[k] as int, name)
                }
        },
{
    let mut cols: Vec<DayColumn> = Vec::new();
    let mut i: usize = 0;
    while i < days.len()
        invariant
            i <= days@.len(),
            cols@.len() == i,
            forall|k: int| 0 <= k < i ==> (#[trigger] day_of(today@, days@[k])) is Some,
            forall|k: int|
                0 <= k < i ==> {
                    &&& #[trigger] cols@[k].day == days@[k]
                    &&& day_of(today@, days@[k]) matches Some((d, name))
                    &&& cols@[k].date@ == d
                    &&& cols@[k].title@ == column_title_of(days@[k] as int, name)
                },
        decreases days@.len() - i,
    {
        let day = days[i];
        match date_and_name(today, day) {
            Some((date, name)) => {
                let title = column_title(day, name.as_str());
                cols.push(DayColumn { day, date, title });
            },
            None => {
                return None;
            },
        }
        i = i + 1;
    }
    Some(cols)
}

/// The labels of the seven days from `today` (written "2025-01-13") in the
/// day picker; `None` when a date cannot be counted or named.
pub fn day_picker_labels(today: &str) -> (r: Option<Vec<String>>)
    ensures
        r is Some <==> forall|k: usize| k < 7 ==> (#[trigger] day_of(today@, k)) is Some,
        r matches Some(labels) ==> {
            &&& labels@.len() == 7
            &&& forall|k: usize|
                k < 7 ==> {
                    &&& #[trigger] day_of(today@, k) matches Some((d, name))
                    &&& labels@[k as int]@ == picker_label_of(k as int, name)
                }
        },
{
    let mut labels: Vec<String> = Vec::new();
    let mut i: usize = 0;
    while i < 7
        invariant
            i <= 7,
            labels@.len() == i,
            forall|k: usize|
                k < i ==> {
                    &&& #[trigger] day_of(today@, k) matches Some((d, name))
                    &&& labels@[k as int]@ == picker_label_of(k as int, name)
                },
        decreases 7 - i,
    {
        match date_and_name(today, i) {
            Some((_date, name)) => {
                labels.push(picker_label(i, name.as_str()));
            },
            None => {
                return None;
            },
        }
        i = i + 1;
    }
    Some(labels)
}

} // verus!
