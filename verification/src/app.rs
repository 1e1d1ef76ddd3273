use vstd::prelude::*;

use crate::api::calendar::CalendarEvent;
use crate::api::rss::RssItem;
use crate::api::weather::WeatherData;
use crate::api::ApiUpdate;
use crate::config::Config;
use crate::tiling::{
    lemma_replace_twice, retab, Tile,
    after_close, after_focus_next, after_focus_prev, after_set_tab, after_split, focused_of,
    valid_layout, LayoutView, SplitDir, TileLayout, law_close_removes_pane,
    law_focus_next_prev_inverse, law_set_tab_changes_focused_pane, law_split_adds_pane,
};

verus! {

/// The kinds of content a pane can show.
#[derive(Debug, Clone, Copy, PartialEq, Eq, Structural)]
pub enum Tab {
    Weather,
    Calendar,
    Rss,
}

/// Position of a tab in the tab bar.
pub open spec fn tab_index(t: Tab) -> nat {
    match t {
        Tab::Weather => 0,
        Tab::Calendar => 1,
        Tab::Rss => 2,
    }
}

/// The tab shown at position `i` of the tab bar, counting cyclically.
pub open spec fn tab_at(i: nat) -> Tab {
    if i % 3 == 0 {
        Tab::Weather
    } else if i % 3 == 1 {
        Tab::Calendar
    } else {
        Tab::Rss
    }
}

impl Tab {
    /// Every tab, in tab-bar order.
    pub const ALL: [Tab; 3] = [Tab::Weather, Tab::Calendar, Tab::Rss];

    pub fn label(self) -> (s: &'static str)
        ensures
            self == Tab::Weather ==> s@ == "Weather"@,
            self == Tab::Calendar ==> s@ == "Google Calendar"@,
            self == Tab::Rss ==> s@ == "RSS"@,
    {
        match self {
            Tab::Weather => "Weather",
            Tab::Calendar => "Google Calendar",
            Tab::Rss => "RSS",
        }
    }

    pub fn index(self) -> (i: usize)
        ensures
            i == tab_index(self),
    {
        match self {
            Tab::Weather => 0,
            Tab::Calendar => 1,
            Tab::Rss => 2,
        }
    }

    pub fn from_index(i: usize) -> (t: Tab)
        ensures
            t == tab_at(i as nat),
    {
        let all = Tab::ALL;
        all[i % 3]
    }
}

/// How long fetched data stays fresh: five minutes, in nanoseconds.
pub const REFRESH_INTERVAL_NS: u64 = 300_000_000_000u64;

/// What a tab knows about its data. Times are readings of a monotonic clock in
/// nanoseconds, taken by the caller.
#[derive(Debug)]
pub struct TabState<T> {
    pub data: Option<T>,
    pub error: Option<String>,
    pub loading: bool,
    pub last_refresh: Option<u64>,
}

/// A tab that has fetched nothing yet.
pub open spec fn empty_state<T>() -> TabState<T> {
    TabState { data: None, error: None, loading: false, last_refresh: None }
}

/// `n` switches, all on.
pub open spec fn all_on(n: nat) -> Seq<bool> {
    Seq::new(n, |i: int| true)
}

impl<T> Default for TabState<T> {
    fn default() -> (s: Self)
        ensures
            s == empty_state::<T>(),
    {
        TabState { data: None, error: None, loading: false, last_refresh: None }
    }
}

/// Data is due for a refresh when no fetch is running and it was never
/// fetched or was fetched more than the refresh interval ago.
pub open spec fn refresh_due<T>(s: TabState<T>, now: u64) -> bool {
    !s.loading && match s.last_refresh {
        None => true,
        Some(t) => now - t > REFRESH_INTERVAL_NS,
    }
}

/// The state once a fetch has started.
pub open spec fn loading_state<T>(s: TabState<T>) -> TabState<T> {
    TabState { loading: true, error: None, ..s }
}

impl<T> TabState<T> {
    pub fn needs_refresh(&self, now: u64) -> (b: bool)
        ensures
            b == refresh_due(*self, now),
    {
        !self.loading && match self.last_refresh {
            None => true,
            Some(t) => now > t && now - t > REFRESH_INTERVAL_NS,
        }
    }

    pub fn set_loading(&mut self)
        ensures
            *final(self) == loading_state(*old(self)),
    {
        self.loading = true;
        self.error = None;
    }
}

/// Number of upcoming days the calendar can show.
pub const CALENDAR_DAYS: usize = 7;

/// The state of the dashboard.
#[derive(Debug)]
pub struct App {
    /// Tile layout; a single pane to begin with.
    pub tiles: TileLayout,
    /// Set while waiting for the user to authorize in their browser.
    pub calendar_auth_url: Option<String>,
    pub show_help: bool,
    pub weather: TabState<WeatherData>,
    pub calendar: TabState<Vec<CalendarEvent>>,
    pub rss: TabState<Vec<RssItem>>,
    pub rss_selected: usize,
    /// Parallel to `config.rss_feeds`: which feeds are active.
    pub rss_feed_enabled: Vec<bool>,
    pub rss_feed_picker_open: bool,
    pub rss_feed_cursor: usize,
    /// Which of the upcoming days the calendar shows.
    pub calendar_days_enabled: [bool; 7],
    pub calendar_day_picker_open: bool,
    pub calendar_day_cursor: usize,
    pub calendar_scroll: u16,
    pub config: Config,
}

/// The state after `update` arrived at time `now`.
pub open spec fn updated_by(s: App, update: ApiUpdate, now: u64) -> App {
    match update {
        ApiUpdate::Weather(d) => App {
            weather: TabState { data: Some(d), loading: false, error: None, last_refresh: Some(now) },
            ..s
        },
        ApiUpdate::WeatherError(e) => App {
            weather: TabState { error: Some(e), loading: false, ..s.weather },
            ..s
        },
        ApiUpdate::Rss(items) => App {
            rss: TabState { data: Some(items), loading: false, error: None, last_refresh: Some(now) },
            rss_selected: 0,
            ..s
        },
        ApiUpdate::RssError(e) => App { rss: TabState { error: Some(e), loading: false, ..s.rss }, ..s },
        ApiUpdate::CalendarNeedAuth(url) => App { calendar_auth_url: Some(url), ..s },
        ApiUpdate::Calendar(events) => App {
            calendar: TabState {
                data: Some(events),
                loading: false,
                error: None,
                last_refresh: Some(now),
            },
            calendar_auth_url: None,
            calendar_scroll: 0,
            ..s
        },
        ApiUpdate::CalendarError(e) => App {
            calendar: TabState { error: Some(e), loading: false, ..s.calendar },
            calendar_auth_url: None,
            ..s
        },
    }
}

impl App {
    pub fn new(config: Config) -> (app: App)
        ensures
            app.tiles@ == TileLayout::new_view(Tab::Weather),
            app.calendar_auth_url is None,
            !app.show_help,
            app.weather == empty_state::<WeatherData>(),
            app.calendar == empty_state::<Vec<CalendarEvent>>(),
            app.rss == empty_state::<Vec<RssItem>>(),
            app.rss_selected == 0,
            app.rss_feed_enabled@ == all_on(config.rss_feeds@.len()),
            !app.rss_feed_picker_open,
            app.rss_feed_cursor == 0,
            app.calendar_days_enabled@ == all_on(7),
            !app.calendar_day_picker_open,
            app.calendar_day_cursor == 0,
            app.calendar_scroll == 0,
            app.config == config,
    {
        let n = config.rss_feeds.len();
        let mut enabled: Vec<bool> = Vec::new();
        let mut i: usize = 0;
        while i < n
            invariant
                i <= n,
                enabled@ == all_on(i as nat),
            decreases n - i,
        {
            enabled.push(true);
            i = i + 1;
            assert(enabled@ =~= all_on(i as nat));
        }
        let days = [true, true, true, true, true, true, true];
        assert(days@ =~= all_on(7));
        App {
            tiles: TileLayout::new(Tab::Weather),
            calendar_auth_url: None,
            show_help: false,
            weather: TabState::default(),
            calendar: TabState::default(),
            rss: TabState::default(),
            rss_selected: 0,
            rss_feed_enabled: enabled,
            rss_feed_picker_open: false,
            rss_feed_cursor: 0,
            calendar_days_enabled: days,
            calendar_day_picker_open: false,
            calendar_day_cursor: 0,
            calendar_scroll: 0,
            config,
        }
    }

    pub fn focused_tab(&self) -> (t: Tab)
        requires
            valid_layout(self.tiles@),
        ensures
            t == focused_of(self.tiles@),
    {
        self.tiles.focused_tab()
    }

    /// Takes in the result of a background fetch that arrived at time `now`.
    pub fn apply_update(&mut self, update: ApiUpdate, now: u64)
        ensures
            *final(self) == updated_by(*old(self), update, now),
    {
        match update {
            ApiUpdate::Weather(data) => {
                self.weather.data = Some(data);
                self.weather.loading = false;
                self.weather.error = None;
                self.weather.last_refresh = Some(now);
            },
            ApiUpdate::WeatherError(e) => {
                self.weather.error = Some(e);
                self.weather.loading = false;
            },
            ApiUpdate::Rss(items) => {
                self.rss.data = Some(items);
                self.rss.loading = false;
                self.rss.error = None;
                self.rss.last_refresh = Some(now);
                self.rss_selected = 0;
            },
            ApiUpdate::RssError(e) => {
                self.rss.error = Some(e);
                self.rss.loading = false;
            },
            ApiUpdate::CalendarNeedAuth(url) => {
                self.calendar_auth_url = Some(url);
            },
            ApiUpdate::Calendar(events) => {
                self.calendar.data = Some(events);
                self.calendar.loading = false;
                self.calendar.error = None;
                self.calendar.last_refresh = Some(now);
                self.calendar_auth_url = None;
                self.calendar_scroll = 0;
            },
            ApiUpdate::CalendarError(e) => {
                self.calendar.error = Some(e);
                self.calendar.loading = false;
                self.calendar_auth_url = None;
            },
        }
    }
}

/// A key press, as far as the dashboard tells keys apart.
#[derive(Debug, Clone, Copy, PartialEq, Eq, Structural)]
pub enum Key {
    Char(char),
    Enter,
    Esc,
    Up,
    Down,
    Left,
    Right,
    Tab,
    BackTab,
    Other,
}

/// What the caller has to do after a key press.
#[derive(Debug)]
pub enum KeyAction {
    Continue,
    Quit,
    /// Open this link in the browser.
    OpenLink(String),
}

/// Two actions agree when they are the same variant with the same text.
pub open spec fn same_action(a: KeyAction, b: KeyAction) -> bool {
    match (a, b) {
        (KeyAction::Continue, KeyAction::Continue) => true,
        (KeyAction::Quit, KeyAction::Quit) => true,
        (KeyAction::OpenLink(x), KeyAction::OpenLink(y)) => x@ == y@,
        _ => false,
    }
}

/// A change of the pane layout.
pub enum LayoutChange {
    Keep,
    Split(SplitDir),
    Close,
    FocusNext,
    FocusPrev,
    SetTab(Tab),
}

/// The layout after `c`.
pub open spec fn changed_layout(v: LayoutView, c: LayoutChange) -> LayoutView {
    match c {
        LayoutChange::Keep => v,
        LayoutChange::Split(d) => after_split(v, d),
        LayoutChange::Close => after_close(v),
        LayoutChange::FocusNext => if v.0.leaf_paths().contains(v.1) {
            after_focus_next(v)
        } else {
            v
        },
        LayoutChange::FocusPrev => if v.0.leaf_paths().contains(v.1) {
            after_focus_prev(v)
        } else {
            v
        },
        LayoutChange::SetTab(t) => after_set_tab(v, t),
    }
}

pub open spec fn is_down(k: Key) -> bool {
    k == Key::Down || k == Key::Char('j')
}

pub open spec fn is_up(k: Key) -> bool {
    k == Key::Up || k == Key::Char('k')
}

pub open spec fn is_toggle(k: Key) -> bool {
    k == Key::Char(' ') || k == Key::Enter
}

/// `sw` with switch `i` flipped, when there is such a switch.
pub open spec fn flipped(sw: Seq<bool>, i: int) -> Seq<bool> {
    if 0 <= i < sw.len() {
        sw.update(i, !sw[i])
    } else {
        sw
    }
}

/// The keys whose handling reads the focused pane when no picker is open.
pub open spec fn reads_focus(k: Key) -> bool {
    ||| k == Key::Left
    ||| k == Key::Right
    ||| k == Key::Char('|')
    ||| k == Key::Char('\\')
    ||| k == Key::Char('-')
    ||| k == Key::Char('r')
    ||| k == Key::Char('f')
    ||| k == Key::Char('d')
    ||| k == Key::Enter
    ||| is_down(k)
    ||| is_up(k)
}

/// Keys that only change the pane layout.
pub open spec fn is_layout_key(k: Key) -> bool {
    ||| k == Key::Char('|')
    ||| k == Key::Char('\\')
    ||| k == Key::Char('-')
    ||| k == Key::Char('x')
    ||| k == Key::Tab
    ||| k == Key::BackTab
    ||| k == Key::Char('1')
    ||| k == Key::Char('2')
    ||| k == Key::Char('3')
    ||| k == Key::Left
    ||| k == Key::Right
}

/// Keys that open a link or move within the focused pane.
pub open spec fn is_scroll_key(k: Key) -> bool {
    k == Key::Enter || is_down(k) || is_up(k)
}

/// Marks the data of `tab` as stale so that the next refresh fetches it again.
pub open spec fn force_refreshed(s: App, tab: Tab) -> App {
    match tab {
        Tab::Weather => App {
            weather: TabState { last_refresh: None, loading: false, ..s.weather },
            ..s
        },
        Tab::Rss => App { rss: TabState { last_refresh: None, loading: false, ..s.rss }, ..s },
        Tab::Calendar => App {
            calendar: TabState { last_refresh: None, loading: false, ..s.calendar },
            calendar_scroll: 0,
            ..s
        },
    }
}

/// Effect of a key while the day picker is open: the state (but for the day
/// switches) and the day switches.
pub open spec fn day_picker_effect(s: App, k: Key) -> (App, Seq<bool>) {
    let days = s.calendar_days_enabled@;
    let c = s.calendar_day_cursor;
    if k == Key::Char('d') || k == Key::Char('q') || k == Key::Esc {
        (App { calendar_day_picker_open: false, ..s }, days)
    } else if is_down(k) {
        (if c + 1 < 7 {
            App { calendar_day_cursor: (c + 1) as usize, ..s }
        } else {
            s
        }, days)
    } else if is_up(k) {
        (if c > 0 {
            App { calendar_day_cursor: (c - 1) as usize, ..s }
        } else {
            s
        }, days)
    } else if is_toggle(k) {
        (s, flipped(days, c as int))
    } else {
        (s, days)
    }
}

/// Effect of a key while the feed picker is open: the state (but for the feed
/// switches) and the feed switches.
pub open spec fn feed_picker_effect(s: App, k: Key) -> (App, Seq<bool>) {
    let on = s.rss_feed_enabled@;
    let c = s.rss_feed_cursor;
    let max = s.config.rss_feeds@.len();
    if k == Key::Char('f') || k == Key::Char('q') || k == Key::Esc {
        (App { rss_feed_picker_open: false, ..s }, on)
    } else if is_down(k) {
        (if max > 0 && c + 1 < max {
            App { rss_feed_cursor: (c + 1) as usize, ..s }
        } else {
            s
        }, on)
    } else if is_up(k) {
        (if c > 0 {
            App { rss_feed_cursor: (c - 1) as usize, ..s }
        } else {
            s
        }, on)
    } else if is_toggle(k) {
        if c < on.len() {
            (App { rss: TabState { last_refresh: None, loading: false, ..s.rss }, ..s }, flipped(on, c as int))
        } else {
            (s, on)
        }
    } else {
        (s, on)
    }
}

/// The link of the selected RSS item, if the RSS tab is focused and there is one.
pub open spec fn selected_link(s: App) -> Option<String> {
    if focused_of(s.tiles@) == Tab::Rss {
        match s.rss.data {
            Some(items) => if s.rss_selected < items@.len() {
                items@[s.rss_selected as int].link
            } else {
                None
            },
            None => None,
        }
    } else {
        None
    }
}

/// Effect of a key when no picker is open: the state (but for the layout), the
/// layout change and the action.
pub open spec fn main_effect(s: App, k: Key) -> (App, LayoutChange, KeyAction) {
    let keep = LayoutChange::Keep;
    let go = KeyAction::Continue;
    if k == Key::Char('q') || k == Key::Esc {
        if s.show_help {
            (App { show_help: false, ..s }, keep, go)
        } else {
            (s, keep, KeyAction::Quit)
        }
    } else if k == Key::Char('?') {
        (App { show_help: !s.show_help, ..s }, keep, go)
    } else if k == Key::Char('|') || k == Key::Char('\\') {
        (s, LayoutChange::Split(SplitDir::Horizontal), go)
    } else if k == Key::Char('-') {
        (s, LayoutChange::Split(SplitDir::Vertical), go)
    } else if k == Key::Char('x') {
        (s, LayoutChange::Close, go)
    } else if k == Key::Tab {
        (s, LayoutChange::FocusNext, go)
    } else if k == Key::BackTab {
        (s, LayoutChange::FocusPrev, go)
    } else if k == Key::Char('1') {
        (s, LayoutChange::SetTab(Tab::Weather), go)
    } else if k == Key::Char('2') {
        (s, LayoutChange::SetTab(Tab::Calendar), go)
    } else if k == Key::Char('3') {
        (s, LayoutChange::SetTab(Tab::Rss), go)
    } else if k == Key::Left {
        (s, LayoutChange::SetTab(tab_at(((tab_index(focused_of(s.tiles@)) + 2) % 3) as nat)), go)
    } else if k == Key::Right {
        (s, LayoutChange::SetTab(tab_at(tab_index(focused_of(s.tiles@)) + 1)), go)
    } else if k == Key::Char('r') {
        (force_refreshed(s, focused_of(s.tiles@)), keep, go)
    } else if k == Key::Char('f') && focused_of(s.tiles@) == Tab::Rss {
        (App { rss_feed_picker_open: true, rss_feed_cursor: 0, ..s }, keep, go)
    } else if k == Key::Char('d') && focused_of(s.tiles@) == Tab::Calendar {
        (App { calendar_day_picker_open: true, calendar_day_cursor: 0, ..s }, keep, go)
    } else if k == Key::Enter {
        (s, keep, match selected_link(s) {
            Some(l) => KeyAction::OpenLink(l),
            None => go,
        })
    } else if is_down(k) {
        let f = focused_of(s.tiles@);
        if f == Tab::Rss {
            let max = match s.rss.data {
                Some(items) => items@.len(),
                None => 0,
            };
            (if max > 0 && s.rss_selected + 1 < max {
                App { rss_selected: (s.rss_selected + 1) as usize, ..s }
            } else {
                s
            }, keep, go)
        } else if f == Tab::Calendar {
            (App {
                calendar_scroll: if s.calendar_scroll < u16::MAX {
                    (s.calendar_scroll + 1) as u16
                } else {
                    u16::MAX
                },
                ..s
            }, keep, go)
        } else {
            (s, keep, go)
        }
    } else if is_up(k) {
        let f = focused_of(s.tiles@);
        if f == Tab::Rss {
            (if s.rss_selected > 0 {
                App { rss_selected: (s.rss_selected - 1) as usize, ..s }
            } else {
                s
            }, keep, go)
        } else if f == Tab::Calendar {
            (App {
                calendar_scroll: if s.calendar_scroll > 0 {
                    (s.calendar_scroll - 1) as u16
                } else {
                    0
                },
                ..s
            }, keep, go)
        } else {
            (s, keep, go)
        }
    } else {
        (s, keep, go)
    }
}

/// Effect of a key on the whole dashboard: the state but for the layout and the
/// switch lists, the layout change, the day switches, the feed switches and the
/// action. An open picker takes every key.
pub open spec fn key_effect(s: App, k: Key) -> (App, LayoutChange, Seq<bool>, Seq<bool>, KeyAction) {
    let days = s.calendar_days_enabled@;
    let on = s.rss_feed_enabled@;
    if s.calendar_day_picker_open {
        let (t, d) = day_picker_effect(s, k);
        (t, LayoutChange::Keep, d, on, KeyAction::Continue)
    } else if s.rss_feed_picker_open {
        let (t, f) = feed_picker_effect(s, k);
        (t, LayoutChange::Keep, days, f, KeyAction::Continue)
    } else {
        let (t, c, a) = main_effect(s, k);
        (t, c, days, on, a)
    }
}

/// Number of RSS items loaded.
pub open spec fn rss_count(s: App) -> nat {
    match s.rss.data {
        Some(items) => items@.len(),
        None => 0,
    }
}

/// The key can be handled without a failure: a key that reads the focused
/// pane needs the focus on a pane, the day picker's toggle needs its cursor on
/// a day, and a move down needs the cursor below the largest index.
pub open spec fn key_handled_on(s: App, k: Key) -> bool {
    if s.calendar_day_picker_open {
        &&& is_down(k) ==> s.calendar_day_cursor < usize::MAX
        &&& is_toggle(k) ==> s.calendar_day_cursor < 7
    } else if s.rss_feed_picker_open {
        is_down(k) && s.config.rss_feeds@.len() > 0 ==> s.rss_feed_cursor < usize::MAX
    } else {
        &&& reads_focus(k) ==> valid_layout(s.tiles@)
        &&& (is_down(k) && valid_layout(s.tiles@) && focused_of(s.tiles@) == Tab::Rss && rss_count(s)
            > 0) ==> s.rss_selected < usize::MAX
    }
}

impl App {
    /// Whether `handle_key` may be called with `key`: a key that reads the
    /// focused pane needs the focus to be on a pane.
    pub fn key_can_be_handled(&self, key: Key) -> (b: bool)
        ensures
            b == key_handled_on(*self, key),
    {
        let down = match key {
            Key::Down | Key::Char('j') => true,
            _ => false,
        };
        if self.calendar_day_picker_open {
            let toggle = match key {
                Key::Char(' ') | Key::Enter => true,
                _ => false,
            };
            return (!down || self.calendar_day_cursor < usize::MAX) && (!toggle
                || self.calendar_day_cursor < CALENDAR_DAYS);
        }
        if self.rss_feed_picker_open {
            return !down || self.config.rss_feeds.len() == 0 || self.rss_feed_cursor < usize::MAX;
        }
        let reads = match key {
            Key::Left | Key::Right | Key::Enter | Key::Down | Key::Up => true,
            Key::Char('|') | Key::Char('\\') | Key::Char('-') | Key::Char('r') => true,
            Key::Char('f') | Key::Char('d') | Key::Char('j') | Key::Char('k') => true,
            _ => false,
        };
        if !self.tiles.has_valid_focus() {
            return !reads;
        }
        if down && self.tiles.focused_tab() == Tab::Rss {
            let count = match &self.rss.data {
                Some(items) => items.len(),
                None => 0,
            };
            return count == 0 || self.rss_selected < usize::MAX;
        }
        true
    }

    /// Handles a key press; the result says whether to quit or open a link.
    pub fn handle_key(&mut self, key: Key) -> (action: KeyAction)
        requires
            key_handled_on(*old(self), key),
        ensures
            final(self).tiles@ == changed_layout(old(self).tiles@, key_effect(*old(self), key).1),
            final(self).calendar_days_enabled@ == key_effect(*old(self), key).2,
            final(self).rss_feed_enabled@ == key_effect(*old(self), key).3,
            same_action(action, key_effect(*old(self), key).4),
            (App {
                tiles: final(self).tiles,
                calendar_days_enabled: final(self).calendar_days_enabled,
                rss_feed_enabled: final(self).rss_feed_enabled,
                ..key_effect(*old(self), key).0
            }) == *final(self),
    {
        if self.calendar_day_picker_open {
            self.day_picker_key(key);
            KeyAction::Continue
        } else if self.rss_feed_picker_open {
            self.feed_picker_key(key);
            KeyAction::Continue
        } else {
            self.main_key(key)
        }
    }

    fn day_picker_key(&mut self, key: Key)
        ensures
            final(self).calendar_days_enabled@ == day_picker_effect(*old(self), key).1,
            (App {
                calendar_days_enabled: final(self).calendar_days_enabled,
                ..day_picker_effect(*old(self), key).0
            }) == *final(self),
    {
        match key {
            Key::Char('d') | Key::Char('q') | Key::Esc => {
                self.calendar_day_picker_open = false;
            },
            Key::Down | Key::Char('j') => {
                if self.calendar_day_cursor < 6 {
                    self.calendar_day_cursor = self.calendar_day_cursor + 1;
                }
            },
            Key::Up | Key::Char('k') => {
                if self.calendar_day_cursor > 0 {
                    self.calendar_day_cursor = self.calendar_day_cursor - 1;
                }
            },
            Key::Char(' ') | Key::Enter => {
                let idx = self.calendar_day_cursor;
                if idx < CALENDAR_DAYS {
                    let v = !self.calendar_days_enabled[idx];
                    self.calendar_days_enabled[idx] = v;
                    assert(self.calendar_days_enabled@ =~= flipped(
                        old(self).calendar_days_enabled@,
                        idx as int,
                    ));
                }
            },
            _ => {},
        }
    }

    fn feed_picker_key(&mut self, key: Key)
        ensures
            final(self).rss_feed_enabled@ == feed_picker_effect(*old(self), key).1,
            (App {
                rss_feed_enabled: final(self).rss_feed_enabled,
                ..feed_picker_effect(*old(self), key).0
            }) == *final(self),
    {
        match key {
            Key::Char('f') | Key::Char('q') | Key::Esc => {
                self.rss_feed_picker_open = false;
            },
            Key::Down | Key::Char('j') => {
                let max = self.config.rss_feeds.len();
                if max > 0 && self.rss_feed_cursor < max - 1 {
                    self.rss_feed_cursor = self.rss_feed_cursor + 1;
                }
            },
            Key::Up | Key::Char('k') => {
                if self.rss_feed_cursor > 0 {
                    self.rss_feed_cursor = self.rss_feed_cursor - 1;
                }
            },
            Key::Char(' ') | Key::Enter => {
                let idx = self.rss_feed_cursor;
                if idx < self.rss_feed_enabled.len() {
                    let v = !self.rss_feed_enabled[idx];
                    self.rss_feed_enabled.set(idx, v);
                    self.rss.last_refresh = None;
                    self.rss.loading = false;
                }
            },
            _ => {},
        }
    }

    fn main_key(&mut self, key: Key) -> (action: KeyAction)
        requires
            reads_focus(key) ==> valid_layout(old(self).tiles@),
        ensures
            final(self).tiles@ == changed_layout(old(self).tiles@, main_effect(*old(self), key).1),
            same_action(action, main_effect(*old(self), key).2),
            (App { tiles: final(self).tiles, ..main_effect(*old(self), key).0 }) == *final(self),
    {
        if Self::changes_layout(key) {
            self.layout_key(key);
            KeyAction::Continue
        } else if Self::moves_within_pane(key) {
            self.scroll_key(key)
        } else {
            self.mode_key(key)
        }
    }

    fn changes_layout(key: Key) -> (b: bool)
        ensures
            b == is_layout_key(key),
    {
        match key {
            Key::Char('|') | Key::Char('\\') | Key::Char('-') | Key::Char('x') => true,
            Key::Char('1') | Key::Char('2') | Key::Char('3') => true,
            Key::Tab | Key::BackTab | Key::Left | Key::Right => true,
            _ => false,
        }
    }

    fn moves_within_pane(key: Key) -> (b: bool)
        ensures
            b == is_scroll_key(key),
    {
        match key {
            Key::Enter | Key::Down | Key::Up | Key::Char('j') | Key::Char('k') => true,
            _ => false,
        }
    }

    fn layout_key(&mut self, key: Key)
        requires
            is_layout_key(key),
            reads_focus(key) ==> valid_layout(old(self).tiles@),
        ensures
            final(self).tiles@ == changed_layout(old(self).tiles@, main_effect(*old(self), key).1),
            main_effect(*old(self), key).2 == KeyAction::Continue,
            (App { tiles: final(self).tiles, ..main_effect(*old(self), key).0 }) == *final(self),
    {
        match key {
            Key::Char('|') | Key::Char('\\') => {
                self.tiles.split(SplitDir::Horizontal);
            },
            Key::Char('-') => {
                self.tiles.split(SplitDir::Vertical);
            },
            Key::Char('x') => {
                self.tiles.close_focused();
            },
            Key::Tab => {
                self.tiles.focus_next();
            },
            Key::BackTab => {
                self.tiles.focus_prev();
            },
            Key::Char('1') => {
                self.tiles.set_focused_tab(Tab::Weather);
            },
            Key::Char('2') => {
                self.tiles.set_focused_tab(Tab::Calendar);
            },
            Key::Char('3') => {
                self.tiles.set_focused_tab(Tab::Rss);
            },
            Key::Left => {
                let idx = self.focused_tab().index();
                let n: usize = 3;
                self.tiles.set_focused_tab(Tab::from_index((idx + n - 1) % n));
            },
            _ => {
                let idx = self.focused_tab().index();
                self.tiles.set_focused_tab(Tab::from_index(idx + 1));
            },
        }
    }

    fn scroll_key(&mut self, key: Key) -> (action: KeyAction)
        requires
            is_scroll_key(key),
            valid_layout(old(self).tiles@),
        ensures
            main_effect(*old(self), key).1 == LayoutChange::Keep,
            same_action(action, main_effect(*old(self), key).2),
            main_effect(*old(self), key).0 == *final(self),
    {
        match key {
            Key::Enter => {
                if self.focused_tab() == Tab::Rss {
                    match &self.rss.data {
                        Some(items) => {
                            if self.rss_selected < items.len() {
                                match &items[self.rss_selected].link {
                                    Some(link) => {
                                        return KeyAction::OpenLink(link.clone());
                                    },
                                    None => {},
                                }
                            }
                        },
                        None => {},
                    }
                }
            },
            Key::Down | Key::Char('j') => {
                match self.focused_tab() {
                    Tab::Rss => {
                        let max = match &self.rss.data {
                            Some(items) => items.len(),
                            None => 0,
                        };
                        if max > 0 && self.rss_selected < max - 1 {
                            self.rss_selected = self.rss_selected + 1;
                        }
                    },
                    Tab::Calendar => {
                        self.calendar_scroll = self.calendar_scroll.saturating_add(1);
                    },
                    _ => {},
                }
            },
            _ => {
                match self.focused_tab() {
                    Tab::Rss => {
                        if self.rss_selected > 0 {
                            self.rss_selected = self.rss_selected - 1;
                        }
                    },
                    Tab::Calendar => {
                        self.calendar_scroll = self.calendar_scroll.saturating_sub(1);
                    },
                    _ => {},
                }
            },
        }
        KeyAction::Continue
    }

    fn mode_key(&mut self, key: Key) -> (action: KeyAction)
        requires
            !is_layout_key(key),
            !is_scroll_key(key),
            reads_focus(key) ==> valid_layout(old(self).tiles@),
        ensures
            main_effect(*old(self), key).1 == LayoutChange::Keep,
            same_action(action, main_effect(*old(self), key).2),
            main_effect(*old(self), key).0 == *final(self),
    {
        match key {
            Key::Char('q') | Key::Esc => {
                if self.show_help {
                    self.show_help = false;
                } else {
                    return KeyAction::Quit;
                }
            },
            Key::Char('?') => {
                self.show_help = !self.show_help;
            },
            Key::Char('r') => {
                self.force_refresh_focused();
            },
            Key::Char('f') => {
                if self.focused_tab() == Tab::Rss {
                    self.rss_feed_picker_open = true;
                    self.rss_feed_cursor = 0;
                }
            },
            Key::Char('d') => {
                if self.focused_tab() == Tab::Calendar {
                    self.calendar_day_picker_open = true;
                    self.calendar_day_cursor = 0;
                }
            },
            _ => {},
        }
        KeyAction::Continue
    }

    /// Marks the focused pane's data as stale so that the next refresh fetches it.
    fn force_refresh_focused(&mut self)
        requires
            valid_layout(old(self).tiles@),
        ensures
            *final(self) == force_refreshed(*old(self), focused_of(old(self).tiles@)),
    {
        match self.focused_tab() {
            Tab::Weather => {
                self.weather.last_refresh = None;
                self.weather.loading = false;
            },
            Tab::Rss => {
                self.rss.last_refresh = None;
                self.rss.loading = false;
            },
            Tab::Calendar => {
                self.calendar.last_refresh = None;
                self.calendar.loading = false;
                self.calendar_scroll = 0;
            },
        }
    }
}

/// A fetch that the caller has to start in the background.
#[derive(Debug)]
pub enum RefreshJob {
    Weather { lat: String, lon: String, location_name: String },
    Rss { feeds: Vec<String> },
    Calendar { client_id: String, client_secret: String, calendar_id: String },
}

/// Texts as plain sequences.
pub open spec fn texts(v: Seq<String>) -> Seq<Seq<char>> {
    v.map_values(|x: String| x@)
}

/// The urls among the first `k` whose switch is on, in order.
pub open spec fn enabled_prefix(urls: Seq<Seq<char>>, on: Seq<bool>, k: nat) -> Seq<Seq<char>>
    decreases k,
{
    if k == 0 {
        Seq::empty()
    } else {
        let rest = enabled_prefix(urls, on, (k - 1) as nat);
        if on[k - 1] {
            rest.push(urls[k - 1])
        } else {
            rest
        }
    }
}

/// The feeds whose switch is on; feeds without a switch count as off.
pub open spec fn enabled_feeds(urls: Seq<Seq<char>>, on: Seq<bool>) -> Seq<Seq<char>> {
    enabled_prefix(urls, on, if urls.len() < on.len() { urls.len() } else { on.len() })
}

/// Whether `tab`'s data is due for a refresh at `now`.
pub open spec fn tab_due(s: App, tab: Tab, now: u64) -> bool {
    match tab {
        Tab::Weather => refresh_due(s.weather, now),
        Tab::Calendar => refresh_due(s.calendar, now),
        Tab::Rss => refresh_due(s.rss, now),
    }
}

/// The state once a fetch for `tab` has started.
pub open spec fn tab_loading(s: App, tab: Tab) -> App {
    match tab {
        Tab::Weather => App { weather: loading_state(s.weather), ..s },
        Tab::Calendar => App { calendar: loading_state(s.calendar), ..s },
        Tab::Rss => App { rss: loading_state(s.rss), ..s },
    }
}

/// `j` is the fetch for `tab` made from the settings of `s`.
pub open spec fn job_for(j: RefreshJob, s: App, tab: Tab) -> bool {
    match j {
        RefreshJob::Weather { lat, lon, location_name } => tab == Tab::Weather && lat@
            == s.config.weather_lat@ && lon@ == s.config.weather_lon@ && location_name@
            == s.config.weather_location_name@,
        RefreshJob::Rss { feeds } => tab == Tab::Rss && texts(feeds@) == enabled_feeds(
            texts(s.config.rss_feeds@),
            s.rss_feed_enabled@,
        ),
        RefreshJob::Calendar { client_id, client_secret, calendar_id } => tab == Tab::Calendar
            && client_id@ == s.config.google_client_id@ && client_secret@
            == s.config.google_client_secret@ && calendar_id@ == s.config.google_calendar_id@,
    }
}

/// Going through `tabs` in order, each tab that is due starts loading; the
/// result is the state and the tabs whose fetch started, in order.
pub open spec fn plan_refresh(s: App, tabs: Seq<Tab>, now: u64) -> (App, Seq<Tab>)
    decreases tabs.len(),
{
    if tabs.len() == 0 {
        (s, Seq::empty())
    } else {
        let (s1, started) = plan_refresh(s, tabs.drop_last(), now);
        let t = tabs.last();
        if tab_due(s1, t, now) {
            (tab_loading(s1, t), started.push(t))
        } else {
            (s1, started)
        }
    }
}

impl App {
    /// The configured feeds whose switch is on.
    pub fn enabled_feeds(&self) -> (feeds: Vec<String>)
        ensures
            texts(feeds@) == enabled_feeds(texts(self.config.rss_feeds@), self.rss_feed_enabled@),
    {
        let urls = &self.config.rss_feeds;
        let on = &self.rss_feed_enabled;
        let n = if urls.len() < on.len() {
            urls.len()
        } else {
            on.len()
        };
        let mut feeds: Vec<String> = Vec::new();
        let mut i: usize = 0;
        while i < n
            invariant
                i <= n,
                n <= urls.len(),
                n <= on.len(),
                texts(feeds@) == enabled_prefix(texts(urls@), on@, i as nat),
            decreases n - i,
        {
            if on[i] {
                feeds.push(urls[i].clone());
            }
            i = i + 1;
            assert(texts(feeds@) =~= enabled_prefix(texts(urls@), on@, i as nat));
        }
        feeds
    }

    /// Starts loading `tab`'s data if it is due at `now`; the result is the
    /// fetch to run.
    pub fn refresh_tab(&mut self, tab: Tab, now: u64) -> (job: Option<RefreshJob>)
        ensures
            tab_due(*old(self), tab, now) ==> (*final(self) == tab_loading(*old(self), tab) && (
            job matches Some(j) && job_for(j, *old(self), tab))),
            !tab_due(*old(self), tab, now) ==> *final(self) == *old(self) && job is None,
    {
        match tab {
            Tab::Weather => {
                if self.weather.needs_refresh(now) {
                    self.weather.set_loading();
                    Some(
                        RefreshJob::Weather {
                            lat: self.config.weather_lat.clone(),
                            lon: self.config.weather_lon.clone(),
                            location_name: self.config.weather_location_name.clone(),
                        },
                    )
                } else {
                    None
                }
            },
            Tab::Rss => {
                if self.rss.needs_refresh(now) {
                    self.rss.set_loading();
                    Some(RefreshJob::Rss { feeds: self.enabled_feeds() })
                } else {
                    None
                }
            },
            Tab::Calendar => {
                if self.calendar.needs_refresh(now) {
                    self.calendar.set_loading();
                    Some(
                        RefreshJob::Calendar {
                            client_id: self.config.google_client_id.clone(),
                            client_secret: self.config.google_client_secret.clone(),
                            calendar_id: self.config.google_calendar_id.clone(),
                        },
                    )
                } else {
                    None
                }
            },
        }
    }

    /// Starts loading the data of every visible pane that is due at `now`; the
    /// result is the fetches to run, one per tab.
    pub fn refresh_visible(&mut self, now: u64) -> (jobs: Vec<RefreshJob>)
        ensures
            *final(self) == plan_refresh(*old(self), old(self).tiles@.0.leaves(), now).0,
            jobs@.len() == plan_refresh(*old(self), old(self).tiles@.0.leaves(), now).1.len(),
            forall|i: int|
                0 <= i < jobs@.len() ==> job_for(
                    #[trigger] jobs@[i],
                    *old(self),
                    plan_refresh(*old(self), old(self).tiles@.0.leaves(), now).1[i],
                ),
    {
        let tabs = self.tiles.visible_tabs();
        let ghost s0 = *self;
        let mut jobs: Vec<RefreshJob> = Vec::new();
        let mut i: usize = 0;
        while i < tabs.len()
            invariant
                i <= tabs.len(),
                tabs@ == s0.tiles@.0.leaves(),
                *self == plan_refresh(s0, tabs@.take(i as int), now).0,
                jobs@.len() == plan_refresh(s0, tabs@.take(i as int), now).1.len(),
                forall|k: int|
                    0 <= k < jobs@.len() ==> job_for(
                        #[trigger] jobs@[k],
                        s0,
                        plan_refresh(s0, tabs@.take(i as int), now).1[k],
                    ),
                self.config == s0.config,
                self.rss_feed_enabled == s0.rss_feed_enabled,
            decreases tabs.len() - i,
        {
            let ghost before = *self;
            assert(tabs@.take(i + 1).drop_last() =~= tabs@.take(i as int));
            let job = self.refresh_tab(tabs[i], now);
            match job {
                Some(j) => {
                    jobs.push(j);
                },
                None => {},
            }
            i = i + 1;
        }
        assert(tabs@.take(tabs@.len() as int) =~= tabs@);
        jobs
    }
}

// ── laws ────────────────────────────────────────────────────────────────────

/// A tab's position in the tab bar leads back to the tab, and moving right
/// three times comes back to the same tab.
pub proof fn law_tab_index_round_trip(t: Tab)
    ensures
        tab_at(tab_index(t)) == t,
        tab_at(tab_index(t) + 3) == t,
{
}

/// While a picker is open it takes every key: the layout stays and nothing
/// quits or opens.
pub proof fn law_picker_captures_keys(s: App, k: Key)
    requires
        s.calendar_day_picker_open || s.rss_feed_picker_open,
    ensures
        key_effect(s, k).1 == LayoutChange::Keep,
        key_effect(s, k).4 == KeyAction::Continue,
{
}

/// `q` and `Esc` close an open picker (the day picker first) and do not quit.
pub proof fn law_esc_closes_picker(s: App, k: Key)
    requires
        s.calendar_day_picker_open || s.rss_feed_picker_open,
        k == Key::Esc || k == Key::Char('q'),
    ensures
        s.calendar_day_picker_open ==> !key_effect(s, k).0.calendar_day_picker_open,
        !s.calendar_day_picker_open ==> !key_effect(s, k).0.rss_feed_picker_open,
        !(key_effect(s, k).4 is Quit),
{
}

/// No key takes the focus off the panes: where it is on a pane, it is on one
/// after any key, so the focused pane can always be drawn.
pub proof fn law_keys_keep_focus_on_a_pane(s: App, k: Key)
    requires
        valid_layout(s.tiles@),
    ensures
        valid_layout(changed_layout(s.tiles@, key_effect(s, k).1)),
{
    let v = s.tiles@;
    match key_effect(s, k).1 {
        LayoutChange::Split(d) => law_split_adds_pane(v, d),
        LayoutChange::Close => if v.1.len() > 0 {
            law_close_removes_pane(v);
        },
        LayoutChange::FocusNext | LayoutChange::FocusPrev => law_focus_next_prev_inverse(v),
        LayoutChange::SetTab(t) => law_set_tab_changes_focused_pane(v, t),
        LayoutChange::Keep => {},
    }
}

/// Switching a feed on or off in the feed picker makes the RSS data due for a
/// refresh, so the next refresh fetches with the new selection.
pub proof fn law_feed_toggle_refetches(s: App, k: Key, now: u64)
    requires
        !s.calendar_day_picker_open,
        s.rss_feed_picker_open,
        is_toggle(k),
        s.rss_feed_cursor < s.rss_feed_enabled@.len(),
    ensures
        tab_due(key_effect(s, k).0, Tab::Rss, now),
        key_effect(s, k).3 == s.rss_feed_enabled@.update(
            s.rss_feed_cursor as int,
            !s.rss_feed_enabled@[s.rss_feed_cursor as int],
        ),
{
}

/// The dashboard quits exactly on `q` or `Esc` with no picker and no help open.
pub proof fn law_quit_only_from_main_view(s: App, k: Key)
    ensures
        (key_effect(s, k).4 is Quit) <==> (!s.calendar_day_picker_open && !s.rss_feed_picker_open
            && (k == Key::Char('q') || k == Key::Esc) && !s.show_help),
{
}

/// `?` toggles the help overlay: pressed twice it leaves the state as it was.
pub proof fn law_help_toggle_twice(s: App)
    requires
        !s.calendar_day_picker_open,
        !s.rss_feed_picker_open,
    ensures
        key_effect(key_effect(s, Key::Char('?')).0, Key::Char('?')).0 == s,
        key_effect(s, Key::Char('?')).0.show_help == !s.show_help,
{
}

/// Toggling the same switch twice restores the switches.
pub proof fn law_switch_toggle_twice(sw: Seq<bool>, i: int)
    ensures
        flipped(flipped(sw, i), i) == sw,
{
    assert(flipped(flipped(sw, i), i) =~= sw);
}

/// Cycling the focused pane's tab left and then right gives back the layout.
pub proof fn law_tab_left_then_right(v: LayoutView)
    requires
        valid_layout(v),
    ensures
        ({
            let f = focused_of(v);
            let l = tab_at(((tab_index(f) + 2) % 3) as nat);
            let w = after_set_tab(v, l);
            valid_layout(w) && focused_of(w) == l && after_set_tab(w, tab_at(tab_index(l) + 1)) == v
        }),
{
    let f = focused_of(v);
    let l = tab_at(((tab_index(f) + 2) % 3) as nat);
    crate::tiling::law_set_tab_changes_focused_pane(v, l);
    let r = tab_at(tab_index(l) + 1);
    assert(r == f);
    let n = v.0.node_at(v.1)->0;
    assert(n == Tile::Leaf(f));
    assert(retab(f)(retab(l)(n)) == n);
    lemma_replace_twice(v.0, v.1, retab(l), retab(f));
}

/// Fresh data stays fresh for the refresh interval: right after a successful
/// fetch at `fetched`, a tab is due again only once more than the interval has passed.
pub proof fn law_fresh_for_interval(s: App, d: WeatherData, fetched: u64, now: u64)
    requires
        fetched <= now,
    ensures
        refresh_due(updated_by(s, ApiUpdate::Weather(d), fetched).weather, now) <==> now - fetched
            > REFRESH_INTERVAL_NS,
{
}

/// Pressing `r` makes the focused tab due for a refresh, whenever it is.
pub proof fn law_force_refresh_makes_due(s: App, now: u64)
    requires
        valid_layout(s.tiles@),
    ensures
        tab_due(force_refreshed(s, focused_of(s.tiles@)), focused_of(s.tiles@), now),
{
}

/// Starting a fetch changes only that tab's state.
proof fn lemma_loading_keeps_others(s: App, t: Tab, u: Tab, now: u64)
    ensures
        t != u ==> tab_due(tab_loading(s, t), u, now) == tab_due(s, u, now),
        !tab_due(tab_loading(s, t), t, now),
{
}

/// A refresh starts one fetch per tab that is visible and due, and no other:
/// a tab shown in several panes is fetched once.
pub proof fn law_refresh_once_per_tab(s: App, tabs: Seq<Tab>, now: u64)
    ensures
        plan_refresh(s, tabs, now).1.no_duplicates(),
        forall|t: Tab|
            #[trigger] plan_refresh(s, tabs, now).1.contains(t) <==> (tabs.contains(t) && tab_due(
                s,
                t,
                now,
            )),
        forall|t: Tab|
            #[trigger] tab_due(plan_refresh(s, tabs, now).0, t, now) <==> (!tabs.contains(t)
                && tab_due(s, t, now)),
    decreases tabs.len(),
{
    if tabs.len() > 0 {
        let prev = tabs.drop_last();
        law_refresh_once_per_tab(s, prev, now);
        let (s1, started) = plan_refresh(s, prev, now);
        let t = tabs.last();
        assert(tabs =~= prev.push(t));
        assert forall|u: Tab| tabs.contains(u) <==> (prev.contains(u) || u == t) by {
            if prev.contains(u) {
                let k = choose|k: int| 0 <= k < prev.len() && prev[k] == u;
                assert(tabs[k] == u);
            }
            if u == t {
                assert(tabs[tabs.len() - 1] == u);
            }
            if tabs.contains(u) && u != t {
                let k = choose|k: int| 0 <= k < tabs.len() && tabs[k] == u;
                assert(prev[k] == u);
            }
        }
        if tab_due(s1, t, now) {
            assert forall|u: Tab| u != t implies tab_due(tab_loading(s1, t), u, now) == tab_due(s1, u, now) by {
                lemma_loading_keeps_others(s1, t, u, now);
            }
            lemma_loading_keeps_others(s1, t, t, now);
            assert(!started.contains(t));
            assert forall|u: Tab| #[trigger] tab_due(plan_refresh(s, tabs, now).0, u, now) <==> (
            !tabs.contains(u) && tab_due(s, u, now)) by {
                lemma_loading_keeps_others(s1, t, u, now);
            }
            let st = started.push(t);
            assert forall|u: Tab| st.contains(u) <==> (started.contains(u) || u == t) by {
                if started.contains(u) {
                    let k = choose|k: int| 0 <= k < started.len() && started[k] == u;
                    assert(st[k] == u);
                }
                if u == t {
                    assert(st[st.len() - 1] == u);
                }
                if st.contains(u) && u != t {
                    let k = choose|k: int| 0 <= k < st.len() && st[k] == u;
                    assert(started[k] == u);
                }
            }
        } else {
            assert forall|u: Tab| #[trigger] tab_due(plan_refresh(s, tabs, now).0, u, now) <==> (
            !tabs.contains(u) && tab_due(s, u, now)) by {
                if u == t {
                    assert(tab_due(s1, u, now) == (!prev.contains(u) && tab_due(s, u, now)));
                }
            }
        }
    }
}

} // verus!
