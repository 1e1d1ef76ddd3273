//! What the key bindings and the fetch results do to the dashboard, stated key
//! by key and result by result.

use vstd::prelude::*;

use crate::api::ApiUpdate;
use crate::app::{
    key_effect, refresh_due, tab_due, updated_by, App, Key, KeyAction, LayoutChange, Tab,
    TabState,
};
use crate::tiling::{focused_of, valid_layout, SplitDir};

verus! {

/// No picker is open: keys reach the panes.
pub open spec fn main_view(s: App) -> bool {
    !s.calendar_day_picker_open && !s.rss_feed_picker_open
}

/// The key only changes the layout by `c`: the rest of the state, the switches
/// and the run of the dashboard stay as they were.
pub open spec fn only_layout(s: App, k: Key, c: LayoutChange) -> bool {
    &&& key_effect(s, k).0 == s
    &&& key_effect(s, k).1 == c
    &&& key_effect(s, k).2 == s.calendar_days_enabled@
    &&& key_effect(s, k).3 == s.rss_feed_enabled@
    &&& key_effect(s, k).4 == KeyAction::Continue
}

/// The pane keys: `|` and `\` split the focused pane side by side, `-` splits
/// it top and bottom, `x` closes it, Tab and Shift-Tab move the focus forward
/// and back, and `1`, `2`, `3` show weather, calendar and RSS in it.
pub proof fn law_pane_keys(s: App)
    requires
        main_view(s),
    ensures
        only_layout(s, Key::Char('|'), LayoutChange::Split(SplitDir::Horizontal)),
        only_layout(s, Key::Char('\\'), LayoutChange::Split(SplitDir::Horizontal)),
        only_layout(s, Key::Char('-'), LayoutChange::Split(SplitDir::Vertical)),
        only_layout(s, Key::Char('x'), LayoutChange::Close),
        only_layout(s, Key::Tab, LayoutChange::FocusNext),
        only_layout(s, Key::BackTab, LayoutChange::FocusPrev),
        only_layout(s, Key::Char('1'), LayoutChange::SetTab(Tab::Weather)),
        only_layout(s, Key::Char('2'), LayoutChange::SetTab(Tab::Calendar)),
        only_layout(s, Key::Char('3'), LayoutChange::SetTab(Tab::Rss)),
{
}

/// The keys the dashboard binds when no picker is open.
pub open spec fn bound_key(k: Key) -> bool {
    ||| k == Key::Char('q') || k == Key::Esc || k == Key::Char('?')
    ||| k == Key::Char('|') || k == Key::Char('\\') || k == Key::Char('-') || k == Key::Char('x')
    ||| k == Key::Tab || k == Key::BackTab || k == Key::Left || k == Key::Right
    ||| k == Key::Char('1') || k == Key::Char('2') || k == Key::Char('3')
    ||| k == Key::Char('r') || k == Key::Char('f') || k == Key::Char('d') || k == Key::Enter
    ||| k == Key::Down || k == Key::Char('j') || k == Key::Up || k == Key::Char('k')
}

/// Any other key does nothing.
pub proof fn law_unbound_keys_do_nothing(s: App, k: Key)
    requires
        main_view(s),
        !bound_key(k),
    ensures
        only_layout(s, k, LayoutChange::Keep),
{
}

/// The arrow keys cycle the focused pane through weather, calendar and RSS:
/// right goes forward, left goes back, each wrapping round.
pub proof fn law_arrows_cycle_tabs(s: App)
    requires
        main_view(s),
        valid_layout(s.tiles@),
    ensures
        focused_of(s.tiles@) == Tab::Weather ==> only_layout(
            s,
            Key::Right,
            LayoutChange::SetTab(Tab::Calendar),
        ) && only_layout(s, Key::Left, LayoutChange::SetTab(Tab::Rss)),
        focused_of(s.tiles@) == Tab::Calendar ==> only_layout(
            s,
            Key::Right,
            LayoutChange::SetTab(Tab::Rss),
        ) && only_layout(s, Key::Left, LayoutChange::SetTab(Tab::Weather)),
        focused_of(s.tiles@) == Tab::Rss ==> only_layout(
            s,
            Key::Right,
            LayoutChange::SetTab(Tab::Weather),
        ) && only_layout(s, Key::Left, LayoutChange::SetTab(Tab::Calendar)),
{
}

/// With the help shown, `q` and Esc close it and the dashboard goes on;
/// without it they quit and change nothing.
pub proof fn law_q_closes_help_first(s: App, k: Key)
    requires
        main_view(s),
        k == Key::Char('q') || k == Key::Esc,
    ensures
        s.show_help ==> key_effect(s, k).0 == (App { show_help: false, ..s }) && key_effect(s, k).4
            == KeyAction::Continue,
        !s.show_help ==> key_effect(s, k).0 == s && key_effect(s, k).4 == KeyAction::Quit,
        key_effect(s, k).1 == LayoutChange::Keep,
{
}

/// `f` opens the feed picker, at its first feed, only on the RSS pane; `d`
/// opens the day picker, at today, only on the calendar pane. Elsewhere they
/// do nothing.
pub proof fn law_picker_keys_open_pickers(s: App)
    requires
        main_view(s),
        valid_layout(s.tiles@),
    ensures
        focused_of(s.tiles@) == Tab::Rss ==> key_effect(s, Key::Char('f')).0 == (App {
            rss_feed_picker_open: true,
            rss_feed_cursor: 0,
            ..s
        }),
        focused_of(s.tiles@) != Tab::Rss ==> key_effect(s, Key::Char('f')).0 == s,
        focused_of(s.tiles@) == Tab::Calendar ==> key_effect(s, Key::Char('d')).0 == (App {
            calendar_day_picker_open: true,
            calendar_day_cursor: 0,
            ..s
        }),
        focused_of(s.tiles@) != Tab::Calendar ==> key_effect(s, Key::Char('d')).0 == s,
        key_effect(s, Key::Char('f')).1 == LayoutChange::Keep,
        key_effect(s, Key::Char('d')).1 == LayoutChange::Keep,
        key_effect(s, Key::Char('f')).4 == KeyAction::Continue,
        key_effect(s, Key::Char('d')).4 == KeyAction::Continue,
{
}

/// `r` forgets when the focused tab was fetched and ends any fetch in
/// progress, so the tab is due; its data and error stay until new ones come,
/// the other tabs are untouched, and the calendar goes back to its top.
pub proof fn law_r_refreshes_focused_tab(s: App, now: u64)
    requires
        main_view(s),
        valid_layout(s.tiles@),
    ensures
        ({
            let t = key_effect(s, Key::Char('r')).0;
            let f = focused_of(s.tiles@);
            &&& tab_due(t, f, now)
            &&& t.weather.data == s.weather.data && t.weather.error == s.weather.error
            &&& t.rss.data == s.rss.data && t.rss.error == s.rss.error
            &&& t.calendar.data == s.calendar.data && t.calendar.error == s.calendar.error
            &&& f != Tab::Weather ==> t.weather == s.weather
            &&& f != Tab::Rss ==> t.rss == s.rss
            &&& f != Tab::Calendar ==> t.calendar == s.calendar && t.calendar_scroll
                == s.calendar_scroll
            &&& f == Tab::Calendar ==> t.calendar_scroll == 0
            &&& t.tiles == s.tiles && t.rss_selected == s.rss_selected
        }),
        key_effect(s, Key::Char('r')).1 == LayoutChange::Keep,
        key_effect(s, Key::Char('r')).4 == KeyAction::Continue,
{
}

/// Down and `j` move the RSS selection one item on, stopping at the last;
/// up and `k` move it one back, stopping at the first. Nothing else changes.
pub proof fn law_rss_selection_moves(s: App)
    requires
        main_view(s),
        valid_layout(s.tiles@),
        focused_of(s.tiles@) == Tab::Rss,
        s.rss.data is Some,
        s.rss_selected < s.rss.data->Some_0@.len(),
        s.rss_selected < usize::MAX,
    ensures
        ({
            let n = s.rss.data->Some_0@.len();
            let down = key_effect(s, Key::Down).0;
            let up = key_effect(s, Key::Up).0;
            &&& down.rss_selected < n
            &&& s.rss_selected + 1 < n ==> down.rss_selected == s.rss_selected + 1
            &&& s.rss_selected + 1 == n ==> down == s
            &&& down == (App { rss_selected: down.rss_selected, ..s })
            &&& s.rss_selected > 0 ==> up.rss_selected == s.rss_selected - 1
            &&& s.rss_selected == 0 ==> up == s
            &&& up == (App { rss_selected: up.rss_selected, ..s })
            &&& key_effect(s, Key::Char('j')) == key_effect(s, Key::Down)
            &&& key_effect(s, Key::Char('k')) == key_effect(s, Key::Up)
        }),
        key_effect(s, Key::Down).1 == LayoutChange::Keep,
        key_effect(s, Key::Up).1 == LayoutChange::Keep,
{
}

/// Down and `j` scroll the calendar one line down, up and `k` one line up,
/// never above the top. Nothing else changes.
pub proof fn law_calendar_scrolls(s: App)
    requires
        main_view(s),
        valid_layout(s.tiles@),
        focused_of(s.tiles@) == Tab::Calendar,
    ensures
        ({
            let down = key_effect(s, Key::Down).0;
            let up = key_effect(s, Key::Up).0;
            &&& s.calendar_scroll < u16::MAX ==> down.calendar_scroll == s.calendar_scroll + 1
            &&& down == (App { calendar_scroll: down.calendar_scroll, ..s })
            &&& s.calendar_scroll > 0 ==> up.calendar_scroll == s.calendar_scroll - 1
            &&& s.calendar_scroll == 0 ==> up == s
            &&& up == (App { calendar_scroll: up.calendar_scroll, ..s })
            &&& key_effect(s, Key::Char('j')) == key_effect(s, Key::Down)
            &&& key_effect(s, Key::Char('k')) == key_effect(s, Key::Up)
        }),
{
}

/// Enter on the RSS pane opens the link of the selected item when it has one;
/// otherwise, and on the other panes, it does nothing.
pub proof fn law_enter_opens_selected_link(s: App)
    requires
        main_view(s),
        valid_layout(s.tiles@),
    ensures
        key_effect(s, Key::Enter).0 == s,
        key_effect(s, Key::Enter).1 == LayoutChange::Keep,
        (focused_of(s.tiles@) == Tab::Rss && s.rss.data is Some && s.rss_selected < s.rss.data->Some_0@.len()
            && s.rss.data->Some_0@[s.rss_selected as int].link is Some) ==> key_effect(s, Key::Enter).4
            == KeyAction::OpenLink(s.rss.data->Some_0@[s.rss_selected as int].link->Some_0),
        !(focused_of(s.tiles@) == Tab::Rss && s.rss.data is Some && s.rss_selected < s.rss.data->Some_0@.len()
            && s.rss.data->Some_0@[s.rss_selected as int].link is Some) ==> key_effect(s, Key::Enter).4
            == KeyAction::Continue,
{
}

/// In the day picker, down and up move the cursor over the seven days without
/// leaving them, space and Enter switch the day under the cursor, and `d`,
/// `q` and Esc close the picker; nothing else changes.
pub proof fn law_day_picker_keys(s: App, k: Key)
    requires
        s.calendar_day_picker_open,
        s.calendar_day_cursor < 7,
        s.calendar_days_enabled@.len() == 7,
    ensures
        ({
            let c = s.calendar_day_cursor;
            let days = s.calendar_days_enabled@;
            let (t, _, d, f, a) = key_effect(s, k);
            &&& a == KeyAction::Continue
            &&& f == s.rss_feed_enabled@
            &&& key_effect(s, Key::Char('j')) == key_effect(s, Key::Down)
            &&& key_effect(s, Key::Char('k')) == key_effect(s, Key::Up)
            &&& t.calendar_day_cursor < 7
            &&& (k == Key::Down && c < 6) ==> t == (App { calendar_day_cursor: (c + 1) as usize, ..s })
                && d == days
            &&& (k == Key::Down && c == 6) ==> t == s && d == days
            &&& (k == Key::Up && c > 0) ==> t == (App { calendar_day_cursor: (c - 1) as usize, ..s })
                && d == days
            &&& (k == Key::Up && c == 0) ==> t == s && d == days
            &&& (k == Key::Char(' ') || k == Key::Enter) ==> t == s && d.len() == 7 && d[c as int]
                == !days[c as int] && forall|i: int| 0 <= i < 7 && i != c ==> d[i] == days[i]
            &&& (k == Key::Char('d') || k == Key::Char('q') || k == Key::Esc) ==> t == (App {
                calendar_day_picker_open: false,
                ..s
            }) && d == days
            &&& !(k == Key::Char('d') || k == Key::Char('q') || k == Key::Esc || k == Key::Down || k
                == Key::Char('j') || k == Key::Up || k == Key::Char('k') || k == Key::Char(' ') || k
                == Key::Enter) ==> t == s && d == days
        }),
{
}

/// In the feed picker, down and up move the cursor over the feeds without
/// leaving them, space and Enter switch the feed under the cursor and make the
/// feeds due for a fetch, and `f`, `q` and Esc close the picker.
pub proof fn law_feed_picker_keys(s: App, k: Key, now: u64)
    requires
        !s.calendar_day_picker_open,
        s.rss_feed_picker_open,
        s.rss_feed_cursor < s.config.rss_feeds@.len(),
        s.rss_feed_enabled@.len() == s.config.rss_feeds@.len(),
    ensures
        ({
            let c = s.rss_feed_cursor;
            let n = s.config.rss_feeds@.len();
            let on = s.rss_feed_enabled@;
            let (t, _, d, f, a) = key_effect(s, k);
            &&& a == KeyAction::Continue
            &&& d == s.calendar_days_enabled@
            &&& key_effect(s, Key::Char('j')) == key_effect(s, Key::Down)
            &&& key_effect(s, Key::Char('k')) == key_effect(s, Key::Up)
            &&& t.rss_feed_cursor < n
            &&& (k == Key::Down && c + 1 < n) ==> t == (App { rss_feed_cursor: (c + 1) as usize, ..s })
                && f == on
            &&& (k == Key::Down && c + 1 == n) ==> t == s && f == on
            &&& (k == Key::Up && c > 0) ==> t == (App { rss_feed_cursor: (c - 1) as usize, ..s }) && f
                == on
            &&& (k == Key::Up && c == 0) ==> t == s && f == on
            &&& (k == Key::Char(' ') || k == Key::Enter) ==> f.len() == n && f[c as int] == !on[c as int]
                && (forall|i: int| 0 <= i < n && i != c ==> f[i] == on[i]) && tab_due(t, Tab::Rss, now)
                && t.rss.data == s.rss.data && t.rss_feed_picker_open
            &&& (k == Key::Char('f') || k == Key::Char('q') || k == Key::Esc) ==> t == (App {
                rss_feed_picker_open: false,
                ..s
            }) && f == on
            &&& !(k == Key::Char('f') || k == Key::Char('q') || k == Key::Esc || k == Key::Down || k
                == Key::Char('j') || k == Key::Up || k == Key::Char('k') || k == Key::Char(' ') || k
                == Key::Enter) ==> t == s && f == on
        }),
{
}

/// A successful fetch stores its data, ends the fetch, clears the error and
/// records the time; the other tabs are untouched. New RSS items are shown
/// from the first, and new events from the top, with any pending
/// authorization done.
pub proof fn law_results_are_stored(s: App, u: ApiUpdate, now: u64)
    ensures
        u matches ApiUpdate::Weather(d) ==> ({
            let t = updated_by(s, u, now);
            &&& t.weather.data == Some(d) && !t.weather.loading && t.weather.error is None
            &&& t.weather.last_refresh == Some(now)
            &&& t == (App { weather: t.weather, ..s })
        }),
        u matches ApiUpdate::Rss(items) ==> ({
            let t = updated_by(s, u, now);
            &&& t.rss.data == Some(items) && !t.rss.loading && t.rss.error is None
            &&& t.rss.last_refresh == Some(now) && t.rss_selected == 0
            &&& t == (App { rss: t.rss, rss_selected: 0, ..s })
        }),
        u matches ApiUpdate::Calendar(events) ==> ({
            let t = updated_by(s, u, now);
            &&& t.calendar.data == Some(events) && !t.calendar.loading && t.calendar.error is None
            &&& t.calendar.last_refresh == Some(now) && t.calendar_scroll == 0
            &&& t.calendar_auth_url is None
            &&& t == (App { calendar: t.calendar, calendar_scroll: 0, calendar_auth_url: None, ..s })
        }),
{
}

/// A failed fetch records its error and ends the fetch, so the tab shows the
/// error and can be fetched again; the data from before and the time of the
/// last success stay, and the other tabs are untouched. A failed calendar
/// fetch also ends a pending authorization.
pub proof fn law_errors_end_the_fetch(s: App, u: ApiUpdate, now: u64)
    ensures
        u matches ApiUpdate::WeatherError(e) ==> ({
            let t = updated_by(s, u, now);
            &&& t.weather.error == Some(e) && !t.weather.loading
            &&& t.weather.data == s.weather.data && t.weather.last_refresh == s.weather.last_refresh
            &&& t == (App { weather: t.weather, ..s })
        }),
        u matches ApiUpdate::RssError(e) ==> ({
            let t = updated_by(s, u, now);
            &&& t.rss.error == Some(e) && !t.rss.loading
            &&& t.rss.data == s.rss.data && t.rss.last_refresh == s.rss.last_refresh
            &&& t == (App { rss: t.rss, ..s })
        }),
        u matches ApiUpdate::CalendarError(e) ==> ({
            let t = updated_by(s, u, now);
            &&& t.calendar.error == Some(e) && !t.calendar.loading
            &&& t.calendar.data == s.calendar.data && t.calendar.last_refresh
                == s.calendar.last_refresh
            &&& t.calendar_auth_url is None
            &&& t == (App { calendar: t.calendar, calendar_auth_url: None, ..s })
        }),
        u matches ApiUpdate::CalendarNeedAuth(url) ==> updated_by(s, u, now) == (App {
            calendar_auth_url: Some(url),
            ..s
        }),
{
}

/// Whatever a fetch gives back, the tab it was for is no longer loading, and
/// a tab whose fetch failed is due for a refresh once its data has aged
/// past the interval, as before.
pub proof fn law_no_fetch_left_running(s: App, u: ApiUpdate, now: u64)
    ensures
        (u is Weather || u is WeatherError) ==> !updated_by(s, u, now).weather.loading,
        (u is Rss || u is RssError) ==> !updated_by(s, u, now).rss.loading,
        (u is Calendar || u is CalendarError) ==> !updated_by(s, u, now).calendar.loading,
        (u is WeatherError && s.weather.last_refresh is None) ==> tab_due(
            updated_by(s, u, now),
            Tab::Weather,
            now,
        ),
        (u is RssError && s.rss.last_refresh is None) ==> tab_due(updated_by(s, u, now), Tab::Rss, now),
        (u is CalendarError && s.calendar.last_refresh is None) ==> tab_due(
            updated_by(s, u, now),
            Tab::Calendar,
            now,
        ),
{
}

/// A tab is due for a fetch when none is running and it was never fetched or
/// was last fetched more than five minutes ago; a running fetch is never
/// doubled.
pub proof fn law_refresh_every_five_minutes<T>(t: TabState<T>, now: u64)
    ensures
        t.loading ==> !refresh_due(t, now),
        (!t.loading && t.last_refresh is None) ==> refresh_due(t, now),
        t.last_refresh matches Some(f) ==> (!t.loading && f <= now ==> (refresh_due(t, now) <==> now
            - f > 300_000_000_000)),
{
}

} // verus!
