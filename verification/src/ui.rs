//! What the panes show, decided apart from drawing them.

use vstd::prelude::*;

use crate::api::calendar::{chars_in_bytes, lemma_ascii_chars_in_bytes, utf8_width, CalendarEvent};
use crate::text::{chars_of, starts_with, substring};
use crate::tiling::{Side, TileLayout};
use vstd::utf8::encode_utf8;

verus! {

broadcast use vstd::string::group_string_axioms;

/// A rectangle of terminal cells.
#[derive(Debug, Clone, Copy, PartialEq, Eq, Structural)]
pub struct Area {
    pub x: u16,
    pub y: u16,
    pub width: u16,
    pub height: u16,
}

pub open spec fn sat_sub(a: u16, b: u16) -> u16 {
    if a >= b {
        (a - b) as u16
    } else {
        0
    }
}

pub open spec fn min_u16(a: u16, b: u16) -> u16 {
    if a <= b {
        a
    } else {
        b
    }
}

/// A popup of the given size centred in `area`, cut to fit.
pub open spec fn centered_popup_of(area: Area, width: u16, height: u16) -> Area {
    Area {
        x: (area.x + sat_sub(area.width, width) / 2) as u16,
        y: (area.y + sat_sub(area.height, height) / 2) as u16,
        width: min_u16(width, area.width),
        height: min_u16(height, area.height),
    }
}

pub fn centered_popup(area: Area, width: u16, height: u16) -> (r: Area)
    requires
        area.x + sat_sub(area.width, width) / 2 <= u16::MAX,
        area.y + sat_sub(area.height, height) / 2 <= u16::MAX,
    ensures
        r == centered_popup_of(area, width, height),
{
    Area {
        x: area.x + area.width.saturating_sub(width) / 2,
        y: area.y + area.height.saturating_sub(height) / 2,
        width: if width <= area.width {
            width
        } else {
            area.width
        },
        height: if height <= area.height {
            height
        } else {
            area.height
        },
    }
}

/// Whether a popup of the given size can be centred in `area` without the
/// position leaving the 16-bit range.
pub fn centered_popup_fits(area: Area, width: u16, height: u16) -> (b: bool)
    ensures
        b == (area.x + sat_sub(area.width, width) / 2 <= u16::MAX && area.y + sat_sub(
            area.height,
            height,
        ) / 2 <= u16::MAX),
{
    (area.x as u32) + (area.width.saturating_sub(width) / 2) as u32 <= u16::MAX as u32 && (
    area.y as u32) + (area.height.saturating_sub(height) / 2) as u32 <= u16::MAX as u32
}

/// Number of bytes of the UTF-8 encoding of `s`.
pub open spec fn utf8_len(s: Seq<char>) -> int
    decreases s.len(),
{
    if s.len() == 0 {
        0
    } else {
        utf8_width(s[0]) + utf8_len(s.drop_first())
    }
}

/// `s` without trailing `:` characters.
pub open spec fn without_trailing_colons(s: Seq<char>) -> Seq<char>
    decreases s.len(),
{
    if s.len() > 0 && s.last() == ':' {
        without_trailing_colons(s.drop_last())
    } else {
        s
    }
}

/// An event start longer than a date can be cut after its 11th byte.
pub open spec fn time_label_ok(start: Seq<char>) -> bool {
    utf8_len(start) > 10 ==> chars_in_bytes(start, 11) is Some
}

/// The time shown for an event: what follows the date and the `T` of its start
/// (trailing `:` removed), or "All day" when the start is only a date.
pub open spec fn event_time_label_of(start: Seq<char>) -> Seq<char> {
    if utf8_len(start) > 10 {
        without_trailing_colons(start.skip(chars_in_bytes(start, 11)->0 as int))
    } else {
        "All day"@
    }
}

/// A text of ASCII characters takes one byte per character.
proof fn lemma_ascii_bytes(s: Seq<char>)
    requires
        forall|k: int| 0 <= k < s.len() ==> (#[trigger] s[k] as u32) < 0x80,
    ensures
        utf8_len(s) == s.len(),
    decreases s.len(),
{
    if s.len() > 0 {
        assert((s[0] as u32) < 0x80);
        assert forall|k: int| 0 <= k < s.drop_first().len() implies (#[trigger] s.drop_first()[k] as u32)
            < 0x80 by {
            assert(s.drop_first()[k] == s[k + 1]);
        }
        lemma_ascii_bytes(s.drop_first());
    }
}

/// Removing trailing colons removes those and nothing else: what is left is
/// a prefix of the text that does not end with a colon, and everything after
/// it is a colon.
pub proof fn law_trailing_colons_removed(s: Seq<char>)
    ensures
        ({
            let r = without_trailing_colons(s);
            &&& r.len() <= s.len()
            &&& r == s.take(r.len() as int)
            &&& r.len() == 0 || r.last() != ':'
            &&& forall|k: int| r.len() <= k < s.len() ==> s[k] == ':'
        }),
    decreases s.len(),
{
    if s.len() > 0 && s.last() == ':' {
        law_trailing_colons_removed(s.drop_last());
        let r = without_trailing_colons(s);
        assert(s.drop_last().take(r.len() as int) =~= s.take(r.len() as int));
        assert forall|k: int| r.len() <= k < s.len() implies s[k] == ':' by {
            if k < s.len() - 1 {
                assert(s[k] == s.drop_last()[k]);
            }
        }
    } else {
        assert(s.take(s.len() as int) =~= s);
    }
}

/// For a start written in ASCII (as the calendar service writes times), an
/// event shows "All day" when the start is a date of ten characters or fewer,
/// and otherwise what follows the date and its `T` separator, without
/// trailing colons.
pub proof fn law_event_time_label(start: Seq<char>)
    requires
        forall|k: int| 0 <= k < start.len() ==> (#[trigger] start[k] as u32) < 0x80,
    ensures
        time_label_ok(start),
        start.len() <= 10 ==> event_time_label_of(start) == "All day"@,
        start.len() > 10 ==> event_time_label_of(start) == without_trailing_colons(start.skip(11)),
{
    lemma_ascii_bytes(start);
    lemma_ascii_chars_in_bytes(start, 11);
}

/// A centred popup lies inside its area, is as large as asked where the area
/// allows and as large as the area otherwise, and leaves margins on either
/// side that differ by at most one cell.
pub proof fn law_popup_centred_inside(area: Area, width: u16, height: u16)
    requires
        area.x + sat_sub(area.width, width) / 2 <= u16::MAX,
        area.y + sat_sub(area.height, height) / 2 <= u16::MAX,
    ensures
        ({
            let p = centered_popup_of(area, width, height);
            &&& p.width == if width <= area.width { width } else { area.width }
            &&& p.height == if height <= area.height { height } else { area.height }
            &&& area.x <= p.x && p.x + p.width <= area.x + area.width
            &&& area.y <= p.y && p.y + p.height <= area.y + area.height
            &&& (area.x + area.width - (p.x + p.width)) - (p.x - area.x) <= 1
            &&& (area.x + area.width - (p.x + p.width)) - (p.x - area.x) >= 0
            &&& (area.y + area.height - (p.y + p.height)) - (p.y - area.y) <= 1
            &&& (area.y + area.height - (p.y + p.height)) - (p.y - area.y) >= 0
        }),
{
}

proof fn lemma_chars_in_bytes_skip(s: Seq<char>, k: int, acc: int, n: int)
    requires
        0 <= k < s.len(),
        0 <= acc < n,
    ensures
        chars_in_bytes(s.skip(k), n - acc) == match chars_in_bytes(
            s.skip(k + 1),
            n - acc - utf8_width(s[k]),
        ) {
            Some(j) => Some(j + 1),
            None => None::<nat>,
        },
{
    assert(s.skip(k).drop_first() =~= s.skip(k + 1));
}

proof fn lemma_utf8_len_skip(s: Seq<char>, k: int)
    requires
        0 <= k < s.len(),
    ensures
        utf8_len(s.skip(k)) == utf8_width(s[k]) + utf8_len(s.skip(k + 1)),
{
    assert(s.skip(k).drop_first() =~= s.skip(k + 1));
}

proof fn lemma_utf8_len_nonneg(s: Seq<char>)
    ensures
        utf8_len(s) >= 0,
    decreases s.len(),
{
    if s.len() > 0 {
        lemma_utf8_len_nonneg(s.drop_first());
    }
}

fn width_of(c: char) -> (w: u64)
    ensures
        w == utf8_width(c),
{
    let u = c as u32;
    if u < 0x80 {
        1
    } else if u < 0x800 {
        2
    } else if u < 0x10000 {
        3
    } else {
        4
    }
}

pub fn event_time_label(start: &str) -> (s: String)
    requires
        time_label_ok(start@),
    ensures
        s@ == event_time_label_of(start@),
{
    let v = chars_of(start);
    let mut acc: u64 = 0;
    let mut k: usize = 0;
    assert(start@.skip(0) =~= start@);
    while acc < 11 && k < v.len()
        invariant
            k <= v.len(),
            v@ == start@,
            acc <= 14,
            chars_in_bytes(start@, 11) == match chars_in_bytes(start@.skip(k as int), 11 - acc) {
                Some(j) => Some((j + k) as nat),
                None => None::<nat>,
            },
            utf8_len(start@) == acc + utf8_len(start@.skip(k as int)),
        decreases v.len() - k,
    {
        proof {
            lemma_chars_in_bytes_skip(start@, k as int, acc as int, 11);
            lemma_utf8_len_skip(start@, k as int);
        }
        acc = acc + width_of(v[k]);
        k = k + 1;
    }
    if acc <= 10 {
        assert(start@.skip(k as int).len() == 0);
        proof {
            reveal_strlit("All day");
        }
        return String::from_str("All day");
    }
    proof {
        lemma_utf8_len_nonneg(start@.skip(k as int));
        assert(utf8_len(start@) > 10);
        if acc > 11 {
            assert(chars_in_bytes(start@.skip(k as int), 11 - acc) is None);
        }
    }
    let mut end = v.len();
    while end > k && v[end - 1] == ':'
        invariant
            k <= end <= v.len(),
            v@ == start@,
            without_trailing_colons(start@.skip(k as int)) == without_trailing_colons(
                start@.subrange(k as int, end as int),
            ),
        decreases end,
    {
        assert(start@.subrange(k as int, end as int).drop_last() =~= start@.subrange(
            k as int,
            end - 1,
        ));
        end = end - 1;
    }
    assert(start@.subrange(k as int, v.len() as int) =~= start@.skip(k as int));
    let r = substring(start, k, end);
    let ghost t = start@.subrange(k as int, end as int);
    assert(without_trailing_colons(t) == t);
    r
}

/// The positions of the events that start on `date` (a `YYYY-MM-DD` text), in order.
pub open spec fn events_on_day_of(starts: Seq<Seq<char>>, date: Seq<char>) -> Seq<int> {
    Seq::new(starts.len(), |i: int| i).filter(|i: int| starts_with(starts[i], date))
}

pub fn events_on_day(events: &Vec<CalendarEvent>, date: &str) -> (idx: Vec<usize>)
    ensures
        forall|k: int| 0 <= k < idx@.len() ==> #[trigger] idx@[k] < events@.len(),
        forall|k: int, j: int| 0 <= k < j < idx@.len() ==> idx@[k] < idx@[j],
        forall|i: int|
            0 <= i < events@.len() ==> (idx@.contains(i as usize) <==> starts_with(
                #[trigger] events@[i].start@,
                date@,
            )),
{
    let d = chars_of(date);
    let mut idx: Vec<usize> = Vec::new();
    let mut i: usize = 0;
    while i < events.len()
        invariant
            i <= events@.len(),
            d@ == date@,
            forall|k: int| 0 <= k < idx@.len() ==> #[trigger] idx@[k] < i,
            forall|k: int, j: int| 0 <= k < j < idx@.len() ==> idx@[k] < idx@[j],
            forall|m: int|
                0 <= m < i ==> (idx@.contains(m as usize) <==> starts_with(
                    #[trigger] events@[m].start@,
                    date@,
                )),
        decreases events.len() - i,
    {
        let s = chars_of(events[i].start.as_str());
        let mut ok = d.len() <= s.len();
        if ok {
            let mut j: usize = 0;
            while j < d.len()
                invariant
                    j <= d.len(),
                    d.len() <= s.len(),
                    ok == forall|q: int| 0 <= q < j ==> s@[q] == d@[q],
                decreases d.len() - j,
            {
                if s[j] != d[j] {
                    ok = false;
                }
                j = j + 1;
            }
            assert(ok == (s@.take(d@.len() as int) =~= d@));
        }
        let ghost before = idx@;
        if ok {
            idx.push(i);
        }
        assert forall|m: int| 0 <= m < i + 1 implies (idx@.contains(m as usize) <==> starts_with(
            #[trigger] events@[m].start@,
            date@,
        )) by {
            if m < i {
                if idx@.contains(m as usize) && !before.contains(m as usize) {
                    assert(idx@[idx@.len() - 1] == i);
                }
                if before.contains(m as usize) {
                    let q = choose|q: int| 0 <= q < before.len() && before[q] == m as usize;
                    assert(idx@[q] == m as usize);
                }
            } else {
                if ok {
                    assert(idx@[idx@.len() - 1] == i);
                } else {
                    assert(!before.contains(i));
                }
            }
        }
        i = i + 1;
    }
    idx
}

/// The days whose switch is on, in order.
pub fn enabled_day_indices(days: &[bool; 7]) -> (idx: Vec<usize>)
    ensures
        forall|k: int| 0 <= k < idx@.len() ==> #[trigger] idx@[k] < 7,
        forall|k: int, j: int| 0 <= k < j < idx@.len() ==> idx@[k] < idx@[j],
        forall|i: int| 0 <= i < 7 ==> (idx@.contains(i as usize) <==> #[trigger] days@[i]),
{
    let mut idx: Vec<usize> = Vec::new();
    let mut i: usize = 0;
    while i < 7
        invariant
            i <= 7,
            forall|k: int| 0 <= k < idx@.len() ==> #[trigger] idx@[k] < i,
            forall|k: int, j: int| 0 <= k < j < idx@.len() ==> idx@[k] < idx@[j],
            forall|m: int| 0 <= m < i ==> (idx@.contains(m as usize) <==> #[trigger] days@[m]),
        decreases 7 - i,
    {
        let ghost before = idx@;
        if days[i] {
            idx.push(i);
        }
        assert forall|m: int| 0 <= m < i + 1 implies (idx@.contains(m as usize) <==> #[trigger] days@[m]) by {
            if m < i {
                if idx@.contains(m as usize) && !before.contains(m as usize) {
                    assert(idx@[idx@.len() - 1] == i);
                }
                if before.contains(m as usize) {
                    let q = choose|q: int| 0 <= q < before.len() && before[q] == m as usize;
                    assert(idx@[q] == m as usize);
                }
            } else {
                if days@[m] {
                    assert(idx@[idx@.len() - 1] == i);
                } else {
                    assert(!before.contains(i));
                }
            }
        }
        i = i + 1;
    }
    idx
}

/// A pane is drawn as focused when the layout has more than one pane and the
/// pane sits at the focus path.
pub fn pane_is_focused(layout: &TileLayout, current_path: &Vec<Side>) -> (b: bool)
    ensures
        b == (!(layout@.0 is Leaf) && layout@.1 == current_path@),
{
    if layout.is_single() {
        return false;
    }
    let focus = &layout.focus_path.0;
    if focus.len() != current_path.len() {
        return false;
    }
    let mut i: usize = 0;
    while i < focus.len()
        invariant
            i <= focus.len(),
            focus.len() == current_path.len(),
            focus@ == layout@.1,
            forall|k: int| 0 <= k < i ==> focus@[k] == current_path@[k],
        decreases focus.len() - i,
    {
        if focus[i] != current_path[i] {
            return false;
        }
        i = i + 1;
    }
    assert(focus@ =~= current_path@);
    true
}

/// The hint in the tab bar's border.
pub fn tab_bar_hint(single: bool) -> (s: &'static str)
    ensures
        single ==> s@ == " [|] split  [-] split  [?] help "@,
        !single ==> s@ == " [Tab] next pane  [x] close  [|/-] split  [?] help "@,
{
    if single {
        " [|] split  [-] split  [?] help "
    } else {
        " [Tab] next pane  [x] close  [|/-] split  [?] help "
    }
}

/// Check box of a switch in a picker.
pub fn checkbox(on: bool) -> (s: &'static str)
    ensures
        on ==> s@ == "[x]"@,
        !on ==> s@ == "[ ]"@,
{
    if on {
        "[x]"
    } else {
        "[ ]"
    }
}

/// Number of forecast columns: the days reported, at most a week.
pub fn forecast_columns(days: usize) -> (n: usize)
    ensures
        n == if days < 7 {
            days
        } else {
            7
        },
{
    if days < 7 {
        days
    } else {
        7
    }
}

/// Whether `s` occurs in `text`.
pub open spec fn contains_text(text: Seq<char>, s: Seq<char>) -> bool {
    exists|i: int| 0 <= i && i + s.len() <= text.len() && #[trigger] text.subrange(i, i + s.len()) == s
}

/// A calendar error that comes from missing credentials, for which the setup
/// steps are shown.
pub fn is_setup_error(err: &str) -> (b: bool)
    ensures
        b == contains_text(err@, "not set in .env"@),
{
    let t = chars_of(err);
    let p = chars_of("not set in .env");
    if p.len() > t.len() {
        proof {
            assert forall|i: int| 0 <= i && i + p@.len() <= t@.len() implies #[trigger] t@.subrange(
                i,
                i + p@.len(),
            ) != p@ by {}
        }
        return false;
    }
    let mut i: usize = 0;
    while i <= t.len() - p.len()
        invariant
            p.len() <= t.len(),
            t@ == err@,
            p@ == "not set in .env"@,
            forall|k: int| 0 <= k < i ==> #[trigger] t@.subrange(k, k + p@.len()) != p@,
        decreases t.len() - i,
    {
        let mut j: usize = 0;
        let mut same = true;
        while j < p.len()
            invariant
                j <= p.len(),
                i + p.len() <= t.len(),
                same == forall|q: int| 0 <= q < j ==> t@[i + q] == p@[q],
            decreases p.len() - j,
        {
            if t[i + j] != p[j] {
                same = false;
            }
            j = j + 1;
        }
        if same {
            assert(t@.subrange(i as int, i + p@.len()) =~= p@);
            return true;
        }
        assert(t@.subrange(i as int, i + p@.len()) != p@) by {
            let q = choose|q: int| 0 <= q < p.len() && t@[i + q] != p@[q];
            assert(t@.subrange(i as int, i + p@.len())[q] != p@[q]);
        }
        i = i + 1;
    }
    false
}

/// Width a feed url needs in the feed picker: its length in bytes (as a
/// 16-bit count) and room for the check box and borders.
pub open spec fn url_width(u: Seq<char>) -> int {
    ((encode_utf8(u).len() as usize) as u16) + 8
}

/// The widest url width of the feeds; 40 when there are none.
pub open spec fn widest(us: Seq<Seq<char>>) -> int
    decreases us.len(),
{
    if us.len() == 0 {
        40
    } else {
        let rest = widest(us.drop_last());
        let w = url_width(us.last());
        if us.len() == 1 || w > rest {
            w
        } else {
            rest
        }
    }
}

/// The feed picker's size can be worked out: the counts fit in 16 bits and
/// the area is wide enough for the picker's smallest width.
pub open spec fn feed_picker_fits(us: Seq<Seq<char>>, area: Area) -> bool {
    &&& ((us.len() as usize) as u16) + 4 <= u16::MAX
    &&& forall|i: int| 0 <= i < us.len() ==> url_width(#[trigger] us[i]) <= u16::MAX
    &&& 36 <= sat_sub(area.width, 4)
    &&& area.x + sat_sub(area.width, picker_width(us, area)) / 2 <= u16::MAX
    &&& area.y + sat_sub(area.height, picker_height(us, area)) / 2 <= u16::MAX
}

pub open spec fn picker_height(us: Seq<Seq<char>>, area: Area) -> u16 {
    min_u16((((us.len() as usize) as u16) + 4) as u16, sat_sub(area.height, 2))
}

pub open spec fn picker_width(us: Seq<Seq<char>>, area: Area) -> u16 {
    let w = widest(us);
    if w < 36 {
        36u16
    } else if w > sat_sub(area.width, 4) {
        sat_sub(area.width, 4)
    } else {
        w as u16
    }
}

/// The feed picker: one row per feed plus borders and room, as wide as the
/// widest url needs (between 36 and the area's width less 4), centred.
pub open spec fn feed_picker_area_of(us: Seq<Seq<char>>, area: Area) -> Area {
    let height = picker_height(us, area);
    let width = picker_width(us, area);
    Area {
        x: (area.x + sat_sub(area.width, width) / 2) as u16,
        y: (area.y + sat_sub(area.height, height) / 2) as u16,
        width,
        height,
    }
}

/// The widest url width is the largest of the feeds' url widths, and 40 when
/// there are no feeds.
pub proof fn law_widest_is_largest(us: Seq<Seq<char>>)
    ensures
        us.len() == 0 ==> widest(us) == 40,
        forall|i: int| 0 <= i < us.len() ==> url_width(#[trigger] us[i]) <= widest(us),
        us.len() > 0 ==> exists|i: int| 0 <= i < us.len() && widest(us) == url_width(#[trigger] us[i]),
    decreases us.len(),
{
    if us.len() > 0 {
        let r = us.drop_last();
        law_widest_is_largest(r);
        assert forall|i: int| 0 <= i < us.len() implies url_width(#[trigger] us[i]) <= widest(us) by {
            if i < us.len() - 1 {
                assert(us[i] == r[i]);
            }
        }
        if us.len() == 1 || url_width(us.last()) > widest(r) {
            assert(widest(us) == url_width(us[us.len() - 1]));
        } else {
            let j = choose|j: int| 0 <= j < r.len() && widest(r) == url_width(#[trigger] r[j]);
            assert(us[j] == r[j]);
        }
    }
}

/// The feed picker lies inside its area, centred; it is one row per feed plus
/// four (the count taken in 16 bits), cut to the area's height less two, and as wide as the widest url
/// needs, but at least 36 and at most the area's width less four.
pub proof fn law_feed_picker_inside(us: Seq<Seq<char>>, area: Area)
    requires
        feed_picker_fits(us, area),
    ensures
        ({
            let p = feed_picker_area_of(us, area);
            let w = widest(us);
            &&& 36 <= p.width <= area.width - 4
            &&& (36 <= w <= area.width - 4) ==> p.width == w
            &&& w < 36 ==> p.width == 36
            &&& w > area.width - 4 ==> p.width == area.width - 4
            &&& p.height == if ((us.len() as usize) as u16) + 4 <= sat_sub(area.height, 2) {
                ((us.len() as usize) as u16) + 4
            } else {
                sat_sub(area.height, 2) as int
            }
            &&& area.x <= p.x && p.x + p.width <= area.x + area.width
            &&& area.y <= p.y && p.y + p.height <= area.y + area.height
            &&& (area.x + area.width - (p.x + p.width)) - (p.x - area.x) <= 1
            &&& (area.x + area.width - (p.x + p.width)) - (p.x - area.x) >= 0
        }),
{
    law_widest_is_largest(us);
    if us.len() > 0 {
        let k = choose|k: int| 0 <= k < us.len() && widest(us) == url_width(#[trigger] us[k]);
        assert(widest(us) <= u16::MAX);
    }
    let p = feed_picker_area_of(us, area);
    assert(36 <= p.width <= area.width - 4);
    assert(area.x <= p.x && p.x + p.width <= area.x + area.width);
    assert(area.y <= p.y && p.y + p.height <= area.y + area.height);
}

/// The widest url width of the feeds.
fn widest_url_width(feeds: &Vec<String>) -> (w: u16)
    requires
        forall|k: int| 0 <= k < feeds@.len() ==> url_width(#[trigger] feeds@[k]@) <= u16::MAX,
    ensures
        w == widest(feeds@.map_values(|f: String| f@)),
{
    let ghost us = feeds@.map_values(|f: String| f@);
    assert forall|k: int| 0 <= k < us.len() implies url_width(#[trigger] us[k]) <= u16::MAX by {
        assert(us[k] == feeds@[k]@);
    }
    let mut widest_so_far: u16 = 40;
    let mut i: usize = 0;
    while i < feeds.len()
        invariant
            i <= feeds@.len(),
            us == feeds@.map_values(|f: String| f@),
            forall|k: int| 0 <= k < us.len() ==> url_width(#[trigger] us[k]) <= u16::MAX,
            widest_so_far == widest(us.take(i as int)),
        decreases feeds.len() - i,
    {
        assert(us.take(i + 1).drop_last() =~= us.take(i as int));
        assert(us[i as int] == feeds@[i as int]@);
        let bytes = #[verifier::truncate] (feeds[i].as_str().len() as u16);
        assert(url_width(us[i as int]) <= u16::MAX);
        let w = bytes + 8;
        if i == 0 || w > widest_so_far {
            widest_so_far = w;
        }
        i = i + 1;
    }
    assert(us.take(feeds@.len() as int) =~= us);
    widest_so_far
}

/// Whether the feed picker's size can be worked out for these feeds and area.
pub fn feed_picker_can_fit(feeds: &Vec<String>, area: Area) -> (b: bool)
    ensures
        b == feed_picker_fits(feeds@.map_values(|f: String| f@), area),
{
    let ghost us = feeds@.map_values(|f: String| f@);
    let count = #[verifier::truncate] (feeds.len() as u16);
    if count > u16::MAX - 4 {
        return false;
    }
    let mut i: usize = 0;
    while i < feeds.len()
        invariant
            i <= feeds@.len(),
            us == feeds@.map_values(|f: String| f@),
            forall|k: int| 0 <= k < i ==> url_width(#[trigger] us[k]) <= u16::MAX,
        decreases feeds.len() - i,
    {
        assert(us[i as int] == feeds@[i as int]@);
        let bytes = #[verifier::truncate] (feeds[i].as_str().len() as u16);
        if bytes > u16::MAX - 8 {
            return false;
        }
        i = i + 1;
    }
    let max = area.width.saturating_sub(4);
    if max < 36 {
        return false;
    }
    assert forall|k: int| 0 <= k < feeds@.len() implies url_width(#[trigger] feeds@[k]@) <= u16::MAX by {
        assert(us[k] == feeds@[k]@);
    }
    let w = widest_url_width(feeds);
    let width = if w < 36 {
        36
    } else if w > max {
        max
    } else {
        w
    };
    let rows = count + 4;
    let room = area.height.saturating_sub(2);
    let height = if rows <= room {
        rows
    } else {
        room
    };
    (area.x as u32) + (area.width.saturating_sub(width) / 2) as u32 <= u16::MAX as u32 && (
    area.y as u32) + (area.height.saturating_sub(height) / 2) as u32 <= u16::MAX as u32
}

pub fn feed_picker_area(feeds: &Vec<String>, area: Area) -> (r: Area)
    requires
        feed_picker_fits(feeds@.map_values(|f: String| f@), area),
    ensures
        r == feed_picker_area_of(feeds@.map_values(|f: String| f@), area),
{
    let count = #[verifier::truncate] (feeds.len() as u16);
    let rows = count + 4;
    let room = area.height.saturating_sub(2);
    let height = if rows <= room {
        rows
    } else {
        room
    };
    let ghost us = feeds@.map_values(|f: String| f@);
    assert forall|k: int| 0 <= k < feeds@.len() implies url_width(#[trigger] feeds@[k]@) <= u16::MAX by {
        assert(us[k] == feeds@[k]@);
    }
    let w = widest_url_width(feeds);
    let max = area.width.saturating_sub(4);
    let width = if w < 36 {
        36
    } else if w > max {
        max
    } else {
        w
    };
    Area {
        x: area.x + area.width.saturating_sub(width) / 2,
        y: area.y + area.height.saturating_sub(height) / 2,
        width,
        height,
    }
}

} // verus!
