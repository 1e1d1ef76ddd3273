use vstd::prelude::*;

verus! {

broadcast use vstd::string::group_string_axioms;

/// The characters of `s`.
pub fn chars_of(s: &str) -> (v: Vec<char>)
    ensures
        v@ == s@,
{
    let mut v: Vec<char> = Vec::new();
    for c in it: s.chars()
        invariant
            v@ == it.seq().take(it.index() as int),
            it.seq() == s@,
    {
        v.push(c);
        assert(v@ =~= it.seq().take(it.index() as int + 1));
    }
    assert(v@ =~= s@);
    v
}

/// `s[from..to]` counted in characters, as an owned string.
pub fn substring(s: &str, from: usize, to: usize) -> (r: String)
    requires
        from <= to <= s@.len(),
    ensures
        r@ == s@.subrange(from as int, to as int),
{
    String::from_str(s.substring_char(from, to))
}

/// Unicode `White_Space`, the characters `char::is_whitespace` accepts.
pub open spec fn is_white_space(c: char) -> bool {
    ||| '\u{9}' <= c <= '\u{d}'
    ||| c == ' '
    ||| c == '\u{85}'
    ||| c == '\u{a0}'
    ||| c == '\u{1680}'
    ||| '\u{2000}' <= c <= '\u{200a}'
    ||| c == '\u{2028}'
    ||| c == '\u{2029}'
    ||| c == '\u{202f}'
    ||| c == '\u{205f}'
    ||| c == '\u{3000}'
}

pub fn white_space(c: char) -> (b: bool)
    ensures
        b == is_white_space(c),
{
    ('\u{9}' <= c && c <= '\u{d}') || c == ' ' || c == '\u{85}' || c == '\u{a0}' || c == '\u{1680}'
        || ('\u{2000}' <= c && c <= '\u{200a}') || c == '\u{2028}' || c == '\u{2029}' || c
        == '\u{202f}' || c == '\u{205f}' || c == '\u{3000}'
}

/// `s` without leading and trailing white space.
pub open spec fn trimmed(s: Seq<char>) -> Seq<char>
    decreases s.len(),
{
    if s.len() > 0 && is_white_space(s[0]) {
        trimmed(s.drop_first())
    } else if s.len() > 0 && is_white_space(s.last()) {
        trimmed(s.drop_last())
    } else {
        s
    }
}

/// Trimming a string whose first `i` characters are white space trims the rest.
proof fn lemma_trim_front(s: Seq<char>, i: int)
    requires
        0 <= i <= s.len(),
        forall|k: int| 0 <= k < i ==> is_white_space(#[trigger] s[k]),
    ensures
        trimmed(s) == trimmed(s.subrange(i, s.len() as int)),
    decreases i,
{
    if i > 0 {
        lemma_trim_front(s.drop_first(), i - 1);
        assert(s.drop_first().subrange(i - 1, s.drop_first().len() as int) =~= s.subrange(
            i,
            s.len() as int,
        ));
    } else {
        assert(s.subrange(0, s.len() as int) =~= s);
    }
}

/// Trimming a string that starts with a non-space and ends with `k` spaces.
proof fn lemma_trim_back(s: Seq<char>, j: int)
    requires
        0 < j <= s.len(),
        !is_white_space(s[0]),
        forall|k: int| j <= k < s.len() ==> is_white_space(#[trigger] s[k]),
    ensures
        trimmed(s) == trimmed(s.subrange(0, j)),
    decreases s.len() - j,
{
    if j < s.len() {
        lemma_trim_back(s.drop_last(), j);
        assert(s.drop_last().subrange(0, j) =~= s.subrange(0, j));
    } else {
        assert(s.subrange(0, j) =~= s);
    }
}

/// A trimmed text is empty or starts and ends with a non-space, and trimming
/// it again changes nothing.
pub proof fn lemma_trimmed_is_trimmed(s: Seq<char>)
    ensures
        trimmed(s).len() == 0 || (!is_white_space(trimmed(s)[0]) && !is_white_space(
            trimmed(s).last(),
        )),
        trimmed(trimmed(s)) == trimmed(s),
    decreases s.len(),
{
    if s.len() > 0 && is_white_space(s[0]) {
        lemma_trimmed_is_trimmed(s.drop_first());
    } else if s.len() > 0 && is_white_space(s.last()) {
        lemma_trimmed_is_trimmed(s.drop_last());
    }
}

/// Where the trimmed text lies in `s`: from `i` to `j`, with only white
/// space before and after.
proof fn trim_bounds(s: Seq<char>) -> (r: (int, int))
    ensures
        0 <= r.0 <= r.1 <= s.len(),
        trimmed(s) == s.subrange(r.0, r.1),
        forall|k: int| 0 <= k < r.0 ==> is_white_space(#[trigger] s[k]),
        forall|k: int| r.1 <= k < s.len() ==> is_white_space(#[trigger] s[k]),
    decreases s.len(),
{
    if s.len() > 0 && is_white_space(s[0]) {
        let r = s.drop_first();
        let (i, j) = trim_bounds(r);
        assert(r.subrange(i, j) =~= s.subrange(i + 1, j + 1));
        assert forall|k: int| 0 <= k < i + 1 implies is_white_space(#[trigger] s[k]) by {
            if k > 0 {
                assert(s[k] == r[k - 1]);
            }
        }
        assert forall|k: int| j + 1 <= k < s.len() implies is_white_space(#[trigger] s[k]) by {
            assert(s[k] == r[k - 1]);
        }
        (i + 1, j + 1)
    } else if s.len() > 0 && is_white_space(s.last()) {
        let r = s.drop_last();
        let (i, j) = trim_bounds(r);
        assert(r.subrange(i, j) =~= s.subrange(i, j));
        assert forall|k: int| 0 <= k < i implies is_white_space(#[trigger] s[k]) by {
            assert(s[k] == r[k]);
        }
        assert forall|k: int| j <= k < s.len() implies is_white_space(#[trigger] s[k]) by {
            if k < s.len() - 1 {
                assert(s[k] == r[k]);
            }
        }
        (i, j)
    } else {
        assert(s.subrange(0, s.len() as int) =~= s);
        (0, s.len() as int)
    }
}

/// Trimming takes away white space at both ends and nothing else: what is
/// left is a run of `s` with only white space before and after it, and it
/// begins and ends with a non-space unless it is empty.
pub proof fn law_trim_removes_only_outer_space(s: Seq<char>)
    ensures
        exists|i: int, j: int|
            0 <= i <= j <= s.len() && trimmed(s) == s.subrange(i, j) && (forall|k: int|
                0 <= k < i ==> is_white_space(#[trigger] s[k])) && (forall|k: int|
                j <= k < s.len() ==> is_white_space(#[trigger] s[k])),
        trimmed(s).len() == 0 || (!is_white_space(trimmed(s)[0]) && !is_white_space(
            trimmed(s).last(),
        )),
{
    lemma_trimmed_is_trimmed(s);
    let (i, j) = trim_bounds(s);
    assert(0 <= i <= j <= s.len() && trimmed(s) == s.subrange(i, j) && (forall|k: int|
        0 <= k < i ==> is_white_space(#[trigger] s[k])) && (forall|k: int|
        j <= k < s.len() ==> is_white_space(#[trigger] s[k])));
}

/// `s` with leading and trailing white space removed.
pub fn trim(s: &str) -> (r: String)
    ensures
        r@ == trimmed(s@),
{
    let v = chars_of(s);
    let n = v.len();
    let mut i: usize = 0;
    while i < n && white_space(v[i])
        invariant
            i <= n,
            n == v@.len(),
            v@ == s@,
            forall|k: int| 0 <= k < i ==> is_white_space(#[trigger] v@[k]),
        decreases n - i,
    {
        i = i + 1;
    }
    proof {
        lemma_trim_front(s@, i as int);
    }
    if i == n {
        assert(s@.subrange(i as int, n as int) =~= Seq::<char>::empty());
        return String::new();
    }
    let mut j: usize = n;
    while j > i + 1 && white_space(v[j - 1])
        invariant
            i < j <= n,
            n == v@.len(),
            v@ == s@,
            forall|k: int| j <= k < n ==> is_white_space(#[trigger] v@[k]),
        decreases j,
    {
        j = j - 1;
    }
    let ghost t = s@.subrange(i as int, n as int);
    proof {
        lemma_trim_back(t, j - i);
        assert(t.subrange(0, j - i) =~= s@.subrange(i as int, j as int));
        let u = s@.subrange(i as int, j as int);
        assert(!is_white_space(u[0]));
        assert(!is_white_space(u.last()));
    }
    substring(s, i, j)
}

/// Decimal digits of `n`, most significant first, without leading zeros.
pub open spec fn decimal(n: nat) -> Seq<char>
    decreases n,
{
    if n < 10 {
        seq![digit_char(n)]
    } else {
        decimal(n / 10).push(digit_char(n % 10))
    }
}

/// The lower-case hexadecimal digit for `d < 16`.
pub open spec fn digit_char(d: nat) -> char {
    if d < 10 {
        ((48 + d) as u8) as char
    } else {
        ((87 + d) as u8) as char
    }
}

/// The last `k` hexadecimal digits of `n`, lower case, zero padded.
pub open spec fn hex_digits(n: nat, k: nat) -> Seq<char>
    decreases k,
{
    if k == 0 {
        Seq::empty()
    } else {
        hex_digits(n / 16, (k - 1) as nat).push(digit_char(n % 16))
    }
}

/// The value of a digit character: `0`-`9` and then `a`-`f`.
pub open spec fn digit_value(c: char) -> int {
    if '0' <= c && c <= '9' {
        c as int - '0' as int
    } else {
        c as int - 'a' as int + 10
    }
}

/// A decimal digit.
pub open spec fn is_decimal_digit(c: char) -> bool {
    '0' <= c && c <= '9'
}

/// A lower-case hexadecimal digit.
pub open spec fn is_hex_digit(c: char) -> bool {
    ('0' <= c && c <= '9') || ('a' <= c && c <= 'f')
}

/// The number that the digits `s` write in base `b`, most significant first.
pub open spec fn value_in_base(s: Seq<char>, b: int) -> int
    decreases s.len(),
{
    if s.len() == 0 {
        0
    } else {
        value_in_base(s.drop_last(), b) * b + digit_value(s.last())
    }
}

pub open spec fn pow16(k: nat) -> int
    decreases k,
{
    if k == 0 {
        1
    } else {
        16 * pow16((k - 1) as nat)
    }
}

proof fn lemma_digit_char(d: nat)
    requires
        d < 16,
    ensures
        digit_value(digit_char(d)) == d,
        is_hex_digit(digit_char(d)),
        d < 10 ==> is_decimal_digit(digit_char(d)),
        d > 0 ==> digit_char(d) != '0',
{
    if d < 10 {
        assert(((48 + d) as u8) as char as u32 == 48 + d);
    } else {
        assert(((87 + d) as u8) as char as u32 == 87 + d);
    }
}

/// `n` in decimal is a non-empty run of decimal digits, without a leading
/// zero unless it is `0` itself, that reads back as `n`.
pub proof fn law_decimal_reads_back(n: nat)
    ensures
        decimal(n).len() > 0,
        forall|i: int| 0 <= i < decimal(n).len() ==> is_decimal_digit(#[trigger] decimal(n)[i]),
        value_in_base(decimal(n), 10) == n,
        decimal(n).len() > 1 ==> decimal(n)[0] != '0',
        n >= 10 ==> decimal(n).len() > 1,
        n == 0 ==> decimal(n) == seq!['0'],
    decreases n,
{
    lemma_digit_char(n % 10);
    if n < 10 {
        assert(decimal(n).drop_last() =~= Seq::<char>::empty());
        assert(value_in_base(Seq::<char>::empty(), 10) == 0);
        assert(value_in_base(decimal(n), 10) == digit_value(digit_char(n)));
    }
    if n >= 10 {
        law_decimal_reads_back(n / 10);
        let d = decimal(n);
        assert(d.drop_last() == decimal(n / 10));
        assert forall|i: int| 0 <= i < d.len() implies is_decimal_digit(#[trigger] d[i]) by {
            if i < d.len() - 1 {
                assert(d[i] == decimal(n / 10)[i]);
            }
        }
        assert(decimal(n / 10)[0] != '0') by {
            if n / 10 < 10 {
                lemma_digit_char(n / 10);
                assert(decimal(n / 10)[0] == digit_char(n / 10));
            }
        }
        assert(d.last() == digit_char(n % 10));
        assert((n / 10) * 10 + n % 10 == n);
        assert(value_in_base(d, 10) == value_in_base(decimal(n / 10), 10) * 10 + digit_value(
            digit_char(n % 10),
        ));
        assert(d[0] == decimal(n / 10)[0]);
    }
}

/// The last `k` hexadecimal digits of `n` are `k` lower-case hexadecimal
/// digits that read back as `n` modulo 16 to the `k`: the whole of `n` when
/// it is below that.
pub proof fn law_hex_digits_read_back(n: nat, k: nat)
    ensures
        hex_digits(n, k).len() == k,
        forall|i: int| 0 <= i < k ==> is_hex_digit(#[trigger] hex_digits(n, k)[i]),
        value_in_base(hex_digits(n, k), 16) == (n as int) % pow16(k),
        n < pow16(k) ==> value_in_base(hex_digits(n, k), 16) == n,
    decreases k,
{
    if k > 0 {
        let k1 = (k - 1) as nat;
        lemma_digit_char(n % 16);
        law_hex_digits_read_back(n / 16, k1);
        let h = hex_digits(n, k);
        assert(h.drop_last() == hex_digits(n / 16, k1));
        assert forall|i: int| 0 <= i < k implies is_hex_digit(#[trigger] h[i]) by {
            if i < k - 1 {
                assert(h[i] == hex_digits(n / 16, k1)[i]);
            }
        }
        assert(pow16(k1) > 0) by {
            lemma_pow16_positive(k1);
        }
        vstd::arithmetic::div_mod::lemma_breakdown(n as int, 16, pow16(k1));
        assert(value_in_base(h, 16) == (n / 16) as int % pow16(k1) * 16 + n as int % 16);
    }
    assert(pow16(k) > 0) by {
        lemma_pow16_positive(k);
    }
    if n < pow16(k) {
        vstd::arithmetic::div_mod::lemma_small_mod(n, pow16(k) as nat);
    }
}

proof fn lemma_pow16_positive(k: nat)
    ensures
        pow16(k) > 0,
    decreases k,
{
    if k > 0 {
        lemma_pow16_positive((k - 1) as nat);
    }
}

/// The digit `d < 16` as a string.
fn digit_str(d: u64) -> (s: &'static str)
    requires
        d < 16,
    ensures
        s@ == seq![digit_char(d as nat)],
{
    match d {
        0 => {
            proof {
                reveal_strlit("0");
            }
            "0"
        },
        1 => {
            proof {
                reveal_strlit("1");
            }
            "1"
        },
        2 => {
            proof {
                reveal_strlit("2");
            }
            "2"
        },
        3 => {
            proof {
                reveal_strlit("3");
            }
            "3"
        },
        4 => {
            proof {
                reveal_strlit("4");
            }
            "4"
        },
        5 => {
            proof {
                reveal_strlit("5");
            }
            "5"
        },
        6 => {
            proof {
                reveal_strlit("6");
            }
            "6"
        },
        7 => {
            proof {
                reveal_strlit("7");
            }
            "7"
        },
        8 => {
            proof {
                reveal_strlit("8");
            }
            "8"
        },
        9 => {
            proof {
                reveal_strlit("9");
            }
            "9"
        },
        10 => {
            proof {
                reveal_strlit("a");
            }
            "a"
        },
        11 => {
            proof {
                reveal_strlit("b");
            }
            "b"
        },
        12 => {
            proof {
                reveal_strlit("c");
            }
            "c"
        },
        13 => {
            proof {
                reveal_strlit("d");
            }
            "d"
        },
        14 => {
            proof {
                reveal_strlit("e");
            }
            "e"
        },
        _ => {
            proof {
                reveal_strlit("f");
            }
            "f"
        },
    }
}

/// `n` in decimal.
pub fn decimal_string(n: u64) -> (s: String)
    ensures
        s@ == decimal(n as nat),
{
    let mut digits: Vec<u64> = Vec::new();
    let mut m = n;
    let ghost mut rest: Seq<char> = Seq::empty();
    loop
        invariant_except_break
            decimal(n as nat) == decimal(m as nat) + rest,
            rest.len() == digits@.len(),
            forall|k: int|
                0 <= k < digits@.len() ==> digits@[k] < 10 && rest[rest.len() - 1 - k]
                    == digit_char(#[trigger] digits@[k] as nat),
        ensures
            decimal(n as nat) == rest,
            rest.len() == digits@.len(),
            forall|k: int|
                0 <= k < digits@.len() ==> digits@[k] < 10 && rest[rest.len() - 1 - k]
                    == digit_char(#[trigger] digits@[k] as nat),
        decreases m,
    {
        if m < 10 {
            digits.push(m);
            proof {
                assert(decimal(m as nat) == seq![digit_char(m as nat)]);
                rest = seq![digit_char(m as nat)] + rest;
            }
            break;
        }
        digits.push(m % 10);
        proof {
            assert(decimal(m as nat) == decimal((m / 10) as nat).push(digit_char((m % 10) as nat)));
            assert(decimal((m / 10) as nat).push(digit_char((m % 10) as nat)) + rest =~= decimal(
                (m / 10) as nat,
            ) + (seq![digit_char((m % 10) as nat)] + rest));
            rest = seq![digit_char((m % 10) as nat)] + rest;
        }
        m = m / 10;
    }
    let mut s = String::new();
    let mut i = digits.len();
    while i > 0
        invariant
            i <= digits@.len(),
            rest.len() == digits@.len(),
            s@ == rest.take(digits@.len() - i),
            forall|k: int|
                0 <= k < digits@.len() ==> digits@[k] < 10 && rest[rest.len() - 1 - k]
                    == digit_char(#[trigger] digits@[k] as nat),
        decreases i,
    {
        i = i - 1;
        let d = digit_str(digits[i]);
        s.append(d);
        assert(s@ =~= rest.take(digits@.len() - i));
    }
    assert(rest.take(rest.len() as int) =~= rest);
    s
}

/// The last `width` hexadecimal digits of `n`, lower case, zero padded.
pub fn hex_string(n: u64, width: usize) -> (s: String)
    ensures
        s@ == hex_digits(n as nat, width as nat),
{
    let mut digits: Vec<u64> = Vec::new();
    let mut m = n;
    let mut k: usize = 0;
    while k < width
        invariant
            k <= width,
            digits@.len() == k,
            hex_digits(n as nat, width as nat) == hex_digits(m as nat, (width - k) as nat) + Seq::new(
                k as nat,
                |j: int| digit_char(digits@[k - 1 - j] as nat),
            ),
            forall|j: int| 0 <= j < k ==> #[trigger] digits@[j] < 16,
        decreases width - k,
    {
        let ghost old_digits = digits@;
        digits.push(m % 16);
        proof {
            let w = (width - k) as nat;
            assert(hex_digits(m as nat, w) == hex_digits((m / 16) as nat, (w - 1) as nat).push(
                digit_char((m % 16) as nat),
            ));
            assert(hex_digits((m / 16) as nat, (w - 1) as nat).push(digit_char((m % 16) as nat))
                + Seq::new(k as nat, |j: int| digit_char(old_digits[k - 1 - j] as nat))
                =~= hex_digits((m / 16) as nat, (w - 1) as nat) + Seq::new(
                (k + 1) as nat,
                |j: int| digit_char(digits@[k - j] as nat),
            ));
        }
        m = m / 16;
        k = k + 1;
    }
    let mut s = String::new();
    let mut i = width;
    while i > 0
        invariant
            i <= width,
            digits@.len() == width,
            forall|j: int| 0 <= j < width ==> #[trigger] digits@[j] < 16,
            s@ == Seq::new((width - i) as nat, |j: int| digit_char(digits@[width - 1 - j] as nat)),
        decreases i,
    {
        i = i - 1;
        s.append(digit_str(digits[i]));
        assert(s@ =~= Seq::new((width - i) as nat, |j: int| digit_char(digits@[width - 1 - j] as nat)));
    }
    assert(hex_digits(m as nat, 0) =~= Seq::<char>::empty());
    assert(s@ =~= hex_digits(n as nat, width as nat));
    s
}

/// Position of the first `c` in `s`, or the length of `s` when there is none.
pub open spec fn first_pos(s: Seq<char>, c: char) -> nat
    decreases s.len(),
{
    if s.len() == 0 {
        0
    } else if s[0] == c {
        0
    } else {
        1 + first_pos(s.drop_first(), c)
    }
}

/// The part of `s` before the first `c` (all of `s` when there is none).
pub open spec fn before(s: Seq<char>, c: char) -> Seq<char> {
    s.take(first_pos(s, c) as int)
}

/// The part of `s` after the first `c`, if there is one.
pub open spec fn after(s: Seq<char>, c: char) -> Option<Seq<char>> {
    if first_pos(s, c) < s.len() {
        Some(s.skip(first_pos(s, c) as int + 1))
    } else {
        None
    }
}

pub open spec fn starts_with(s: Seq<char>, p: Seq<char>) -> bool {
    p.len() <= s.len() && s.take(p.len() as int) == p
}

/// `first_pos` is the first index holding `c`.
pub proof fn lemma_first_pos(s: Seq<char>, c: char, i: int)
    requires
        0 <= i <= s.len(),
        forall|k: int| 0 <= k < i ==> s[k] != c,
        i == s.len() || s[i] == c,
    ensures
        first_pos(s, c) == i,
    decreases i,
{
    if i > 0 {
        lemma_first_pos(s.drop_first(), c, i - 1);
    }
}

/// Index of the first `c` in `v[from..to]`, or `to` when there is none.
pub fn find_char(v: &Vec<char>, from: usize, to: usize, c: char) -> (r: usize)
    requires
        from <= to <= v.len(),
    ensures
        from <= r <= to,
        r == from + first_pos(v@.subrange(from as int, to as int), c),
        r < to ==> v@[r as int] == c,
{
    let mut i = from;
    while i < to && v[i] != c
        invariant
            from <= i <= to,
            to <= v.len(),
            forall|k: int| from <= k < i ==> v@[k] != c,
        decreases to - i,
    {
        i = i + 1;
    }
    proof {
        lemma_first_pos(v@.subrange(from as int, to as int), c, i - from);
    }
    i
}

/// Whether `v[from..to]` starts with `p`.
pub fn has_prefix(v: &Vec<char>, from: usize, to: usize, p: &Vec<char>) -> (b: bool)
    requires
        from <= to <= v.len(),
    ensures
        b == starts_with(v@.subrange(from as int, to as int), p@),
{
    if p.len() > to - from {
        return false;
    }
    let mut i: usize = 0;
    while i < p.len()
        invariant
            i <= p.len(),
            p.len() <= to - from,
            to <= v.len(),
            forall|k: int| 0 <= k < i ==> v@[from + k] == p@[k],
        decreases p.len() - i,
    {
        if v[from + i] != p[i] {
            assert(v@.subrange(from as int, to as int).take(p.len() as int)[i as int] != p@[i as int]);
            return false;
        }
        i = i + 1;
    }
    assert(v@.subrange(from as int, to as int).take(p.len() as int) =~= p@);
    true
}

} // verus!
