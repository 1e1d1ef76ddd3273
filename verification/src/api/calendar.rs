use vstd::prelude::*;

use crate::api::urlcodec::{url_decode, url_decoded, url_encode, url_encoded};
use crate::text::{
    after, before, chars_of, decimal, decimal_string, find_char, first_pos, has_prefix, hex_digits,
    hex_string, is_decimal_digit, law_decimal_reads_back, lemma_first_pos, starts_with, substring,
    value_in_base,
};

verus! {

broadcast use vstd::string::group_string_axioms;

/// An upcoming calendar event.
#[derive(Debug, Clone)]
pub struct CalendarEvent {
    pub title: String,
    pub start: String,
    pub end: String,
    pub location: Option<String>,
}

// ── OAuth helpers ───────────────────────────────────────────────────────────

/// The OAuth `state` value made from the sub-second nanoseconds of the clock:
/// eight lower-case hexadecimal digits.
pub fn random_state(subsec_nanos: u32) -> (s: String)
    ensures
        s@ == hex_digits(subsec_nanos as nat, 8),
{
    hex_string(subsec_nanos as u64, 8)
}

/// The address Google redirects to after authorization.
pub open spec fn redirect_uri_of(port: u16) -> Seq<char> {
    "http://127.0.0.1:"@ + decimal(port as nat)
}

/// Google redirects to the local callback server: the loopback address, and
/// after its colon the port in decimal digits that read back as the port.
pub proof fn law_redirect_uri(port: u16)
    ensures
        redirect_uri_of(port).take(17) == "http://127.0.0.1:"@,
        value_in_base(redirect_uri_of(port).skip(17), 10) == port,
        forall|i: int|
            17 <= i < redirect_uri_of(port).len() ==> is_decimal_digit(#[trigger] redirect_uri_of(port)[i]),
{
    reveal_strlit("http://127.0.0.1:");
    let u = redirect_uri_of(port);
    let d = decimal(port as nat);
    law_decimal_reads_back(port as nat);
    assert(u.take(17) =~= "http://127.0.0.1:"@);
    assert(u.skip(17) =~= d);
    assert forall|i: int| 17 <= i < u.len() implies is_decimal_digit(#[trigger] u[i]) by {
        assert(u[i] == d[i - 17]);
    }
}

pub fn redirect_uri(port: u16) -> (s: String)
    ensures
        s@ == redirect_uri_of(port),
{
    let mut s = String::from_str("http://127.0.0.1:");
    let digits = decimal_string(port as u64);
    s.append(digits.as_str());
    s
}

/// The permission asked for: read-only access to the calendar.
pub open spec fn calendar_scope() -> Seq<char> {
    "https://www.googleapis.com/auth/calendar.readonly"@
}

/// The Google authorization page for this client, redirect address and state.
pub open spec fn auth_url(client_id: Seq<char>, redirect_uri: Seq<char>, state: Seq<char>) -> Seq<
    char,
> {
    "https://accounts.google.com/o/oauth2/v2/auth?client_id="@ + url_encoded(client_id)
        + "&redirect_uri="@ + url_encoded(redirect_uri) + "&response_type=code&scope="@
        + url_encoded(calendar_scope()) + "&state="@ + url_encoded(state)
        + "&access_type=offline&prompt=consent"@
}

/// The authorization page is Google's, for this client; it asks for
/// read-only calendar access with a refresh token (offline access, consent
/// asked again), and ends with the state to be checked on the way back.
pub proof fn law_auth_url(client_id: Seq<char>, redirect_uri: Seq<char>, state: Seq<char>)
    ensures
        ({
            let u = auth_url(client_id, redirect_uri, state);
            let head = "https://accounts.google.com/o/oauth2/v2/auth?client_id="@ + url_encoded(client_id);
            let tail = "&state="@ + url_encoded(state) + "&access_type=offline&prompt=consent"@;
            &&& u.take(head.len() as int) == head
            &&& u.skip(u.len() - tail.len()) == tail
            &&& exists|mid: Seq<char>| u == head + mid + tail
            &&& calendar_scope() == "https://www.googleapis.com/auth/calendar.readonly"@
        }),
{
    let u = auth_url(client_id, redirect_uri, state);
    let head = "https://accounts.google.com/o/oauth2/v2/auth?client_id="@ + url_encoded(client_id);
    let tail = "&state="@ + url_encoded(state) + "&access_type=offline&prompt=consent"@;
    let mid = "&redirect_uri="@ + url_encoded(redirect_uri) + "&response_type=code&scope="@
        + url_encoded(calendar_scope());
    assert(u =~= head + mid + tail);
    assert(u.take(head.len() as int) =~= head);
    assert(u.skip(u.len() - tail.len()) =~= tail);
}

pub fn build_auth_url(client_id: &str, redirect_uri: &str, state: &str) -> (url: String)
    ensures
        url@ == auth_url(client_id@, redirect_uri@, state@),
{
    let mut url = String::from_str("https://accounts.google.com/o/oauth2/v2/auth?client_id=");
    url.append(url_encode(client_id).as_str());
    url.append("&redirect_uri=");
    url.append(url_encode(redirect_uri).as_str());
    url.append("&response_type=code&scope=");
    url.append(url_encode("https://www.googleapis.com/auth/calendar.readonly").as_str());
    url.append("&state=");
    url.append(url_encode(state).as_str());
    url.append("&access_type=offline&prompt=consent");
    url
}

/// The first line of `s` as `str::lines` gives it: up to the first `\n`, a
/// `\r` before it dropped; `None` for an empty text.
pub open spec fn first_line(s: Seq<char>) -> Option<Seq<char>> {
    if s.len() == 0 {
        None
    } else {
        let l = before(s, '\n');
        if first_pos(s, '\n') < s.len() && l.len() > 0 && l.last() == '\r' {
            Some(l.drop_last())
        } else {
            Some(l)
        }
    }
}

/// The rest of the first `&`-separated field of `query` that starts with
/// `prefix`, with the prefix removed.
pub open spec fn field_value(query: Seq<char>, prefix: Seq<char>) -> Option<Seq<char>>
    decreases query.len(),
{
    let field = before(query, '&');
    if starts_with(field, prefix) {
        Some(field.skip(prefix.len() as int))
    } else {
        match after(query, '&') {
            Some(rest) => if rest.len() < query.len() {
                field_value(rest, prefix)
            } else {
                None
            },
            None => None,
        }
    }
}

/// The value of query parameter `name` in the request line of an HTTP
/// request (`GET /?code=X&state=Y HTTP/1.1`), percent-decoded; a value whose
/// decoding is not UTF-8 gives the empty text.
pub open spec fn query_param(request: Seq<char>, name: Seq<char>) -> Option<Seq<char>> {
    match first_line(request) {
        None => None,
        Some(line) => match after(line, '?') {
            None => None,
            Some(rest) => {
                let query = before(before(rest, '?'), ' ');
                match field_value(query, name.push('=')) {
                    None => None,
                    Some(v) => Some(
                        match url_decoded(v) {
                            Some(d) => d,
                            None => Seq::empty(),
                        },
                    ),
                }
            },
        },
    }
}

proof fn lemma_before_after(v: Seq<char>, from: int, to: int, c: char, r: int)
    requires
        0 <= from <= to <= v.len(),
        r == from + first_pos(v.subrange(from, to), c),
    ensures
        before(v.subrange(from, to), c) == v.subrange(from, r),
        r < to ==> after(v.subrange(from, to), c) == Some(v.subrange(r + 1, to)),
        r >= to ==> after(v.subrange(from, to), c) is None,
{
    let s = v.subrange(from, to);
    assert(first_pos(s, c) <= s.len()) by {
        lemma_first_pos_le(s, c);
    }
    assert(s.take(r - from) =~= v.subrange(from, r));
    if r < to {
        assert(s.skip(r - from + 1) =~= v.subrange(r + 1, to));
    }
}

proof fn lemma_first_pos_le(s: Seq<char>, c: char)
    ensures
        first_pos(s, c) <= s.len(),
    decreases s.len(),
{
    if s.len() > 0 {
        lemma_first_pos_le(s.drop_first(), c);
    }
}

/// The value of query parameter `name` in the request line of `request`.
pub fn extract_query_param(request: &str, name: &str) -> (r: Option<String>)
    ensures
        match r {
            Some(v) => query_param(request@, name@) == Some(v@),
            None => query_param(request@, name@) is None,
        },
{
    let v = chars_of(request);
    let n = v.len();
    if n == 0 {
        return None;
    }
    assert(v@.subrange(0, n as int) =~= v@);
    let nl = find_char(&v, 0, n, '\n');
    proof {
        lemma_before_after(v@, 0, n as int, '\n', nl as int);
    }
    let line_end = if nl < n && nl > 0 && v[nl - 1] == '\r' {
        nl - 1
    } else {
        nl
    };
    let ghost line = v@.subrange(0, line_end as int);
    assert(first_line(request@) == Some(line)) by {
        if nl < n && nl > 0 && v@[nl - 1] == '\r' {
            assert(v@.subrange(0, nl as int).drop_last() =~= line);
        }
    }
    let q = find_char(&v, 0, line_end, '?');
    proof {
        lemma_before_after(v@, 0, line_end as int, '?', q as int);
    }
    if q == line_end {
        return None;
    }
    let qs = q + 1;
    let q2 = find_char(&v, qs, line_end, '?');
    proof {
        lemma_before_after(v@, qs as int, line_end as int, '?', q2 as int);
    }
    let sp = find_char(&v, qs, q2, ' ');
    proof {
        lemma_before_after(v@, qs as int, q2 as int, ' ', sp as int);
    }
    let ghost query = v@.subrange(qs as int, sp as int);
    let mut prefix = chars_of(name);
    prefix.push('=');
    let mut start = qs;
    loop
        invariant
            qs <= start <= sp,
            sp <= n,
            n == v@.len(),
            v@ == request@,
            prefix@ == name@.push('='),
            query_param(request@, name@) == match field_value(
                v@.subrange(start as int, sp as int),
                prefix@,
            ) {
                None => None,
                Some(x) => Some(
                    match url_decoded(x) {
                        Some(d) => d,
                        None => Seq::empty(),
                    },
                ),
            },
        decreases sp - start,
    {
        let amp = find_char(&v, start, sp, '&');
        proof {
            lemma_before_after(v@, start as int, sp as int, '&', amp as int);
        }
        if has_prefix(&v, start, amp, &prefix) {
            let raw = substring(request, start + prefix.len(), amp);
            assert(v@.subrange(start as int, amp as int).skip(prefix@.len() as int) =~= raw@);
            return match url_decode(raw.as_str()) {
                Some(d) => Some(d),
                None => Some(String::new()),
            };
        }
        if amp == sp {
            return None;
        }
        start = amp + 1;
    }
}

/// Why the authorization callback was refused.
#[derive(Debug, Clone, Copy, PartialEq, Eq, Structural)]
pub enum CallbackError {
    /// The request carries no `code` parameter.
    NoCode,
    /// The `state` parameter is not the one sent (possible CSRF).
    StateMismatch,
}

impl CallbackError {
    pub fn message(self) -> (m: &'static str)
        ensures
            self == CallbackError::NoCode ==> m@ == "No authorization code received from Google"@,
            self == CallbackError::StateMismatch ==> m@ == "OAuth state mismatch (possible CSRF)"@,
    {
        match self {
            CallbackError::NoCode => "No authorization code received from Google",
            CallbackError::StateMismatch => "OAuth state mismatch (possible CSRF)",
        }
    }
}

/// What the authorization callback request yields: the code, when the
/// request has one and its state (empty when missing) is the expected one.
pub open spec fn callback_outcome(request: Seq<char>, expected_state: Seq<char>) -> Result<
    Seq<char>,
    CallbackError,
> {
    match query_param(request, "code"@) {
        None => Err(CallbackError::NoCode),
        Some(code) => {
            let state = match query_param(request, "state"@) {
                Some(s) => s,
                None => Seq::empty(),
            };
            if state == expected_state {
                Ok(code)
            } else {
                Err(CallbackError::StateMismatch)
            }
        },
    }
}

/// The callback gives the code exactly when the request carries a `code`
/// parameter and its `state` parameter (empty when missing) is the state that
/// was sent; a request without a code is refused as such, and one with a
/// code and another state as a mismatch.
pub proof fn law_callback_checks_state(request: Seq<char>, expected: Seq<char>)
    ensures
        ({
            let state = match query_param(request, "state"@) {
                Some(s) => s,
                None => Seq::<char>::empty(),
            };
            &&& query_param(request, "code"@) is None ==> callback_outcome(request, expected) == Err::<
                Seq<char>,
                CallbackError,
            >(CallbackError::NoCode)
            &&& query_param(request, "code"@) matches Some(c) ==> (state == expected
                ==> callback_outcome(request, expected) == Ok::<Seq<char>, CallbackError>(c))
            &&& query_param(request, "code"@) is Some ==> (state != expected ==> callback_outcome(
                request,
                expected,
            ) == Err::<Seq<char>, CallbackError>(CallbackError::StateMismatch))
            &&& callback_outcome(request, expected) is Ok ==> state == expected
        }),
{
}

/// A query field is found in the first `&`-separated piece that starts with
/// the prefix: a piece that does is taken without the prefix, one that does
/// not passes the search on to the rest.
pub proof fn law_field_value_first_match(f: Seq<char>, rest: Seq<char>, prefix: Seq<char>)
    requires
        !f.contains('&'),
    ensures
        starts_with(f, prefix) ==> field_value(f, prefix) == Some(f.skip(prefix.len() as int))
            && field_value(f + seq!['&'] + rest, prefix) == Some(f.skip(prefix.len() as int)),
        !starts_with(f, prefix) ==> field_value(f, prefix) is None && field_value(
            f + seq!['&'] + rest,
            prefix,
        ) == field_value(rest, prefix),
{
    let s = f + seq!['&'] + rest;
    assert forall|k: int| 0 <= k < f.len() implies f[k] != '&' by {
        if f[k] == '&' {
            assert(f.contains('&'));
        }
    }
    assert forall|k: int| 0 <= k < f.len() implies s[k] != '&' by {
        assert(s[k] == f[k]);
    }
    lemma_first_pos(f, '&', f.len() as int);
    lemma_first_pos(s, '&', f.len() as int);
    assert(f.take(f.len() as int) =~= f);
    assert(before(s, '&') =~= f);
    assert(s.skip(f.len() as int + 1) =~= rest);
}

/// A failed HTTP call is reported as what failed, a space, the status, a
/// colon and a space, and the body of the answer.
pub proof fn law_http_error_text(what: Seq<char>, status: Seq<char>, body: Seq<char>)
    ensures
        http_error_text(what, status, body) == what + seq![' '] + status + seq![':', ' '] + body,
{
    reveal_strlit(" ");
    reveal_strlit(": ");
    assert(" "@ =~= seq![' ']);
    assert(": "@ =~= seq![':', ' ']);
}

/// Checks the request that the browser sent to the local callback server.
pub fn callback_code(request: &str, expected_state: &str) -> (r: Result<String, CallbackError>)
    ensures
        match r {
            Ok(code) => callback_outcome(request@, expected_state@) == Ok::<
                Seq<char>,
                CallbackError,
            >(code@),
            Err(e) => callback_outcome(request@, expected_state@) == Err::<Seq<char>, CallbackError>(
                e,
            ),
        },
{
    let code = match extract_query_param(request, "code") {
        Some(c) => c,
        None => {
            return Err(CallbackError::NoCode);
        },
    };
    let state = match extract_query_param(request, "state") {
        Some(s) => s,
        None => String::new(),
    };
    let expected = String::from_str(expected_state);
    if state == expected {
        Ok(code)
    } else {
        Err(CallbackError::StateMismatch)
    }
}

// ── tokens ──────────────────────────────────────────────────────────────────

/// Tokens kept between runs.
#[derive(Debug, Clone)]
pub struct StoredTokens {
    pub access_token: String,
    pub refresh_token: String,
    /// Unix seconds.
    pub expires_at: i64,
}

/// The token endpoint's answer.
#[derive(Debug, Clone)]
pub struct TokenResponse {
    pub access_token: String,
    pub refresh_token: Option<String>,
    pub expires_in: Option<u64>,
}

/// Lifetime assumed when the token endpoint does not give one: an hour.
pub const DEFAULT_EXPIRES_IN: u64 = 3600u64;

/// The lifetime the endpoint gave, or an hour, as the signed number of seconds
/// it is read as.
pub open spec fn lifetime(expires_in: Option<u64>) -> i64 {
    match expires_in {
        Some(e) => e as i64,
        None => DEFAULT_EXPIRES_IN as i64,
    }
}

/// When a token obtained at `now` expires.
pub fn token_expiry(now: i64, expires_in: Option<u64>) -> (t: i64)
    requires
        i64::MIN <= now + lifetime(expires_in) <= i64::MAX,
    ensures
        t == now + lifetime(expires_in),
{
    let e = match expires_in {
        Some(e) => e,
        None => DEFAULT_EXPIRES_IN,
    };
    now + #[verifier::truncate] (e as i64)
}

/// The tokens kept after a code exchange answered at `now`; a missing refresh
/// token is kept as the empty text.
pub fn tokens_from_response(resp: TokenResponse, now: i64) -> (t: StoredTokens)
    requires
        i64::MIN <= now + lifetime(resp.expires_in) <= i64::MAX,
    ensures
        t.access_token == resp.access_token,
        t.refresh_token@ == match resp.refresh_token {
            Some(r) => r@,
            None => Seq::<char>::empty(),
        },
        t.expires_at == now + lifetime(resp.expires_in),
{
    let expires_at = token_expiry(now, resp.expires_in);
    let refresh_token = match resp.refresh_token {
        Some(r) => r,
        None => String::new(),
    };
    StoredTokens { access_token: resp.access_token, refresh_token, expires_at }
}

/// What to do to get an access token.
#[derive(Debug)]
pub enum TokenPlan {
    /// The stored access token is still good.
    UseStored(String),
    /// Ask for a new access token with this refresh token.
    Refresh(String),
    /// Run the browser authorization.
    Authorize,
}

/// A stored token is used while it has more than a minute left; otherwise a
/// refresh is tried when there is a refresh token, and the browser flow runs
/// when there is not (or nothing is stored).
pub open spec fn token_plan_for(stored: Option<StoredTokens>, now: i64) -> TokenPlan {
    match stored {
        None => TokenPlan::Authorize,
        Some(t) => if t.expires_at > now + 60 {
            TokenPlan::UseStored(t.access_token)
        } else if t.refresh_token@.len() > 0 {
            TokenPlan::Refresh(t.refresh_token)
        } else {
            TokenPlan::Authorize
        },
    }
}

/// Same plan, texts compared by content.
pub open spec fn same_plan(a: TokenPlan, b: TokenPlan) -> bool {
    match (a, b) {
        (TokenPlan::UseStored(x), TokenPlan::UseStored(y)) => x@ == y@,
        (TokenPlan::Refresh(x), TokenPlan::Refresh(y)) => x@ == y@,
        (TokenPlan::Authorize, TokenPlan::Authorize) => true,
        _ => false,
    }
}

pub fn token_plan(stored: &Option<StoredTokens>, now: i64) -> (p: TokenPlan)
    ensures
        same_plan(p, token_plan_for(*stored, now)),
{
    match stored {
        None => TokenPlan::Authorize,
        Some(t) => {
            if (t.expires_at as i128) > (now as i128) + 60 {
                TokenPlan::UseStored(t.access_token.clone())
            } else if t.refresh_token.unicode_len() > 0 {
                TokenPlan::Refresh(t.refresh_token.clone())
            } else {
                TokenPlan::Authorize
            }
        },
    }
}

/// A stored token is used while it has more than a minute left. Once it has a
/// minute or less, it is refreshed whenever a refresh token is stored, and the
/// browser sign-in runs only when none is (or when nothing is stored).
pub proof fn law_token_plan(stored: Option<StoredTokens>, now: i64)
    ensures
        stored is None ==> token_plan_for(stored, now) == TokenPlan::Authorize,
        stored matches Some(t) ==> {
            &&& t.expires_at > now + 60 ==> token_plan_for(stored, now) == TokenPlan::UseStored(
                t.access_token,
            )
            &&& (t.expires_at <= now + 60 && t.refresh_token@.len() > 0) ==> token_plan_for(stored, now)
                == TokenPlan::Refresh(t.refresh_token)
            &&& (t.expires_at <= now + 60 && t.refresh_token@.len() == 0) ==> token_plan_for(
                stored,
                now,
            ) == TokenPlan::Authorize
        },
{
}

/// A token whose lifetime the endpoint does not give lasts an hour; one whose
/// lifetime it gives lasts that many seconds.
pub proof fn law_token_lifetime(expires_in: Option<u64>)
    ensures
        expires_in is None ==> lifetime(expires_in) == 3600,
        expires_in matches Some(e) ==> (e <= i64::MAX ==> lifetime(expires_in) == e),
{
}

/// The tokens kept after a successful refresh: the new access token and
/// expiry, the old refresh token.
pub fn refreshed_tokens(stored: StoredTokens, access_token: String, expires_at: i64) -> (t:
    StoredTokens)
    ensures
        t.access_token == access_token,
        t.refresh_token == stored.refresh_token,
        t.expires_at == expires_at,
{
    StoredTokens { access_token, refresh_token: stored.refresh_token, expires_at }
}

/// The error text of a failed HTTP call: what failed, the status, the body.
pub open spec fn http_error_text(what: Seq<char>, status: Seq<char>, body: Seq<char>) -> Seq<char> {
    what + " "@ + status + ": "@ + body
}

pub fn http_error_message(what: &str, status: &str, body: &str) -> (m: String)
    ensures
        m@ == http_error_text(what@, status@, body@),
{
    let mut m = String::from_str(what);
    m.append(" ");
    m.append(status);
    m.append(": ");
    m.append(body);
    m
}

/// The error when the client credentials are not configured.
pub open spec fn missing_credentials_text() -> Seq<char> {
    "GOOGLE_CLIENT_ID / GOOGLE_CLIENT_SECRET not set in .env"@
}

/// The calendar cannot be fetched without both client credentials.
pub fn credentials_error(client_id: &str, client_secret: &str) -> (e: Option<String>)
    ensures
        (client_id@.len() == 0 || client_secret@.len() == 0) ==> (e matches Some(m)
            && m@ == missing_credentials_text()),
        (client_id@.len() > 0 && client_secret@.len() > 0) ==> e is None,
{
    if client_id.unicode_len() == 0 || client_secret.unicode_len() == 0 {
        Some(String::from_str("GOOGLE_CLIENT_ID / GOOGLE_CLIENT_SECRET not set in .env"))
    } else {
        None
    }
}

// ── events ──────────────────────────────────────────────────────────────────

/// Start or end of an event as the Calendar API gives it.
#[derive(Debug, Clone)]
pub struct EventTime {
    pub date_time: Option<String>,
    pub date: Option<String>,
}

/// An event as the Calendar API gives it.
#[derive(Debug, Clone)]
pub struct GCalEvent {
    pub summary: Option<String>,
    pub start: EventTime,
    pub end: EventTime,
    pub location: Option<String>,
}

/// The Calendar API's list of events.
#[derive(Debug, Clone)]
pub struct EventList {
    pub items: Vec<GCalEvent>,
}

/// Number of bytes of the UTF-8 encoding of `c`.
pub open spec fn utf8_width(c: char) -> int {
    if (c as u32) < 0x80 {
        1
    } else if (c as u32) < 0x800 {
        2
    } else if (c as u32) < 0x10000 {
        3
    } else {
        4
    }
}

/// The number of characters that make up the first `n` bytes of the UTF-8
/// encoding of `s`; `None` when `s` is shorter or byte `n` is inside a character.
pub open spec fn chars_in_bytes(s: Seq<char>, n: int) -> Option<nat>
    decreases s.len(),
{
    if n == 0 {
        Some(0)
    } else if n < 0 || s.len() == 0 {
        None
    } else {
        match chars_in_bytes(s.drop_first(), n - utf8_width(s[0])) {
            Some(k) => Some(k + 1),
            None => None,
        }
    }
}

/// In a text of ASCII characters, each character is one byte: the first `n`
/// bytes are the first `n` characters, and there are no more bytes than
/// characters.
pub proof fn lemma_ascii_chars_in_bytes(s: Seq<char>, n: int)
    requires
        forall|k: int| 0 <= k < s.len() ==> (#[trigger] s[k] as u32) < 0x80,
        0 <= n,
    ensures
        n <= s.len() ==> chars_in_bytes(s, n) == Some(n as nat),
        n > s.len() ==> chars_in_bytes(s, n) is None,
    decreases s.len(),
{
    if s.len() > 0 && n > 0 {
        assert((s[0] as u32) < 0x80);
        assert forall|k: int| 0 <= k < s.drop_first().len() implies (#[trigger] s.drop_first()[k] as u32)
            < 0x80 by {
            assert(s.drop_first()[k] == s[k + 1]);
        }
        lemma_ascii_chars_in_bytes(s.drop_first(), n - 1);
    }
}

/// `s` with every `T` turned into a space.
pub open spec fn t_to_space(s: Seq<char>) -> Seq<char> {
    s.map_values(|c: char| if c == 'T' { ' ' } else { c })
}

/// How an event time is shown: a date-time cut to its first 16 bytes
/// (`YYYY-MM-DDTHH:MM`) with `T` turned into a space (the whole date-time if
/// it is shorter or byte 16 is inside a character); else the date; else nothing.
pub open spec fn event_time_text(date_time: Option<Seq<char>>, date: Option<Seq<char>>) -> Seq<
    char,
> {
    match date_time {
        Some(dt) => match chars_in_bytes(dt, 16) {
            Some(k) => t_to_space(dt.take(k as int)),
            None => dt,
        },
        None => match date {
            Some(d) => d,
            None => Seq::empty(),
        },
    }
}

/// `s` with every `T` turned into a space.
fn replace_t(s: &str) -> (r: String)
    ensures
        r@ == t_to_space(s@),
{
    let v = chars_of(s);
    let mut r = String::new();
    let mut run: usize = 0;
    let mut i: usize = 0;
    while i < v.len()
        invariant
            run <= i <= v.len(),
            v@ == s@,
            r@ + s@.subrange(run as int, i as int) == t_to_space(s@.take(i as int)),
            forall|k: int| run <= k < i ==> s@[k] != 'T',
        decreases v.len() - i,
    {
        if v[i] == 'T' {
            let ghost old_r = r@;
            let part = substring(s, run, i);
            r.append(part.as_str());
            r.append(" ");
            proof {
                reveal_strlit(" ");
                assert(s@.subrange(run as int, i as int) == part@);
                assert(r@ == old_r + part@ + seq![' ']);
            }
            run = i + 1;
            i = i + 1;
            assert(s@.subrange(run as int, i as int) =~= Seq::<char>::empty());
            assert(t_to_space(s@.take(i as int)) =~= t_to_space(s@.take(i - 1)).push(' '));
            assert(r@ + s@.subrange(run as int, i as int) =~= t_to_space(s@.take(i as int)));
        } else {
            i = i + 1;
            assert(t_to_space(s@.take(i as int)) =~= t_to_space(s@.take(i - 1)).push(s@[i - 1]));
            assert(s@.subrange(run as int, i as int) =~= s@.subrange(run as int, i - 1).push(
                s@[i - 1],
            ));
            assert(r@ + s@.subrange(run as int, i as int) =~= t_to_space(s@.take(i as int)));
        }
    }
    let last = substring(s, run, v.len());
    r.append(last.as_str());
    assert(s@.take(v.len() as int) =~= s@);
    r
}

proof fn lemma_chars_in_bytes_step(s: Seq<char>, k: int, acc: int, n: int)
    requires
        0 <= k < s.len(),
        0 <= acc < n,
    ensures
        chars_in_bytes(s.skip(k), n - acc) == match chars_in_bytes(
            s.skip(k + 1),
            n - acc - utf8_width(s[k]),
        ) {
            Some(j) => Some(j + 1),
            None => None::<nat>,
        },
{
    assert(s.skip(k).drop_first() =~= s.skip(k + 1));
}

impl EventTime {
    /// How the time is shown in the calendar.
    pub fn display(&self) -> (s: String)
        ensures
            s@ == event_time_text(
                match self.date_time {
                    Some(x) => Some(x@),
                    None => None,
                },
                match self.date {
                    Some(x) => Some(x@),
                    None => None,
                },
            ),
    {
        match &self.date_time {
            Some(dt) => {
                let v = chars_of(dt.as_str());
                let mut acc: u64 = 0;
                let mut k: usize = 0;
                assert(dt@.skip(0) =~= dt@);
                while acc < 16 && k < v.len()
                    invariant
                        k <= v.len(),
                        v@ == dt@,
                        acc <= 19,
                        chars_in_bytes(dt@, 16) == match chars_in_bytes(
                            dt@.skip(k as int),
                            16 - acc,
                        ) {
                            Some(j) => Some((j + k) as nat),
                            None => None::<nat>,
                        },
                    decreases v.len() - k,
                {
                    proof {
                        lemma_chars_in_bytes_step(dt@, k as int, acc as int, 16);
                    }
                    let c = v[k] as u32;
                    let w: u64 = if c < 0x80 {
                        1
                    } else if c < 0x800 {
                        2
                    } else if c < 0x10000 {
                        3
                    } else {
                        4
                    };
                    acc = acc + w;
                    k = k + 1;
                }
                assert(dt@.skip(0) =~= dt@);
                if acc == 16 {
                    let prefix = substring(dt.as_str(), 0, k);
                    assert(prefix@ =~= dt@.take(k as int));
                    replace_t(prefix.as_str())
                } else {
                    assert(k == v.len() ==> dt@.skip(k as int).len() == 0);
                    dt.clone()
                }
            },
            None => match &self.date {
                Some(d) => d.clone(),
                None => String::new(),
            },
        }
    }
}

/// Title shown for an event without one.
pub open spec fn no_title() -> Seq<char> {
    "(no title)"@
}

/// `e` is the calendar entry shown for `g`.
pub open spec fn shown_event(g: GCalEvent, e: CalendarEvent) -> bool {
    &&& e.title@ == match g.summary {
        Some(t) => t@,
        None => no_title(),
    }
    &&& e.start@ == event_time_text(
        match g.start.date_time {
            Some(x) => Some(x@),
            None => None,
        },
        match g.start.date {
            Some(x) => Some(x@),
            None => None,
        },
    )
    &&& e.end@ == event_time_text(
        match g.end.date_time {
            Some(x) => Some(x@),
            None => None,
        },
        match g.end.date {
            Some(x) => Some(x@),
            None => None,
        },
    )
    &&& e.location == g.location
}

/// An event is shown with its summary as its title ("(no title)" without
/// one) and its location as it came. A time given as an ASCII date-time is
/// shown by its first sixteen characters (`YYYY-MM-DD HH:MM`, the `T` made a
/// space), or as it came when shorter; a time given as a date alone is shown
/// as that date.
pub proof fn law_event_shown(g: GCalEvent, e: CalendarEvent, dt: Seq<char>)
    requires
        shown_event(g, e),
        g.start.date_time matches Some(x) ==> x@ == dt,
        forall|k: int| 0 <= k < dt.len() ==> (#[trigger] dt[k] as u32) < 0x80,
    ensures
        g.summary matches Some(t) ==> e.title@ == t@,
        g.summary is None ==> e.title@ == "(no title)"@,
        e.location == g.location,
        (g.start.date_time is Some && dt.len() >= 16) ==> e.start@.len() == 16 && forall|k: int|
            0 <= k < 16 ==> #[trigger] e.start@[k] == if dt[k] == 'T' {
                ' '
            } else {
                dt[k]
            },
        (g.start.date_time is Some && dt.len() < 16) ==> e.start@ == dt,
        (g.start.date_time is None && g.start.date is Some) ==> e.start@ == g.start.date->Some_0@,
        (g.start.date_time is None && g.start.date is None) ==> e.start@.len() == 0,
{
    if g.start.date_time is Some {
        lemma_ascii_chars_in_bytes(dt, 16);
    }
}

pub fn to_calendar_event(g: GCalEvent) -> (e: CalendarEvent)
    ensures
        shown_event(g, e),
{
    let start = g.start.display();
    let end = g.end.display();
    let title = match g.summary {
        Some(t) => t,
        None => String::from_str("(no title)"),
    };
    CalendarEvent { title, start, end, location: g.location }
}

/// The events of the list, in order.
pub fn calendar_events(list: EventList) -> (events: Vec<CalendarEvent>)
    ensures
        events@.len() == list.items@.len(),
        forall|i: int|
            0 <= i < events@.len() ==> shown_event(list.items@[i], #[trigger] events@[i]),
{
    let mut items = list.items;
    let ghost orig = items@;
    let mut out: Vec<CalendarEvent> = Vec::new();
    let mut rev: Vec<GCalEvent> = Vec::new();
    while items.len() > 0
        invariant
            rev@.len() + items@.len() == orig.len(),
            items@ == orig.take(items@.len() as int),
            forall|j: int| 0 <= j < rev@.len() ==> rev@[j] == orig[orig.len() - 1 - j],
        decreases items.len(),
    {
        let g = items.pop().unwrap();
        rev.push(g);
        assert(items@ =~= orig.take(items@.len() as int));
    }
    while rev.len() > 0
        invariant
            out@.len() + rev@.len() == orig.len(),
            forall|j: int| 0 <= j < rev@.len() ==> rev@[j] == orig[orig.len() - 1 - j],
            forall|i: int| 0 <= i < out@.len() ==> shown_event(orig[i], #[trigger] out@[i]),
        decreases rev.len(),
    {
        let g = rev.pop().unwrap();
        out.push(to_calendar_event(g));
    }
    out
}

/// The Calendar API request for the next twenty events from `time_min` on.
pub open spec fn events_url_of(calendar_id: Seq<char>, time_min: Seq<char>) -> Seq<char> {
    "https://www.googleapis.com/calendar/v3/calendars/"@ + url_encoded(calendar_id)
        + "/events?timeMin="@ + url_encoded(time_min)
        + "&maxResults=20&singleEvents=true&orderBy=startTime"@
}

pub fn events_url(calendar_id: &str, time_min: &str) -> (url: String)
    ensures
        url@ == events_url_of(calendar_id@, time_min@),
{
    let mut url = String::from_str("https://www.googleapis.com/calendar/v3/calendars/");
    url.append(url_encode(calendar_id).as_str());
    url.append("/events?timeMin=");
    url.append(url_encode(time_min).as_str());
    url.append("&maxResults=20&singleEvents=true&orderBy=startTime");
    url
}

} // verus!
