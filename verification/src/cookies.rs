//! Reading cookies from a request's `Cookie` header and building `Set-Cookie` values.
use vstd::prelude::*;
use vstd::string::*;
use crate::text::{char_is_space, chars_of, concat_str, lemma_trim_unchanged, is_prefix_at, is_space, skip_spaces_from, string_of_range, trim, trim_end_from};

verus! {

/// A header byte that `HeaderValue::to_str` accepts: visible ASCII or a tab.
pub open spec fn is_visible_ascii(b: u8) -> bool {
    (32 <= b && b < 127) || b == 9
}

/// `HeaderValue::to_str`: the text of a header value, when every byte is visible ASCII.
pub open spec fn header_text(bytes: Seq<u8>) -> Option<Seq<char>> {
    if forall|i: int| 0 <= i < bytes.len() ==> is_visible_ascii(#[trigger] bytes[i]) {
        Some(Seq::new(bytes.len(), |i: int| bytes[i] as char))
    } else {
        None
    }
}

/// Index of the first `;` of `s` at or after `i`, or `s.len()` when there is none.
pub open spec fn next_semicolon(s: Seq<char>, i: int) -> int
    decreases s.len() - i,
{
    if i >= s.len() {
        s.len() as int
    } else if s[i] == ';' {
        i
    } else {
        next_semicolon(s, i + 1)
    }
}

pub proof fn lemma_next_semicolon(s: Seq<char>, i: int)
    requires
        0 <= i <= s.len(),
    ensures
        i <= next_semicolon(s, i) <= s.len(),
        forall|k: int| i <= k < next_semicolon(s, i) ==> #[trigger] s[k] != ';',
        next_semicolon(s, i) < s.len() ==> s[next_semicolon(s, i)] == ';',
    decreases s.len() - i,
{
    if i < s.len() && s[i] != ';' {
        lemma_next_semicolon(s, i + 1);
    }
}

/// Looks through the `;`-separated segments of `s` that start at or after `start`: the
/// first segment that, trimmed, begins with `prefix` gives what follows the prefix.
pub open spec fn find_cookie_from(s: Seq<char>, start: int, prefix: Seq<char>) -> Option<Seq<char>>
    decreases s.len() - start,
{
    if start < 0 || start > s.len() {
        None
    } else {
        let end = next_semicolon(s, start);
        let seg = trim(s.subrange(start, end));
        if prefix.is_prefix_of(seg) {
            Some(seg.skip(prefix.len() as int))
        } else if end >= s.len() {
            None
        } else {
            proof {
                lemma_next_semicolon(s, start);
            }
            find_cookie_from(s, end + 1, prefix)
        }
    }
}

/// The value of the cookie `name` in the text of a `Cookie` header: the segments are split
/// at `;`, each is trimmed, and the first that starts with `name=` gives the rest.
pub open spec fn cookie_value(header: Seq<char>, name: Seq<char>) -> Option<Seq<char>> {
    find_cookie_from(header, 0, name + seq!['='])
}

/// What [`extract_cookie`] returns for a given `Cookie` header (absent, or its bytes).
pub open spec fn extracted_cookie(header: Option<Seq<u8>>, name: Seq<char>) -> Option<Seq<char>> {
    match header {
        None => None,
        Some(bytes) => match header_text(bytes) {
            None => None,
            Some(text) => cookie_value(text, name),
        },
    }
}

/// The name of the session cookie.
pub open spec fn session_name() -> Seq<char> {
    seq!['s', 'e', 's', 's', 'i', 'o', 'n']
}

/// `HeaderValue::to_str`: the characters of a header value, or `None` when a byte is not
/// visible ASCII.
pub fn header_chars(bytes: &[u8]) -> (r: Option<Vec<char>>)
    ensures
        match header_text(bytes@) {
            None => r is None,
            Some(t) => r matches Some(v) && v@ == t,
        },
        r is Some <==> forall|i: int| 0 <= i < bytes@.len() ==> is_visible_ascii(#[trigger] bytes@[i]),
        r matches Some(v) ==> v@.len() == bytes@.len() && forall|i: int|
            0 <= i < bytes@.len() ==> #[trigger] v@[i] == bytes@[i] as char,
{
    let mut v: Vec<char> = Vec::new();
    let mut i: usize = 0;
    while i < bytes.len()
        invariant
            i <= bytes@.len(),
            v@.len() == i,
            forall|k: int| 0 <= k < i ==> is_visible_ascii(#[trigger] bytes@[k]),
            forall|k: int| 0 <= k < i ==> #[trigger] v@[k] == bytes@[k] as char,
        decreases bytes.len() - i,
    {
        let b = bytes[i];
        if !((32 <= b && b < 127) || b == 9) {
            return None;
        }
        v.push(b as char);
        i = i + 1;
    }
    assert(v@ =~= Seq::new(bytes@.len(), |k: int| bytes@[k] as char));
    Some(v)
}

/// Lower and upper bounds of `trim(v)` inside `v`.
fn trim_bounds(v: &Vec<char>) -> (r: (usize, usize))
    ensures
        r.0 == skip_spaces_from(v@, 0),
        r.1 == trim_end_from(v@, v@.len() as int, r.0 as int),
        r.0 <= r.1 <= v.len(),
{
    let mut lo: usize = 0;
    while lo < v.len() && char_is_space(v[lo])
        invariant
            lo <= v.len(),
            skip_spaces_from(v@, lo as int) == skip_spaces_from(v@, 0),
        decreases v.len() - lo,
    {
        lo = lo + 1;
    }
    let mut hi: usize = v.len();
    while hi > lo && char_is_space(v[hi - 1])
        invariant
            lo <= hi <= v.len(),
            trim_end_from(v@, hi as int, lo as int) == trim_end_from(v@, v@.len() as int, lo as int),
        decreases hi - lo,
    {
        hi = hi - 1;
    }
    (lo, hi)
}

/// The value of the cookie whose segment starts with `prefix`, searched in `text`.
fn find_cookie(text: &Vec<char>, prefix: &Vec<char>) -> (r: Option<String>)
    ensures
        match find_cookie_from(text@, 0, prefix@) {
            None => r is None,
            Some(val) => r matches Some(s) && s@ == val,
        },
{
    let mut start: usize = 0;
    loop
        invariant
            start <= text.len(),
            find_cookie_from(text@, start as int, prefix@) == find_cookie_from(text@, 0, prefix@),
        decreases text.len() - start,
    {
        let mut end: usize = start;
        while end < text.len() && text[end] != ';'
            invariant
                start <= end <= text.len(),
                next_semicolon(text@, end as int) == next_semicolon(text@, start as int),
            decreases text.len() - end,
        {
            end = end + 1;
        }
        let mut seg: Vec<char> = Vec::new();
        let mut k: usize = start;
        while k < end
            invariant
                start <= k <= end <= text.len(),
                seg@ == text@.subrange(start as int, k as int),
            decreases end - k,
        {
            seg.push(text[k]);
            assert(text@.subrange(start as int, k + 1) == text@.subrange(start as int, k as int).push(text@[k as int]));
            k = k + 1;
        }
        let (lo, hi) = trim_bounds(&seg);
        assert(seg@.subrange(lo as int, hi as int) == trim(text@.subrange(start as int, end as int)));
        if is_prefix_at(prefix, &seg, lo, hi) {
            let value = string_of_range(&seg, lo + prefix.len(), hi);
            assert(value@ =~= trim(text@.subrange(start as int, end as int)).skip(prefix@.len() as int));
            return Some(value);
        }
        if end >= text.len() {
            return None;
        }
        start = end + 1;
    }
}

/// The characters of `name` followed by `=`.
fn cookie_prefix(name: &str) -> (p: Vec<char>)
    ensures
        p@ == name@ + seq!['='],
{
    let mut p = chars_of(name);
    p.push('=');
    p
}

/// Reads an arbitrary named cookie value from a request's `Cookie` header, given as the
/// bytes of its value (`None` when the request has no such header).
pub fn extract_cookie(cookie_header: Option<&[u8]>, name: &str) -> (r: Option<String>)
    ensures
        match extracted_cookie(
            match cookie_header {
                Some(b) => Some(b@),
                None => None,
            },
            name@,
        ) {
            None => r is None,
            Some(val) => r matches Some(s) && s@ == val,
        },
{
    match cookie_header {
        None => None,
        Some(bytes) => match header_chars(bytes) {
            None => None,
            Some(text) => {
                let prefix = cookie_prefix(name);
                find_cookie(&text, &prefix)
            },
        },
    }
}

/// Reads the `session` cookie value from a request's `Cookie` header.
pub fn extract_session_cookie(cookie_header: Option<&[u8]>) -> (r: Option<String>)
    ensures
        match extracted_cookie(
            match cookie_header {
                Some(b) => Some(b@),
                None => None,
            },
            session_name(),
        ) {
            None => r is None,
            Some(val) => r matches Some(s) && s@ == val,
        },
{
    let name = "session";
    proof {
        reveal_strlit("session");
    }
    assert(name@ == session_name());
    extract_cookie(cookie_header, name)
}


/// The `Set-Cookie` value that stores a session token (30-day expiry).
pub open spec fn session_cookie_text(token: Seq<char>) -> Seq<char> {
    "session="@ + token + "; HttpOnly; SameSite=Lax; Path=/; Max-Age=2592000"@
}

/// The `Set-Cookie` value that stores the Google CSRF token (10-minute expiry).
pub open spec fn google_csrf_cookie_text(token: Seq<char>) -> Seq<char> {
    "google_csrf="@ + token + "; HttpOnly; SameSite=Lax; Path=/; Max-Age=600"@
}

/// Builds a `Set-Cookie` header value for a session token (30-day expiry).
pub fn session_cookie(token: &str) -> (r: String)
    ensures
        r@ == session_cookie_text(token@),
{
    let mut s = concat_str("session=", token);
    s.append("; HttpOnly; SameSite=Lax; Path=/; Max-Age=2592000");
    s
}

/// Builds a `Set-Cookie` header value that clears the session cookie.
pub fn clear_session_cookie() -> (r: &'static str)
    ensures
        r@ == "session=; HttpOnly; SameSite=Lax; Path=/; Max-Age=0"@,
{
    "session=; HttpOnly; SameSite=Lax; Path=/; Max-Age=0"
}

/// Builds the `Set-Cookie` header value that stores the Google CSRF token while the user
/// signs in with Google.
pub fn google_csrf_cookie(token: &str) -> (r: String)
    ensures
        r@ == google_csrf_cookie_text(token@),
{
    let mut s = concat_str("google_csrf=", token);
    s.append("; HttpOnly; SameSite=Lax; Path=/; Max-Age=600");
    s
}

/// Builds the `Set-Cookie` header value that clears the Google CSRF cookie.
pub fn clear_google_csrf_cookie() -> (r: &'static str)
    ensures
        r@ == "google_csrf=; HttpOnly; SameSite=Lax; Path=/; Max-Age=0"@,
{
    "google_csrf=; HttpOnly; SameSite=Lax; Path=/; Max-Age=0"
}

proof fn lemma_next_semicolon_at(s: Seq<char>, i: int, e: int)
    requires
        0 <= i <= e <= s.len(),
        forall|k: int| i <= k < e ==> #[trigger] s[k] != ';',
        e < s.len() ==> s[e] == ';',
    ensures
        next_semicolon(s, i) == e,
    decreases e - i,
{
    if i < e {
        lemma_next_semicolon_at(s, i + 1, e);
    }
}

/// A cookie written as `name=value`, followed by nothing or by further `;`-separated
/// attributes or cookies, is read back as `value`: this holds whenever neither the name
/// nor the value holds a `;`, the name does not start with white space and the value does
/// not end with it.
pub proof fn law_cookie_read_back(name: Seq<char>, value: Seq<char>, rest: Seq<char>)
    requires
        !name.contains(';'),
        !value.contains(';'),
        name.len() > 0 ==> !is_space(name[0]),
        value.len() > 0 ==> !is_space(value.last()),
        rest.len() > 0 ==> rest[0] == ';',
    ensures
        cookie_value(name + seq!['='] + value + rest, name) == Some(value),
{
    let p = name + seq!['='];
    let s = p + value + rest;
    let e: int = (p.len() + value.len()) as int;
    assert forall|k: int| 0 <= k < e implies #[trigger] s[k] != ';' by {
        if k < name.len() {
            assert(s[k] == name[k]);
        } else if k == name.len() {
            assert(s[k] == '=');
        } else {
            assert(s[k] == value[k - p.len()]);
        }
    }
    if e < s.len() {
        assert(s[e] == rest[0]);
    }
    lemma_next_semicolon_at(s, 0, e);
    let sub = s.subrange(0, e);
    assert(sub =~= p + value);
    if value.len() > 0 {
        assert(sub.last() == value.last());
    } else {
        assert(sub.last() == '=');
    }
    if name.len() > 0 {
        assert(sub[0] == name[0]);
    } else {
        assert(sub[0] == '=');
    }
    lemma_trim_unchanged(sub);
    assert(p.is_prefix_of(sub)) by {
        assert(sub.subrange(0, p.len() as int) =~= p);
    }
    assert(sub.skip(p.len() as int) =~= value);
}

proof fn lemma_next_semicolon_before(before: Seq<char>, t: Seq<char>, j: int)
    requires
        0 <= j <= before.len(),
    ensures
        next_semicolon(before + seq![';'] + t, j) == next_semicolon(before, j),
    decreases before.len() - j,
{
    let s = before + seq![';'] + t;
    if j < before.len() {
        assert(s[j] == before[j]);
        if before[j] != ';' {
            lemma_next_semicolon_before(before, t, j + 1);
        }
    } else {
        assert(s[j] == ';');
    }
}

/// When no segment of `before` from `j` on gives the cookie, searching `before`, a `;` and
/// `t` from `j` comes to the same as searching from the start of `t`.
proof fn lemma_find_skip(before: Seq<char>, t: Seq<char>, j: int, p: Seq<char>)
    requires
        0 <= j <= before.len(),
        find_cookie_from(before, j, p) is None,
    ensures
        find_cookie_from(before + seq![';'] + t, j, p) == find_cookie_from(
            before + seq![';'] + t,
            (before.len() + 1) as int,
            p,
        ),
    decreases before.len() - j,
{
    let s = before + seq![';'] + t;
    lemma_next_semicolon_before(before, t, j);
    lemma_next_semicolon(before, j);
    let end = next_semicolon(before, j);
    assert(s.subrange(j, end) =~= before.subrange(j, end));
    if end < before.len() {
        lemma_find_skip(before, t, end + 1, p);
    }
}

proof fn lemma_next_semicolon_shift(a: Seq<char>, b: Seq<char>, i: int)
    requires
        0 <= i <= b.len(),
    ensures
        next_semicolon(a + b, a.len() + i) == a.len() + next_semicolon(b, i),
    decreases b.len() - i,
{
    if i < b.len() {
        assert((a + b)[a.len() + i] == b[i]);
        if b[i] != ';' {
            lemma_next_semicolon_shift(a, b, i + 1);
        }
    }
}

/// Searching `a + b` from a position inside `b` comes to the same as searching `b`.
proof fn lemma_find_shift(a: Seq<char>, b: Seq<char>, i: int, p: Seq<char>)
    requires
        0 <= i <= b.len(),
    ensures
        find_cookie_from(a + b, a.len() + i, p) == find_cookie_from(b, i, p),
    decreases b.len() - i,
{
    lemma_next_semicolon_shift(a, b, i);
    lemma_next_semicolon(b, i);
    let end = next_semicolon(b, i);
    assert((a + b).subrange(a.len() + i, a.len() + end) =~= b.subrange(i, end));
    if end < b.len() {
        lemma_find_shift(a, b, end + 1, p);
    }
}

proof fn lemma_skip_lead(sub: Seq<char>, lead_len: int, i: int)
    requires
        0 <= i <= lead_len < sub.len(),
        forall|k: int| 0 <= k < lead_len ==> is_space(#[trigger] sub[k]),
        !is_space(sub[lead_len]),
    ensures
        skip_spaces_from(sub, i) == lead_len,
    decreases lead_len - i,
{
    if i < lead_len {
        lemma_skip_lead(sub, lead_len, i + 1);
    }
}

/// A segment made of white space, then `name=value`, then nothing or further
/// `;`-separated text, is read back as `value`.
proof fn lemma_read_back_lead(lead: Seq<char>, name: Seq<char>, value: Seq<char>, rest: Seq<char>)
    requires
        forall|k: int| 0 <= k < lead.len() ==> is_space(#[trigger] lead[k]),
        !name.contains(';'),
        !value.contains(';'),
        name.len() > 0 ==> !is_space(name[0]),
        value.len() > 0 ==> !is_space(value.last()),
        rest.len() > 0 ==> rest[0] == ';',
    ensures
        cookie_value(lead + name + seq!['='] + value + rest, name) == Some(value),
{
    let p = name + seq!['='];
    let s = lead + name + seq!['='] + value + rest;
    let l = lead.len() as int;
    let e: int = l + p.len() + value.len();
    assert(!is_space('='));
    assert forall|k: int| 0 <= k < e implies #[trigger] s[k] != ';' by {
        if k < l {
            assert(s[k] == lead[k]);
            assert(is_space(lead[k]));
        } else if k < l + name.len() {
            assert(s[k] == name[k - l]);
        } else if k == l + name.len() {
            assert(s[k] == '=');
        } else {
            assert(s[k] == value[k - l - p.len()]);
        }
    }
    if e < s.len() {
        assert(s[e] == rest[0]);
    }
    lemma_next_semicolon_at(s, 0, e);
    let sub = s.subrange(0, e);
    assert(sub =~= lead + p + value);
    assert forall|k: int| 0 <= k < l implies is_space(#[trigger] sub[k]) by {
        assert(sub[k] == lead[k]);
    }
    if name.len() > 0 {
        assert(sub[l] == name[0]);
    } else {
        assert(sub[l] == '=');
    }
    lemma_skip_lead(sub, l, 0);
    if value.len() > 0 {
        assert(sub.last() == value.last());
    } else {
        assert(sub.last() == '=');
    }
    assert(trim_end_from(sub, sub.len() as int, l) == sub.len());
    assert(trim(sub) =~= p + value);
    assert(p.is_prefix_of(trim(sub))) by {
        assert(trim(sub).subrange(0, p.len() as int) =~= p);
    }
    assert(trim(sub).skip(p.len() as int) =~= value);
}

/// A cookie sent after others is read back too: when the cookies before it do not give
/// `name`, a header made of them, `;`, white space and `name=value` (followed by nothing or
/// by further `;`-separated cookies) gives `value`, under the same conditions on the name and
/// the value as [`law_cookie_read_back`].
pub proof fn law_cookie_read_back_after(
    before: Seq<char>,
    lead: Seq<char>,
    name: Seq<char>,
    value: Seq<char>,
    rest: Seq<char>,
)
    requires
        cookie_value(before, name) is None,
        forall|k: int| 0 <= k < lead.len() ==> is_space(#[trigger] lead[k]),
        !name.contains(';'),
        !value.contains(';'),
        name.len() > 0 ==> !is_space(name[0]),
        value.len() > 0 ==> !is_space(value.last()),
        rest.len() > 0 ==> rest[0] == ';',
    ensures
        cookie_value(before + seq![';'] + lead + name + seq!['='] + value + rest, name) == Some(
            value,
        ),
{
    let p = name + seq!['='];
    let t = lead + name + seq!['='] + value + rest;
    let s = before + seq![';'] + t;
    assert(before + seq![';'] + lead + name + seq!['='] + value + rest =~= s);
    lemma_find_skip(before, t, 0, p);
    lemma_find_shift(before + seq![';'], t, 0, p);
    lemma_read_back_lead(lead, name, value, rest);
}

/// The `name=value` pair of a `Set-Cookie` value, before its first `;`: what a browser
/// sends back for that cookie in its `Cookie` header.
pub open spec fn set_cookie_pair(set_cookie: Seq<char>) -> Seq<char> {
    set_cookie.subrange(0, next_semicolon(set_cookie, 0))
}

/// The Google CSRF cookie that sign-in sets is sent back as `google_csrf=` and the token,
/// for any token without `;`.
pub proof fn law_google_csrf_set_cookie_pair(token: Seq<char>)
    requires
        !token.contains(';'),
    ensures
        set_cookie_pair(google_csrf_cookie_text(token)) == "google_csrf="@ + token,
{
    reveal_strlit("google_csrf=");
    reveal_strlit("; HttpOnly; SameSite=Lax; Path=/; Max-Age=600");
    let p = "google_csrf="@;
    let s = google_csrf_cookie_text(token);
    let e = (p.len() + token.len()) as int;
    assert forall|k: int| 0 <= k < e implies #[trigger] s[k] != ';' by {
        if k < p.len() {
            assert(s[k] == p[k]);
        } else {
            assert(s[k] == token[k - p.len()]);
        }
    }
    assert(s[e] == ';');
    lemma_next_semicolon_at(s, 0, e);
    assert(s.subrange(0, e) =~= p + token);
}

/// A header value is read as its bytes, each as the character it codes, unchanged: when
/// every byte is visible ASCII the text has one character per byte, the same one; otherwise
/// there is no text.
pub proof fn law_header_text_keeps_bytes(bytes: Seq<u8>)
    ensures
        header_text(bytes) is Some <==> forall|i: int| 0 <= i < bytes.len() ==> is_visible_ascii(#[trigger] bytes[i]),
        header_text(bytes) matches Some(t) ==> t.len() == bytes.len() && forall|i: int|
            0 <= i < bytes.len() ==> #[trigger] t[i] == bytes[i] as char,
{
}

/// A `Cookie` header whose bytes spell `name=value`, followed by nothing or by further
/// `;`-separated cookies, gives exactly `value` for `name`: letters keep their case and no
/// byte is changed (under the conditions of [`law_cookie_read_back`], with every byte visible
/// ASCII).
pub proof fn law_cookie_bytes_read_back(header: Seq<u8>, name: Seq<char>, value: Seq<char>, rest: Seq<char>)
    requires
        header.len() == (name + seq!['='] + value + rest).len(),
        forall|i: int| 0 <= i < header.len() ==> is_visible_ascii(#[trigger] header[i]),
        forall|i: int| 0 <= i < header.len() ==> #[trigger] (header[i] as char) == (name + seq!['='] + value + rest)[i],
        !name.contains(';'),
        !value.contains(';'),
        name.len() > 0 ==> !is_space(name[0]),
        value.len() > 0 ==> !is_space(value.last()),
        rest.len() > 0 ==> rest[0] == ';',
    ensures
        extracted_cookie(Some(header), name) == Some(value),
{
    let t = name + seq!['='] + value + rest;
    assert(Seq::new(header.len(), |i: int| header[i] as char) =~= t);
    law_cookie_read_back(name, value, rest);
}

/// The session cookie that login and registration set is read back as the session token,
/// for any token without `;` that does not end with white space.
pub proof fn law_session_cookie_read_back(token: Seq<char>)
    requires
        !token.contains(';'),
        token.len() > 0 ==> !is_space(token.last()),
    ensures
        cookie_value(session_cookie_text(token), session_name()) == Some(token),
{
    reveal_strlit("session=");
    reveal_strlit("; HttpOnly; SameSite=Lax; Path=/; Max-Age=2592000");
    let rest = "; HttpOnly; SameSite=Lax; Path=/; Max-Age=2592000"@;
    assert("session="@ =~= session_name() + seq!['=']);
    assert(!session_name().contains(';')) by {
        assert forall|k: int| 0 <= k < session_name().len() implies session_name()[k] != ';' by {}
    }
    law_cookie_read_back(session_name(), token, rest);
    assert(session_cookie_text(token) =~= session_name() + seq!['='] + token + rest);
}

/// The cookie that logout sets reads back as an empty session token.
pub proof fn law_cleared_session_cookie_is_empty()
    ensures
        cookie_value("session=; HttpOnly; SameSite=Lax; Path=/; Max-Age=0"@, session_name())
            == Some(Seq::<char>::empty()),
{
    reveal_strlit("session=; HttpOnly; SameSite=Lax; Path=/; Max-Age=0");
    let rest = "; HttpOnly; SameSite=Lax; Path=/; Max-Age=0"@;
    reveal_strlit("; HttpOnly; SameSite=Lax; Path=/; Max-Age=0");
    assert(!session_name().contains(';')) by {
        assert forall|k: int| 0 <= k < session_name().len() implies session_name()[k] != ';' by {}
    }
    law_cookie_read_back(session_name(), Seq::empty(), rest);
    assert("session=; HttpOnly; SameSite=Lax; Path=/; Max-Age=0"@ =~= session_name() + seq!['=']
        + Seq::<char>::empty() + rest);
}

/// The Google CSRF cookie set when sign-in starts is read back as the same token, for any
/// token without `;` that does not end with white space.
pub proof fn law_google_csrf_cookie_read_back(token: Seq<char>)
    requires
        !token.contains(';'),
        token.len() > 0 ==> !is_space(token.last()),
    ensures
        cookie_value(google_csrf_cookie_text(token), "google_csrf"@) == Some(token),
{
    reveal_strlit("google_csrf=");
    reveal_strlit("google_csrf");
    reveal_strlit("; HttpOnly; SameSite=Lax; Path=/; Max-Age=600");
    let name = "google_csrf"@;
    let rest = "; HttpOnly; SameSite=Lax; Path=/; Max-Age=600"@;
    assert("google_csrf="@ =~= name + seq!['=']);
    assert(!name.contains(';')) by {
        assert forall|k: int| 0 <= k < name.len() implies name[k] != ';' by {}
    }
    law_cookie_read_back(name, token, rest);
    assert(google_csrf_cookie_text(token) =~= name + seq!['='] + token + rest);
}

} // verus!
