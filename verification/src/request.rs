//! Verified helpers for the HTTP edge: pulling the button token out of a
//! query string, pulling the session credential out of a request's cookie
//! line, naming content types by file suffix, and deriving the
//! timestamp-based session identifier.

use vstd::prelude::*;

use crate::text::str_eq;

verus! {

/// The index of the first occurrence of `sep` in `s`, or `s.len()` when
/// there is none.
pub open spec fn first_stop(s: Seq<char>, sep: char) -> int
    decreases s.len(),
{
    if s.len() == 0 || s[0] == sep {
        0
    } else {
        1 + first_stop(s.drop_first(), sep)
    }
}

/// `first_stop` names the least index holding `sep`, or the length.
proof fn lemma_first_stop(s: Seq<char>, sep: char)
    ensures
        0 <= first_stop(s, sep) <= s.len(),
        first_stop(s, sep) < s.len() ==> s[first_stop(s, sep)] == sep,
        forall|j: int| 0 <= j < first_stop(s, sep) ==> s[j] != sep,
    decreases s.len(),
{
    if s.len() > 0 && s[0] != sep {
        lemma_first_stop(s.drop_first(), sep);
        assert forall|j: int| 0 <= j < first_stop(s, sep) implies s[j] != sep by {
            if j > 0 {
                assert(s.drop_first()[j - 1] == s[j]);
            }
        }
    }
}

/// Scans `s` for the first occurrence of `sep`, by character position.
fn find_char(s: &str, sep: char) -> (i: usize)
    ensures
        i as int == first_stop(s@, sep),
{
    let n = s.unicode_len();
    for i in 0..n
        invariant
            n == s@.len(),
            forall|j: int| 0 <= j < i ==> s@[j] != sep,
    {
        if s.get_char(i) == sep {
            proof {
                lemma_first_stop(s@, sep);
                let f = first_stop(s@, sep);
                if f < i {
                    assert(s@[f] != sep);
                    assert(false);
                }
                if i < f {
                    assert(s@[i as int] != sep);
                    assert(false);
                }
            }
            return i;
        }
    }
    proof {
        lemma_first_stop(s@, sep);
        let f = first_stop(s@, sep);
        if f < s@.len() {
            assert(s@[f] != sep);
            assert(false);
        }
    }
    n
}

/// Whether `s` ends with the characters of `suffix`.
pub open spec fn ends_with(s: Seq<char>, suffix: Seq<char>) -> bool {
    s.len() >= suffix.len() && s.skip(s.len() - suffix.len()) == suffix
}

/// Checks whether `s` ends with `suffix`, by character position.
fn str_ends_with(s: &str, suffix: &str) -> (r: bool)
    ensures
        r == ends_with(s@, suffix@),
{
    let n = s.unicode_len();
    let k = suffix.unicode_len();
    if k > n {
        return false;
    }
    let base = n - k;
    for i in 0..k
        invariant
            n == s@.len(),
            k == suffix@.len(),
            base == n - k,
            forall|j: int| 0 <= j < i ==> s@[base + j] == suffix@[j],
    {
        if s.get_char(base + i) != suffix.get_char(i) {
            proof {
                if ends_with(s@, suffix@) {
                    assert(s@.skip(base as int)[i as int] == suffix@[i as int]);
                }
            }
            return false;
        }
    }
    proof {
        assert(s@.skip(base as int) =~= suffix@);
    }
    true
}

/// Whether `s` begins with the characters of `prefix`.
pub open spec fn starts_with(s: Seq<char>, prefix: Seq<char>) -> bool {
    s.len() >= prefix.len() && s.take(prefix.len() as int) == prefix
}

/// Checks whether `s` begins with `prefix`, by character position.
fn str_starts_with(s: &str, prefix: &str) -> (r: bool)
    ensures
        r == starts_with(s@, prefix@),
{
    let n = s.unicode_len();
    let k = prefix.unicode_len();
    if k > n {
        return false;
    }
    for i in 0..k
        invariant
            n == s@.len(),
            k == prefix@.len(),
            k <= n,
            forall|j: int| 0 <= j < i ==> s@[j] == prefix@[j],
    {
        if s.get_char(i) != prefix.get_char(i) {
            proof {
                if starts_with(s@, prefix@) {
                    assert(s@.take(k as int)[i as int] == prefix@[i as int]);
                }
            }
            return false;
        }
    }
    proof {
        assert(s@.take(k as int) =~= prefix@);
    }
    true
}

/// The paths the application answers: the root, the page paths, the two log
/// views, and the static assets. Anything else is not found.
pub open spec fn path_allowed(path: Seq<char>) -> bool {
    ||| path == "/"@
    ||| starts_with(path, "/page"@)
    ||| starts_with(path, "/view-data"@)
    ||| starts_with(path, "/clear-data"@)
    ||| starts_with(path, "/lib/"@)
}

/// Decides whether a request path is one the application answers.
pub fn is_allowed_path(path: &str) -> (r: bool)
    ensures
        r == path_allowed(path@),
{
    str_eq(path, "/") || str_starts_with(path, "/page") || str_starts_with(path, "/view-data")
        || str_starts_with(path, "/clear-data") || str_starts_with(path, "/lib/")
}

/// The content type served for a static asset, chosen by file suffix.
pub open spec fn content_type_of(path: Seq<char>) -> Seq<char> {
    if ends_with(path, ".jpg"@) || ends_with(path, ".jpeg"@) {
        "image/jpeg"@
    } else if ends_with(path, ".png"@) {
        "image/png"@
    } else if ends_with(path, ".gif"@) {
        "image/gif"@
    } else if ends_with(path, ".css"@) {
        "text/css"@
    } else if ends_with(path, ".js"@) {
        "application/javascript"@
    } else {
        "application/octet-stream"@
    }
}

/// Names the content type a static asset is served with, by its suffix.
pub fn get_content_type(path: &str) -> (r: &str)
    ensures
        r@ == content_type_of(path@),
{
    if str_ends_with(path, ".jpg") || str_ends_with(path, ".jpeg") {
        "image/jpeg"
    } else if str_ends_with(path, ".png") {
        "image/png"
    } else if str_ends_with(path, ".gif") {
        "image/gif"
    } else if str_ends_with(path, ".css") {
        "text/css"
    } else if str_ends_with(path, ".js") {
        "application/javascript"
    } else {
        "application/octet-stream"
    }
}

/// The flow input one query parameter supplies: the value of a parameter
/// whose key is `button` or `action`; a parameter without `=` supplies
/// nothing.
pub open spec fn param_press(p: Seq<char>) -> Option<Seq<char>> {
    let e = first_stop(p, '=');
    if e == p.len() {
        None
    } else {
        let k = p.take(e);
        let v = p.skip(e + 1);
        if k == "button"@ || k == "action"@ {
            Some(v)
        } else {
            None
        }
    }
}

/// The flow input a query string supplies: the value of its first `button`
/// or `action` parameter, scanning the `&`-separated parameters in order.
pub open spec fn button_press_of(q: Seq<char>) -> Option<Seq<char>>
    decreases q.len(),
    via button_press_of_decreases
{
    let a = first_stop(q, '&');
    let p = q.take(a);
    if param_press(p) is Some {
        param_press(p)
    } else if a == q.len() {
        None
    } else {
        button_press_of(q.skip(a + 1))
    }
}

#[via_fn]
proof fn button_press_of_decreases(q: Seq<char>) {
    lemma_first_stop(q, '&');
}

/// Pulls the flow input out of a query string: the value of the first
/// parameter whose key is `button` or `action`.
pub fn parse_button_press(query: &str) -> (r: Option<String>)
    ensures
        match r {
            Some(v) => button_press_of(query@) == Some(v@),
            None => button_press_of(query@) is None,
        },
{
    let mut rest: &str = query;
    loop
        invariant
            button_press_of(rest@) == button_press_of(query@),
        decreases rest@.len(),
    {
        proof {
            lemma_first_stop(rest@, '&');
        }
        let n = rest.unicode_len();
        let a = find_char(rest, '&');
        let p = rest.substring_char(0, a);
        proof {
            assert(p@ =~= rest@.take(a as int));
            lemma_first_stop(p@, '=');
        }
        let plen = p.unicode_len();
        let e = find_char(p, '=');
        if e < plen {
            let k = p.substring_char(0, e);
            let v = p.substring_char(e + 1, plen);
            proof {
                assert(k@ =~= p@.take(e as int));
                assert(v@ =~= p@.skip(e + 1));
            }
            if str_eq(k, "button") || str_eq(k, "action") {
                return Some(String::from_str(v));
            }
        }
        if a == n {
            return None;
        }
        let next = rest.substring_char(a + 1, n);
        proof {
            assert(next@ =~= rest@.skip(a + 1));
        }
        rest = next;
    }
}

/// Whether `pat` occurs in `s` starting at position `i`.
pub open spec fn occurs_at(s: Seq<char>, pat: Seq<char>, i: int) -> bool {
    0 <= i && i + pat.len() <= s.len() && s.subrange(i, i + pat.len()) == pat
}

/// The least position where `pat` occurs in `s`, if it occurs at all.
pub open spec fn find_sub(s: Seq<char>, pat: Seq<char>) -> Option<int>
    decreases s.len(),
{
    if occurs_at(s, pat, 0) {
        Some(0 as int)
    } else if s.len() == 0 {
        None
    } else {
        match find_sub(s.drop_first(), pat) {
            Some(i) => Some(i + 1),
            None => None,
        }
    }
}

/// `find_sub` names the least occurrence, or rules every position out.
proof fn lemma_find_sub(s: Seq<char>, pat: Seq<char>)
    ensures
        match find_sub(s, pat) {
            Some(i) => occurs_at(s, pat, i) && forall|j: int|
                0 <= j < i ==> !occurs_at(s, pat, j),
            None => forall|j: int| !occurs_at(s, pat, j),
        },
    decreases s.len(),
{
    if !occurs_at(s, pat, 0) && s.len() > 0 {
        let tail = s.drop_first();
        lemma_find_sub(tail, pat);
        assert forall|j: int| 0 <= j implies occurs_at(s, pat, j + 1) == occurs_at(
            tail,
            pat,
            j,
        ) by {
            if j + pat.len() <= tail.len() {
                assert(s.subrange(j + 1, j + 1 + pat.len()) =~= tail.subrange(j, j + pat.len()));
            }
        }
        match find_sub(s, pat) {
            Some(i) => {
                assert(occurs_at(tail, pat, i - 1));
                assert forall|j: int| 0 <= j < i implies !occurs_at(s, pat, j) by {
                    if j > 0 {
                        assert(!occurs_at(tail, pat, j - 1));
                    }
                }
            },
            None => {
                assert forall|j: int| true implies !occurs_at(s, pat, j) by {
                    if j > 0 {
                        assert(!occurs_at(tail, pat, j - 1));
                    }
                }
            },
        }
    }
}

/// Scans `s` for the first occurrence of `pat`, by character position.
fn find_pattern(s: &str, pat: &str) -> (r: Option<usize>)
    ensures
        match r {
            Some(i) => find_sub(s@, pat@) == Some(i as int),
            None => find_sub(s@, pat@) is None,
        },
{
    let n = s.unicode_len();
    let k = pat.unicode_len();
    if k > n {
        proof {
            lemma_find_sub(s@, pat@);
        }
        return None;
    }
    if k == 0 {
        proof {
            assert(s@.subrange(0, 0) =~= pat@);
            assert(occurs_at(s@, pat@, 0));
        }
        return Some(0);
    }
    let end = n - k;
    for i in 0..end + 1
        invariant
            n == s@.len(),
            k == pat@.len(),
            0 < k <= n,
            end == n - k,
            forall|j: int| 0 <= j < i ==> !occurs_at(s@, pat@, j),
    {
        let cand = s.substring_char(i, i + k);
        let hit = str_eq(cand, pat);
        proof {
            assert(cand@ =~= s@.subrange(i as int, i + k));
        }
        if hit {
            proof {
                assert(occurs_at(s@, pat@, i as int));
                lemma_find_sub(s@, pat@);
                match find_sub(s@, pat@) {
                    Some(f) => {
                        if f < i {
                            assert(!occurs_at(s@, pat@, f));
                            assert(false);
                        }
                        if i < f {
                            assert(!occurs_at(s@, pat@, i as int));
                            assert(false);
                        }
                    },
                    None => {
                        assert(!occurs_at(s@, pat@, i as int));
                        assert(false);
                    },
                }
            }
            return Some(i);
        }
    }
    proof {
        lemma_find_sub(s@, pat@);
        match find_sub(s@, pat@) {
            Some(f) => {
                assert(occurs_at(s@, pat@, f));
                if f <= end {
                    assert(!occurs_at(s@, pat@, f));
                }
                assert(false);
            },
            None => {},
        }
    }
    None
}

/// Whether an explicit restart is requested: the query string carries
/// `restart=true` somewhere, which forces the session's removal before the
/// event is processed.
pub fn query_requests_restart(query: &str) -> (r: bool)
    ensures
        r == (find_sub(query@, "restart=true"@) is Some),
{
    find_pattern(query, "restart=true").is_some()
}

/// Whether a request line is a cookie header line: its first seven
/// characters spell `cookie:` in either case.
pub open spec fn is_cookie_line(line: Seq<char>) -> bool {
    &&& line.len() >= 7
    &&& (line[0] == 'c' || line[0] == 'C')
    &&& (line[1] == 'o' || line[1] == 'O')
    &&& (line[2] == 'o' || line[2] == 'O')
    &&& (line[3] == 'k' || line[3] == 'K')
    &&& (line[4] == 'i' || line[4] == 'I')
    &&& (line[5] == 'e' || line[5] == 'E')
    &&& line[6] == ':'
}

fn line_is_cookie(line: &str) -> (r: bool)
    ensures
        r == is_cookie_line(line@),
{
    if line.unicode_len() < 7 {
        return false;
    }
    let c0 = line.get_char(0);
    let c1 = line.get_char(1);
    let c2 = line.get_char(2);
    let c3 = line.get_char(3);
    let c4 = line.get_char(4);
    let c5 = line.get_char(5);
    let c6 = line.get_char(6);
    (c0 == 'c' || c0 == 'C') && (c1 == 'o' || c1 == 'O') && (c2 == 'o' || c2 == 'O') && (c3 == 'k'
        || c3 == 'K') && (c4 == 'i' || c4 == 'I') && (c5 == 'e' || c5 == 'E') && c6 == ':'
}

/// The session credential one cookie line carries: the characters between
/// the first `session_id=` marker and the next `;`, or the line's end.
pub open spec fn session_id_in_line(line: Seq<char>) -> Option<Seq<char>> {
    match find_sub(line, "session_id="@) {
        Some(i) => {
            let rest = line.skip(i + "session_id="@.len());
            Some(rest.take(first_stop(rest, ';')))
        },
        None => None,
    }
}

/// The session credential a whole request carries: scanning its
/// newline-separated lines in order, the credential of the first cookie
/// line that holds one.
pub open spec fn session_id_of(request: Seq<char>) -> Option<Seq<char>>
    decreases request.len(),
    via session_id_of_decreases
{
    let a = first_stop(request, '\n');
    let line = request.take(a);
    if is_cookie_line(line) && session_id_in_line(line) is Some {
        session_id_in_line(line)
    } else if a == request.len() {
        None
    } else {
        session_id_of(request.skip(a + 1))
    }
}

#[via_fn]
proof fn session_id_of_decreases(request: Seq<char>) {
    lemma_first_stop(request, '\n');
}

/// Pulls the session credential out of a request: the `session_id` value on
/// the first cookie header line that carries one.
pub fn extract_session_id(request: &str) -> (r: Option<String>)
    ensures
        match r {
            Some(v) => session_id_of(request@) == Some(v@),
            None => session_id_of(request@) is None,
        },
{
    let mut rest: &str = request;
    loop
        invariant
            session_id_of(rest@) == session_id_of(request@),
        decreases rest@.len(),
    {
        proof {
            lemma_first_stop(rest@, '\n');
        }
        let n = rest.unicode_len();
        let a = find_char(rest, '\n');
        let line = rest.substring_char(0, a);
        proof {
            assert(line@ =~= rest@.take(a as int));
        }
        if line_is_cookie(line) {
            if let Some(i) = find_pattern(line, "session_id=") {
                proof {
                    lemma_find_sub(line@, "session_id="@);
                }
                let patlen = "session_id=".unicode_len();
                let llen = line.unicode_len();
                let start = i + patlen;
                let tail = line.substring_char(start, llen);
                proof {
                    assert(tail@ =~= line@.skip(start as int));
                    lemma_first_stop(tail@, ';');
                }
                let semi = find_char(tail, ';');
                let v = tail.substring_char(0, semi);
                proof {
                    assert(v@ =~= tail@.take(semi as int));
                }
                return Some(String::from_str(v));
            }
        }
        if a == n {
            return None;
        }
        let next = rest.substring_char(a + 1, n);
        proof {
            assert(next@ =~= rest@.skip(a + 1));
        }
        rest = next;
    }
}

/// The decimal digit character for `d`.
pub open spec fn dec_digit(d: int) -> char {
    if d == 0 {
        '0'
    } else if d == 1 {
        '1'
    } else if d == 2 {
        '2'
    } else if d == 3 {
        '3'
    } else if d == 4 {
        '4'
    } else if d == 5 {
        '5'
    } else if d == 6 {
        '6'
    } else if d == 7 {
        '7'
    } else if d == 8 {
        '8'
    } else {
        '9'
    }
}

/// The decimal representation of a nonnegative number, most significant
/// digit first, with no leading zeros except for zero itself.
pub open spec fn dec_rep(n: int) -> Seq<char>
    decreases n,
{
    if n < 10 {
        seq![dec_digit(n)]
    } else {
        dec_rep(n / 10).push(dec_digit(n % 10))
    }
}

/// The one-character string for a decimal digit.
fn digit_str(d: u64) -> (r: &'static str)
    requires
        d < 10,
    ensures
        r@ == seq![dec_digit(d as int)],
{
    let r: &'static str = match d {
        0 => "0",
        1 => "1",
        2 => "2",
        3 => "3",
        4 => "4",
        5 => "5",
        6 => "6",
        7 => "7",
        8 => "8",
        _ => "9",
    };
    proof {
        reveal_strlit("0");
        reveal_strlit("1");
        reveal_strlit("2");
        reveal_strlit("3");
        reveal_strlit("4");
        reveal_strlit("5");
        reveal_strlit("6");
        reveal_strlit("7");
        reveal_strlit("8");
        reveal_strlit("9");
        assert(r@ =~= seq![dec_digit(d as int)]);
    }
    r
}

/// Renders a number in decimal.
fn u64_to_decimal(n: u64) -> (r: String)
    ensures
        r@ == dec_rep(n as int),
    decreases n,
{
    if n < 10 {
        String::from_str(digit_str(n))
    } else {
        let mut s = u64_to_decimal(n / 10);
        s.append(digit_str(n % 10));
        proof {
            assert(s@ =~= dec_rep((n / 10) as int).push(dec_digit((n % 10) as int)));
        }
        s
    }
}

/// The session identifier synthesized for a visitor first seen at the given
/// timestamp, in whole seconds: distinct timestamps give distinct
/// identifiers, but two sessions created within the same clock tick collide.
pub fn session_id_for_timestamp(seconds: u64) -> (r: String)
    ensures
        r@ == "session_"@ + dec_rep(seconds as int),
{
    let mut s = String::from_str("session_");
    let digits = u64_to_decimal(seconds);
    s.append(digits.as_str());
    s
}

} // verus!
