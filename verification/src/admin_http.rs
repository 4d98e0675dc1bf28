//! The admin HTTP interface: how a raw request is read (its path and its
//! token), which answer it gets, and the HTTP reply that carries the answer.
//! The `/health` check needs no token; the other paths need the configured
//! admin token, as `Authorization: Bearer <token>` or `X-Admin-Token:
//! <token>` (ASCII case ignored), unless no token is configured.
use crate::config::concat3;
use crate::gateway_session::{trim_trailing_slashes, without_trailing_slashes};
use crate::obs_merge::prefixed;
use crate::text::{char_is_whitespace, chars_of, decimal, decimal_spec, is_unicode_whitespace, lower, lower_code, str_eq, string_from_chars};
use vstd::prelude::*;
use vstd::utf8::{decode_utf8, encode_utf8, valid_utf8};

verus! {

broadcast use vstd::string::group_string_axioms;

/// The answer an admin request gets.
#[derive(Debug, Clone, Copy, PartialEq, Eq, Structural)]
pub enum AdminRoute {
    /// A token is needed and none matched.
    Unauthorized,
    /// `/health`, the store ready.
    HealthOk,
    /// `/health`, the store not ready.
    HealthNotReady,
    /// `/agents`: the agent subsystem view.
    Agents,
    /// Any other path: the server status view.
    Status,
}

/// Calls `std::str::from_utf8` on the bytes: it succeeds exactly when they
/// are valid UTF-8 (as `valid_utf8` defines it), and the text is then the
/// characters they encode.
#[verifier::external_body]
fn utf8_text(bytes: &Vec<u8>) -> (r: Option<String>)
    ensures
        match r {
            Some(s) => valid_utf8(bytes@) && s@ == decode_utf8(bytes@),
            None => !valid_utf8(bytes@),
        },
{
    std::str::from_utf8(bytes.as_slice()).ok().map(|s| s.to_string())
}

/// A line without the `\r` at its end, if it has one.
pub open spec fn strip_cr(l: Seq<char>) -> Seq<char> {
    if l.len() > 0 && l.last() == '\r' { l.drop_last() } else { l }
}

/// The lines ended by `\n` so far (without `\n` and a `\r` before it), and
/// the characters after the last `\n`.
pub open spec fn line_fold(c: Seq<char>) -> (Seq<Seq<char>>, Seq<char>)
    decreases c.len(),
{
    if c.len() == 0 {
        (Seq::empty(), Seq::empty())
    } else {
        let (done, cur) = line_fold(c.drop_last());
        if c.last() == '\n' {
            (done.push(strip_cr(cur)), Seq::empty())
        } else {
            (done, cur.push(c.last()))
        }
    }
}

/// The lines of a text, as `str::lines` gives them: split at `\n` (a `\r`
/// just before it dropped), the last line only when it is not empty.
pub open spec fn text_lines(c: Seq<char>) -> Seq<Seq<char>> {
    let (done, cur) = line_fold(c);
    if cur.len() > 0 { done.push(cur) } else { done }
}

/// The words completed so far and the word being read.
pub open spec fn word_fold(s: Seq<char>) -> (Seq<Seq<char>>, Seq<char>)
    decreases s.len(),
{
    if s.len() == 0 {
        (Seq::empty(), Seq::empty())
    } else {
        let (done, cur) = word_fold(s.drop_last());
        if is_unicode_whitespace(s.last()) {
            if cur.len() > 0 { (done.push(cur), Seq::empty()) } else { (done, cur) }
        } else {
            (done, cur.push(s.last()))
        }
    }
}

/// The words of a text, as `str::split_whitespace` gives them.
pub open spec fn text_words(s: Seq<char>) -> Seq<Seq<char>> {
    let (done, cur) = word_fold(s);
    if cur.len() > 0 { done.push(cur) } else { done }
}

/// The path of a request: the second word of its first line (`/` when there
/// is none), without the `/` characters at its end.
pub open spec fn request_path(c: Seq<char>) -> Seq<char> {
    let ls = text_lines(c);
    let raw = if ls.len() > 0 && text_words(ls[0]).len() > 1 { text_words(ls[0])[1] } else { "/"@ };
    without_trailing_slashes(raw)
}

/// Equal once ASCII upper-case letters are lowered.
pub open spec fn lower_eq(a: Seq<char>, b: Seq<char>) -> bool {
    a.len() == b.len() && forall|i: int| 0 <= i < a.len() ==> lower_code(#[trigger] a[i]) == lower_code(b[i])
}

/// Does a line of the request equal `target`, ASCII case ignored?
pub open spec fn has_header_line(c: Seq<char>, target: Seq<char>) -> bool {
    exists|i: int| 0 <= i < text_lines(c).len() && lower_eq(#[trigger] text_lines(c)[i], target)
}

/// The text of a request: its characters when it is valid UTF-8, else nothing.
pub open spec fn request_text(request: Seq<u8>) -> Seq<char> {
    if valid_utf8(request) { decode_utf8(request) } else { Seq::empty() }
}

/// The answer to a raw request: without a configured token, for `/health`,
/// or with a line `authorization: bearer <token>` or `x-admin-token:
/// <token>` (ASCII case ignored) it is served, else refused; `/health` tells
/// whether the store is ready, `/agents` gives the agent view, and every
/// other path the status view.
pub open spec fn admin_route_spec(request: Seq<u8>, admin_token: Seq<char>, ready: bool) -> AdminRoute {
    let c = request_text(request);
    let path = request_path(c);
    let authorized = admin_token.len() == 0 || path == "/health"@ || has_header_line(
        c,
        "authorization: bearer "@ + admin_token,
    ) || has_header_line(c, "x-admin-token: "@ + admin_token);
    if !authorized {
        AdminRoute::Unauthorized
    } else if path == "/health"@ {
        if ready { AdminRoute::HealthOk } else { AdminRoute::HealthNotReady }
    } else if path == "/agents"@ {
        AdminRoute::Agents
    } else {
        AdminRoute::Status
    }
}

fn lower_equal(a: &Vec<char>, b: &Vec<char>) -> (r: bool)
    ensures
        r == lower_eq(a@, b@),
{
    if a.len() != b.len() {
        return false;
    }
    let mut i: usize = 0;
    while i < a.len()
        invariant
            a@.len() == b@.len(),
            i <= a@.len(),
            forall|j: int| 0 <= j < i ==> lower_code(#[trigger] a@[j]) == lower_code(b@[j]),
        decreases a@.len() - i,
    {
        if lower(a[i]) != lower(b[i]) {
            return false;
        }
        i = i + 1;
    }
    true
}

fn strip_cr_vec(v: Vec<char>) -> (r: Vec<char>)
    ensures
        r@ == strip_cr(v@),
{
    let mut v = v;
    if v.len() > 0 && v[v.len() - 1] == '\r' {
        v.pop();
    }
    v
}

/// The first line of the text and whether some line matches one of the targets.
fn scan_lines(c: &Vec<char>, t1: &Vec<char>, t2: &Vec<char>) -> (r: (Option<Vec<char>>, bool))
    ensures
        match r.0 {
            Some(l) => text_lines(c@).len() > 0 && l@ == text_lines(c@)[0],
            None => text_lines(c@).len() == 0,
        },
        r.1 == (has_header_line(c@, t1@) || has_header_line(c@, t2@)),
{
    let mut first: Option<Vec<char>> = None;
    let mut found = false;
    let mut cur: Vec<char> = Vec::new();
    let mut k: usize = 0;
    while k < c.len()
        invariant
            k <= c@.len(),
            cur@ == line_fold(c@.take(k as int)).1,
            match first {
                Some(l) => line_fold(c@.take(k as int)).0.len() > 0 && l@ == line_fold(c@.take(k as int)).0[0],
                None => line_fold(c@.take(k as int)).0.len() == 0,
            },
            found == exists|i: int|
                0 <= i < line_fold(c@.take(k as int)).0.len() && (lower_eq(
                    #[trigger] line_fold(c@.take(k as int)).0[i],
                    t1@,
                ) || lower_eq(line_fold(c@.take(k as int)).0[i], t2@)),
        decreases c@.len() - k,
    {
        let ghost pre = c@.take(k as int);
        let ghost post = c@.take(k + 1);
        proof {
            assert(post.drop_last() =~= pre);
            assert(post.last() == c@[k as int]);
        }
        let ch = c[k];
        if ch == '\n' {
            let line = strip_cr_vec(cur);
            let hit = lower_equal(&line, t1) || lower_equal(&line, t2);
            let ghost done = line_fold(pre).0;
            proof {
                assert(line_fold(post).0 == done.push(line@));
                if hit {
                    assert(line_fold(post).0[done.len() as int] == line@);
                }
                assert forall|i: int| 0 <= i < done.len() implies line_fold(post).0[i] == done[i] by {}
            }
            if first.is_none() {
                first = Some(line);
            }
            found = found || hit;
            cur = Vec::new();
        } else {
            cur.push(ch);
        }
        k = k + 1;
    }
    proof {
        assert(c@.take(c@.len() as int) =~= c@);
    }
    let ghost done = line_fold(c@).0;
    if cur.len() > 0 {
        let hit = lower_equal(&cur, t1) || lower_equal(&cur, t2);
        proof {
            assert(text_lines(c@) == done.push(cur@));
            assert forall|i: int| 0 <= i < done.len() implies text_lines(c@)[i] == done[i] by {}
            if hit {
                assert(text_lines(c@)[done.len() as int] == cur@);
            }
        }
        if first.is_none() {
            first = Some(cur);
        }
        (first, found || hit)
    } else {
        proof {
            assert(text_lines(c@) == done);
        }
        (first, found)
    }
}

/// The second word of a line, if it has one.
fn second_word(s: &Vec<char>) -> (r: Option<Vec<char>>)
    ensures
        match r {
            Some(w) => text_words(s@).len() > 1 && w@ == text_words(s@)[1],
            None => text_words(s@).len() <= 1,
        },
{
    let mut count: usize = 0;
    let mut second: Option<Vec<char>> = None;
    let mut cur: Vec<char> = Vec::new();
    let mut k: usize = 0;
    while k < s.len()
        invariant
            k <= s@.len(),
            cur@ == word_fold(s@.take(k as int)).1,
            count == word_fold(s@.take(k as int)).0.len(),
            match second {
                Some(w) => count > 1 && w@ == word_fold(s@.take(k as int)).0[1],
                None => count <= 1,
            },
        decreases s@.len() - k,
    {
        let ghost pre = s@.take(k as int);
        let ghost post = s@.take(k + 1);
        proof {
            assert(post.drop_last() =~= pre);
            assert(post.last() == s@[k as int]);
        }
        let ch = s[k];
        if char_is_whitespace(ch) {
            if cur.len() > 0 {
                let ghost done = word_fold(pre).0;
                proof {
                    assert(word_fold(post).0 == done.push(cur@));
                    if count > 1 {
                        assert(word_fold(post).0[1] == done[1]);
                    } else if count == 1 {
                        assert(word_fold(post).0[1] == cur@);
                    }
                }
                if count == 1 {
                    second = Some(cur);
                }
                proof {
                    lemma_word_count_bound(pre);
                }
                count = count + 1;
                cur = Vec::new();
            }
        } else {
            cur.push(ch);
        }
        k = k + 1;
    }
    proof {
        assert(s@.take(s@.len() as int) =~= s@);
    }
    let ghost done = word_fold(s@).0;
    if cur.len() > 0 {
        proof {
            assert(text_words(s@) == done.push(cur@));
            if count > 1 {
                assert(text_words(s@)[1] == done[1]);
            } else if count == 1 {
                assert(text_words(s@)[1] == cur@);
            }
        }
        if count == 1 {
            second = Some(cur);
        }
        second
    } else {
        proof {
            assert(text_words(s@) == done);
        }
        second
    }
}

proof fn lemma_word_count_bound(s: Seq<char>)
    ensures
        word_fold(s).0.len() <= s.len(),
        word_fold(s).0.len() + (if word_fold(s).1.len() > 0 { 1int } else { 0int }) <= s.len(),
    decreases s.len(),
{
    if s.len() > 0 {
        lemma_word_count_bound(s.drop_last());
    }
}

/// The answer to a raw admin request (see `admin_route_spec`).
pub fn admin_http_route(request: &Vec<u8>, admin_token: &str, ready: bool) -> (r: AdminRoute)
    ensures
        r == admin_route_spec(request@, admin_token@, ready),
{
    let text = match utf8_text(request) {
        Some(t) => t,
        None => String::new(),
    };
    let c = chars_of(text.as_str());
    proof {
        assert(c@ == request_text(request@));
    }
    let t1 = chars_of(prefixed("authorization: bearer ", admin_token).as_str());
    let t2 = chars_of(prefixed("x-admin-token: ", admin_token).as_str());
    let (first, header_ok) = scan_lines(&c, &t1, &t2);
    let raw = match first {
        Some(line) => match second_word(&line) {
            Some(w) => string_from_chars(&w),
            None => "/".to_string(),
        },
        None => "/".to_string(),
    };
    let path = trim_trailing_slashes(raw.as_str());
    let is_health = str_eq(path.as_str(), "/health");
    let authorized = admin_token.unicode_len() == 0 || is_health || header_ok;
    if !authorized {
        AdminRoute::Unauthorized
    } else if is_health {
        if ready {
            AdminRoute::HealthOk
        } else {
            AdminRoute::HealthNotReady
        }
    } else if str_eq(path.as_str(), "/agents") {
        AdminRoute::Agents
    } else {
        AdminRoute::Status
    }
}

/// The status line of an answer.
pub open spec fn route_status(r: AdminRoute) -> Seq<char> {
    match r {
        AdminRoute::Unauthorized => "401 Unauthorized"@,
        AdminRoute::HealthNotReady => "503 Service Unavailable"@,
        _ => "200 OK"@,
    }
}

/// The content type of an answer.
pub open spec fn route_content_type(r: AdminRoute) -> Seq<char> {
    match r {
        AdminRoute::Agents | AdminRoute::Status => "application/json"@,
        _ => "text/plain"@,
    }
}

/// The body of an answer: fixed text, or the JSON view given.
pub open spec fn route_body(r: AdminRoute, json_body: Seq<char>) -> Seq<char> {
    match r {
        AdminRoute::Unauthorized => "unauthorized"@,
        AdminRoute::HealthOk => "ok"@,
        AdminRoute::HealthNotReady => "persistence_not_ready"@,
        _ => json_body,
    }
}

/// The HTTP/1.1 reply that carries an answer: status line, content type,
/// the body's length in bytes, an empty line, and the body (`json_body` for
/// the views).
pub fn admin_http_response(route: AdminRoute, json_body: &str) -> (s: String)
    ensures
        s@ == "HTTP/1.1 "@ + route_status(route) + "\r\nContent-Type: "@ + route_content_type(route)
            + "\r\nContent-Length: "@ + decimal_spec(encode_utf8(route_body(route, json_body@)).len()) + "\r\n\r\n"@
            + route_body(route, json_body@),
{
    let (status, content_type, body): (&str, &str, &str) = match route {
        AdminRoute::Unauthorized => ("401 Unauthorized", "text/plain", "unauthorized"),
        AdminRoute::HealthOk => ("200 OK", "text/plain", "ok"),
        AdminRoute::HealthNotReady => ("503 Service Unavailable", "text/plain", "persistence_not_ready"),
        AdminRoute::Agents => ("200 OK", "application/json", json_body),
        AdminRoute::Status => ("200 OK", "application/json", json_body),
    };
    proof {
        assert(status@ == route_status(route));
        assert(content_type@ == route_content_type(route));
        assert(body@ == route_body(route, json_body@));
    }
    let bytes = body.as_bytes();
    let len = bytes.len();
    proof {
        assert(bytes@ == encode_utf8(body@));
    }
    let len_text = decimal(len as u64);
    let a = concat3("HTTP/1.1 ", status, "\r\nContent-Type: ");
    let b = concat3(a.as_str(), content_type, "\r\nContent-Length: ");
    let c = concat3(b.as_str(), len_text.as_str(), "\r\n\r\n");
    let r = prefixed(c.as_str(), body);
    proof {
        assert(r@ =~= "HTTP/1.1 "@ + route_status(route) + "\r\nContent-Type: "@ + route_content_type(route)
            + "\r\nContent-Length: "@ + decimal_spec(encode_utf8(route_body(route, json_body@)).len()) + "\r\n\r\n"@
            + route_body(route, json_body@));
    }
    r
}

} // verus!
