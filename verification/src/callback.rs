//! Parsing of the OAuth callback request line — the authorization code or
//! error out of `GET /callback?... HTTP/1.1` — and the small HTTP
//! responses the callback listener answers with.
//!
//! Lengths in the responses count characters; the callback pages are
//! ASCII, where that equals the byte count.

use vstd::prelude::*;
use vstd::string::*;
use crate::extract::{find_from, is_ws, spec_find_from};

verus! {

/// The first line of the request: up to the first newline, a trailing
/// carriage return removed.
pub open spec fn spec_first_line(s: Seq<char>) -> Seq<char> {
    let nl = spec_find_from(s, "\n"@, 0);
    let line = if nl >= 0 {
        s.subrange(0, nl)
    } else {
        s
    };
    if line.len() > 0 && line.last() == '\r' {
        line.drop_last()
    } else {
        line
    }
}

/// First position at or after `i` that is not whitespace, or the length.
pub open spec fn spec_skip_ws(s: Seq<char>, i: int) -> int
    decreases s.len() - i,
{
    if i < 0 {
        spec_skip_ws(s, 0)
    } else if i >= s.len() {
        s.len() as int
    } else if is_ws(s[i]) {
        spec_skip_ws(s, i + 1)
    } else {
        i
    }
}

/// First position at or after `i` that is whitespace, or the length.
pub open spec fn spec_skip_non_ws(s: Seq<char>, i: int) -> int
    decreases s.len() - i,
{
    if i < 0 {
        spec_skip_non_ws(s, 0)
    } else if i >= s.len() {
        s.len() as int
    } else if !is_ws(s[i]) {
        spec_skip_non_ws(s, i + 1)
    } else {
        i
    }
}

/// Start of the second whitespace-separated token of the line, or the
/// length when there is none.
pub open spec fn spec_second_token_start(line: Seq<char>) -> int {
    spec_skip_ws(line, spec_skip_non_ws(line, spec_skip_ws(line, 0)))
}

/// The query part of a URL: between the first '?' and the second one or
/// the end; nothing without a '?'.
pub open spec fn spec_query_of(tok: Seq<char>) -> Option<Seq<char>> {
    let q1 = spec_find_from(tok, "?"@, 0);
    if q1 >= 0 {
        let q2 = spec_find_from(tok, "?"@, q1 + 1);
        Some(
            tok.subrange(
                q1 + 1,
                if q2 >= 0 {
                    q2
                } else {
                    tok.len() as int
                },
            ),
        )
    } else {
        None
    }
}

/// The value of the first `key=` parameter among '&'-separated segments:
/// `Some(Some(v))` when the key appears with a value, `Some(None)` when
/// the key appears as a whole segment without '=', `None` when the key
/// does not appear.
pub open spec fn spec_param_value(q: Seq<char>, key: Seq<char>) -> Option<Option<Seq<char>>>
    decreases q.len(),
{
    let amp = spec_find_from(q, "&"@, 0);
    let seg = if amp >= 0 {
        q.subrange(0, amp)
    } else {
        q
    };
    let eq = spec_find_from(seg, "="@, 0);
    let k = if eq >= 0 {
        seg.subrange(0, eq)
    } else {
        seg
    };
    if k == key {
        if eq >= 0 {
            let eq2 = spec_find_from(seg, "="@, eq + 1);
            Some(
                Some(
                    seg.subrange(
                        eq + 1,
                        if eq2 >= 0 {
                            eq2
                        } else {
                            seg.len() as int
                        },
                    ),
                ),
            )
        } else {
            Some(None)
        }
    } else if 0 <= amp < q.len() {
        spec_param_value(q.subrange(amp + 1, q.len() as int), key)
    } else {
        None
    }
}

/// The authorization code of a callback request: the request is
/// non-empty, its first line names "/callback?", its second token carries
/// a query, and the query's first "code" parameter has a value.
pub open spec fn spec_extract_code(req: Seq<char>) -> Option<Seq<char>> {
    if req.len() == 0 {
        None
    } else {
        let line = spec_first_line(req);
        if spec_find_from(line, "/callback?"@, 0) < 0 {
            None
        } else {
            let c = spec_second_token_start(line);
            if c >= line.len() {
                None
            } else {
                let d = spec_skip_non_ws(line, c);
                let tok = line.subrange(c, d);
                match spec_query_of(tok) {
                    None => None,
                    Some(q) => match spec_param_value(q, "code"@) {
                        Some(Some(v)) => Some(v),
                        _ => None,
                    },
                }
            }
        }
    }
}

/// The "%20"s of the sequence replaced by spaces, left to right.
pub open spec fn spec_replace_pct20(s: Seq<char>) -> Seq<char>
    decreases s.len(),
{
    let i = spec_find_from(s, "%20"@, 0);
    if i < 0 || i + 3 > s.len() {
        s
    } else {
        s.subrange(0, i) + " "@ + spec_replace_pct20(s.subrange(i + 3, s.len() as int))
    }
}

/// The error of a callback request: the first "error" parameter of the
/// second token's query, its "%20"s replaced by spaces.
pub open spec fn spec_extract_error(req: Seq<char>) -> Option<Seq<char>> {
    if req.len() == 0 {
        None
    } else {
        let line = spec_first_line(req);
        let c = spec_second_token_start(line);
        if c >= line.len() {
            None
        } else {
            let d = spec_skip_non_ws(line, c);
            let tok = line.subrange(c, d);
            match spec_query_of(tok) {
                None => None,
                Some(q) => match spec_param_value(q, "error"@) {
                    Some(Some(v)) => Some(spec_replace_pct20(v)),
                    _ => None,
                },
            }
        }
    }
}

/// First non-whitespace position at or after `i`.
fn skip_ws(s: &str, i: usize) -> (r: usize)
    requires
        i <= s@.len(),
    ensures
        r == spec_skip_ws(s@, i as int),
        i <= r <= s@.len(),
    decreases s@.len() - i,
{
    let n = s.unicode_len();
    if i >= n {
        n
    } else {
        let c = s.get_char(i);
        if c == ' ' || c == '\t' || c == '\n' || c == '\r' {
            skip_ws(s, i + 1)
        } else {
            i
        }
    }
}

/// First whitespace position at or after `i`.
fn skip_non_ws(s: &str, i: usize) -> (r: usize)
    requires
        i <= s@.len(),
    ensures
        r == spec_skip_non_ws(s@, i as int),
        i <= r <= s@.len(),
    decreases s@.len() - i,
{
    let n = s.unicode_len();
    if i >= n {
        n
    } else {
        let c = s.get_char(i);
        if !(c == ' ' || c == '\t' || c == '\n' || c == '\r') {
            skip_non_ws(s, i + 1)
        } else {
            i
        }
    }
}

/// Find the first `key` parameter among the '&'-separated segments.
fn param_value(q: &str, key: &str) -> (r: Option<Option<String>>)
    ensures
        match r {
            Some(Some(v)) => spec_param_value(q@, key@) == Some(Some(v@)),
            Some(None) => spec_param_value(q@, key@) == Some(None::<Seq<char>>),
            None => spec_param_value(q@, key@) is None,
        },
    decreases q@.len(),
{
    proof {
        reveal_strlit("&");
        reveal_strlit("=");
        assert("&"@.len() == 1);
        assert("="@.len() == 1);
    }
    let n = q.unicode_len();
    let amp = find_from(q, "&", 0);
    let seg_end: usize = match amp {
        Some(i) => i,
        None => n,
    };
    let seg = q.substring_char(0, seg_end);
    let eq = find_from(seg, "=", 0);
    let k_end: usize = match eq {
        Some(i) => i,
        None => seg_end,
    };
    let k = seg.substring_char(0, k_end);
    proof {
        assert(q@.subrange(0, q@.len() as int) =~= q@);
        assert(seg@.subrange(0, seg@.len() as int) =~= seg@);
    }
    if crate::text::str_eq(k, key) {
        match eq {
            Some(e) => {
                let eq2 = find_from(seg, "=", e + 1);
                let v_end: usize = match eq2 {
                    Some(i) => i,
                    None => seg_end,
                };
                let v = seg.substring_char(e + 1, v_end);
                Some(Some(v.to_owned()))
            },
            None => Some(None),
        }
    } else {
        match amp {
            Some(a) => {
                let rest = q.substring_char(a + 1, n);
                param_value(rest, key)
            },
            None => None,
        }
    }
}

/// The first line and the second token of the request, when one exists.
fn second_token(request: &str) -> (r: Option<String>)
    requires
        request@.len() > 0,
    ensures
        ({
            let line = spec_first_line(request@);
            let c = spec_second_token_start(line);
            match r {
                Some(t) => c < line.len() && t@ == line.subrange(
                    c,
                    spec_skip_non_ws(line, c),
                ),
                None => c >= line.len(),
            }
        }),
{
    proof {
        reveal_strlit("\n");
        assert("\n"@.len() == 1);
    }
    let n = request.unicode_len();
    let line_end: usize = match find_from(request, "\n", 0) {
        Some(i) => i,
        None => n,
    };
    let line_end = if line_end > 0 && request.get_char(line_end - 1) == '\r' {
        line_end - 1
    } else {
        line_end
    };
    let line = request.substring_char(0, line_end);
    proof {
        assert(line@ =~= spec_first_line(request@));
    }
    let a = skip_ws(line, 0);
    let b = skip_non_ws(line, a);
    let c = skip_ws(line, b);
    if c >= line.unicode_len() {
        return None;
    }
    let d = skip_non_ws(line, c);
    Some(line.substring_char(c, d).to_owned())
}

/// Extract the authorization code from an OAuth callback request line.
pub fn extract_code_from_request(request: &str) -> (r: Option<String>)
    ensures
        match r {
            Some(v) => spec_extract_code(request@) == Some(v@),
            None => spec_extract_code(request@) is None,
        },
{
    let n = request.unicode_len();
    if n == 0 {
        return None;
    }
    proof {
        reveal_strlit("\n");
        assert("\n"@.len() == 1);
    }
    let line_end: usize = match find_from(request, "\n", 0) {
        Some(i) => i,
        None => n,
    };
    let line_end = if line_end > 0 && request.get_char(line_end - 1) == '\r' {
        line_end - 1
    } else {
        line_end
    };
    let line = request.substring_char(0, line_end);
    proof {
        assert(line@ =~= spec_first_line(request@));
    }
    if matches!(find_from(line, "/callback?", 0), None) {
        return None;
    }
    let tok = match second_token(request) {
        Some(t) => t,
        None => {
            return None;
        },
    };
    proof {
        reveal_strlit("?");
        assert("?"@.len() == 1);
    }
    let tn = tok.as_str().unicode_len();
    let q1 = match find_from(tok.as_str(), "?", 0) {
        Some(i) => i,
        None => {
            return None;
        },
    };
    let q2: usize = match find_from(tok.as_str(), "?", q1 + 1) {
        Some(i) => i,
        None => tn,
    };
    let query = tok.as_str().substring_char(q1 + 1, q2);
    match param_value(query, "code") {
        Some(Some(v)) => Some(v),
        _ => None,
    }
}

/// Replace each "%20" with a space.
fn replace_pct20(s: &str) -> (r: String)
    ensures
        r@ == spec_replace_pct20(s@),
    decreases s@.len(),
{
    proof {
        reveal_strlit("%20");
        assert("%20"@.len() == 3);
    }
    let n = s.unicode_len();
    match find_from(s, "%20", 0) {
        None => s.to_owned(),
        Some(i) => {
            let mut out = s.substring_char(0, i).to_owned();
            out.append(" ");
            let rest = s.substring_char(i + 3, n);
            out.append(replace_pct20(rest).as_str());
            out
        },
    }
}

/// Extract the error parameter from an OAuth callback request line,
/// "%20"s replaced by spaces.
pub fn extract_error_from_request(request: &str) -> (r: Option<String>)
    ensures
        match r {
            Some(v) => spec_extract_error(request@) == Some(v@),
            None => spec_extract_error(request@) is None,
        },
{
    let n = request.unicode_len();
    if n == 0 {
        return None;
    }
    let tok = match second_token(request) {
        Some(t) => t,
        None => {
            return None;
        },
    };
    proof {
        reveal_strlit("?");
        assert("?"@.len() == 1);
    }
    let tn = tok.as_str().unicode_len();
    let q1 = match find_from(tok.as_str(), "?", 0) {
        Some(i) => i,
        None => {
            return None;
        },
    };
    let q2: usize = match find_from(tok.as_str(), "?", q1 + 1) {
        Some(i) => i,
        None => tn,
    };
    let query = tok.as_str().substring_char(q1 + 1, q2);
    match param_value(query, "error") {
        Some(Some(v)) => Some(replace_pct20(v.as_str())),
        _ => None,
    }
}

/// The HTML page the listener answers with on success.
pub open spec fn spec_success_body() -> Seq<char> {
    "<!DOCTYPE html>\n<html>\n<head><title>Trainer Log - Connected!</title></head>\n<body style=\"font-family: system-ui; text-align: center; padding: 50px;\">\n  <h1>Successfully Connected to Strava!</h1>\n  <p>You can close this window and return to Trainer Log.</p>\n</body>\n</html>"@
}

/// The HTTP response the listener answers with on success: a 200 with
/// the content length in characters and the success page.
pub open spec fn spec_success_response() -> Seq<char> {
    "HTTP/1.1 200 OK\r\nContent-Type: text/html\r\nContent-Length: "@ + crate::text::dec_str(
        spec_success_body().len() as int,
    ) + "\r\n\r\n"@ + spec_success_body()
}

/// Build the success response of the callback listener.
pub fn build_success_response() -> (r: String)
    ensures
        r@ == spec_success_response(),
{
    let body =
        "<!DOCTYPE html>\n<html>\n<head><title>Trainer Log - Connected!</title></head>\n<body style=\"font-family: system-ui; text-align: center; padding: 50px;\">\n  <h1>Successfully Connected to Strava!</h1>\n  <p>You can close this window and return to Trainer Log.</p>\n</body>\n</html>";
    let mut r = String::from_str("HTTP/1.1 200 OK\r\nContent-Type: text/html\r\nContent-Length: ");
    r.append(crate::text::u64_to_string(body.unicode_len() as u64).as_str());
    r.append("\r\n\r\n");
    r.append(body);
    r
}

/// The page before the error text.
pub open spec fn spec_error_body_head() -> Seq<char> {
    "<!DOCTYPE html>\n<html>\n<head><title>Trainer Log - Error</title></head>\n<body style=\"font-family: system-ui; text-align: center; padding: 50px;\">\n  <h1>Connection Failed</h1>\n  <p>Error: "@
}

/// The page after the error text.
pub open spec fn spec_error_body_tail() -> Seq<char> {
    "</p>\n  <p>Please try again.</p>\n</body>\n</html>"@
}

/// The HTTP response the listener answers with on failure: a 400 with
/// the content length in characters and the error page around the error
/// text.
pub open spec fn spec_error_response(error: Seq<char>) -> Seq<char> {
    let body = spec_error_body_head() + error + spec_error_body_tail();
    "HTTP/1.1 400 Bad Request\r\nContent-Type: text/html\r\nContent-Length: "@
        + crate::text::dec_str(body.len() as int) + "\r\n\r\n"@ + body
}

/// Build the error response of the callback listener.
pub fn build_error_response(error: &str) -> (r: String)
    ensures
        r@ == spec_error_response(error@),
{
    let mut body = String::from_str(
        "<!DOCTYPE html>\n<html>\n<head><title>Trainer Log - Error</title></head>\n<body style=\"font-family: system-ui; text-align: center; padding: 50px;\">\n  <h1>Connection Failed</h1>\n  <p>Error: ",
    );
    body.append(error);
    body.append("</p>\n  <p>Please try again.</p>\n</body>\n</html>");
    let mut r = String::from_str(
        "HTTP/1.1 400 Bad Request\r\nContent-Type: text/html\r\nContent-Length: ",
    );
    r.append(crate::text::u64_to_string(body.as_str().unicode_len() as u64).as_str());
    r.append("\r\n\r\n");
    r.append(body.as_str());
    r
}

} // verus!
