//! Extraction of a JSON payload from a narrative answer: a direct object,
//! a fenced code block, or the outermost brace pair, in that order.

use vstd::prelude::*;
use vstd::string::*;
use crate::report::LlmError;

verus! {

/// The pattern occurs in `s` at position `i`.
pub open spec fn match_at(s: Seq<char>, pat: Seq<char>, i: int) -> bool {
    0 <= i && i + pat.len() <= s.len() && s.subrange(i, i + pat.len()) == pat
}

/// First position at or after `from` where the pattern occurs, or `-1`.
pub open spec fn spec_find_from(s: Seq<char>, pat: Seq<char>, from: int) -> int
    decreases s.len() - from,
{
    if from < 0 {
        spec_find_from(s, pat, 0)
    } else if from + pat.len() > s.len() {
        -1
    } else if pat.len() == 0 {
        from
    } else if match_at(s, pat, from) {
        from
    } else {
        spec_find_from(s, pat, from + 1)
    }
}

/// What `spec_find_from` returns: a real match behind unmatched
/// positions, or `-1` when nothing at or after `from` matches.
pub proof fn lemma_find_from_props(s: Seq<char>, pat: Seq<char>, from: int)
    requires
        0 <= from <= s.len(),
    ensures
        spec_find_from(s, pat, from) == -1 || from <= spec_find_from(s, pat, from),
        spec_find_from(s, pat, from) >= 0 ==> match_at(s, pat, spec_find_from(s, pat, from)),
        spec_find_from(s, pat, from) == -1 ==> forall|j: int|
            from <= j ==> !match_at(s, pat, j),
        forall|j: int| from <= j < spec_find_from(s, pat, from) ==> !match_at(s, pat, j),
    decreases s.len() - from,
{
    if from + pat.len() > s.len() {
        assert forall|j: int| from <= j implies !match_at(s, pat, j) by {}
    } else if pat.len() == 0 {
        assert(s.subrange(from, from + pat.len()) =~= pat);
    } else if match_at(s, pat, from) {
    } else {
        lemma_find_from_props(s, pat, from + 1);
    }
}

/// Whether the pattern occurs at position `i`.
pub(crate) fn check_match_at(s: &str, pat: &str, i: usize) -> (r: bool)
    requires
        i + pat@.len() <= s@.len(),
    ensures
        r == match_at(s@, pat@, i as int),
{
    let n = s.unicode_len();
    let m = pat.unicode_len();
    let mut k: usize = 0;
    while k < m
        invariant
            k <= m,
            m == pat@.len(),
            n == s@.len(),
            i + m <= n,
            forall|j: int| 0 <= j < k ==> s@[i + j] == pat@[j],
        decreases m - k,
    {
        if s.get_char(i + k) != pat.get_char(k) {
            proof {
                assert(s@.subrange(i as int, i + pat@.len()) != pat@) by {
                    assert(s@.subrange(i as int, i + pat@.len())[k as int] == s@[i + k]);
                }
            }
            return false;
        }
        k = k + 1;
    }
    proof {
        assert(s@.subrange(i as int, i + pat@.len()) =~= pat@);
    }
    true
}

/// Find the first occurrence of the pattern at or after `from`.
pub(crate) fn find_from(s: &str, pat: &str, from: usize) -> (r: Option<usize>)
    requires
        from <= s@.len(),
    ensures
        match r {
            Some(i) => i == spec_find_from(s@, pat@, from as int) && from <= i && i + pat@.len()
                <= s@.len() && match_at(s@, pat@, i as int),
            None => spec_find_from(s@, pat@, from as int) == -1,
        },
{
    let n = s.unicode_len();
    let m = pat.unicode_len();
    if m == 0 {
        proof {
            assert(s@.subrange(from as int, from as int) =~= pat@);
        }
        return Some(from);
    }
    if m > n || from > n - m {
        proof {
            lemma_find_from_props(s@, pat@, from as int);
            assert(spec_find_from(s@, pat@, from as int) == -1) by {
                if spec_find_from(s@, pat@, from as int) >= 0 {
                    assert(match_at(s@, pat@, spec_find_from(s@, pat@, from as int)));
                }
            }
        }
        return None;
    }
    let mut i: usize = from;
    while i <= n - m
        invariant
            1 <= m <= n,
            from <= i,
            i <= n,
            n == s@.len(),
            m == pat@.len(),
            forall|j: int| from <= j < i ==> !match_at(s@, pat@, j),
        decreases n - i,
    {
        if check_match_at(s, pat, i) {
            proof {
                lemma_find_from_props(s@, pat@, from as int);
                let f = spec_find_from(s@, pat@, from as int);
                if f == -1 {
                    assert(!match_at(s@, pat@, i as int));
                    assert(false);
                }
                if f < i {
                    assert(!match_at(s@, pat@, f));
                    assert(false);
                }
                if f > i {
                    assert(!match_at(s@, pat@, i as int));
                    assert(false);
                }
            }
            return Some(i);
        }
        i = i + 1;
    }
    proof {
        lemma_find_from_props(s@, pat@, from as int);
        let f = spec_find_from(s@, pat@, from as int);
        if f >= 0 {
            assert(match_at(s@, pat@, f));
            assert(f + pat@.len() <= s@.len());
            assert(false);
        }
    }
    None
}

/// Last position of the character, or `-1`.
pub open spec fn spec_rfind_char(s: Seq<char>, c: char) -> int
    decreases s.len(),
{
    if s.len() == 0 {
        -1
    } else if s.last() == c {
        s.len() - 1
    } else {
        spec_rfind_char(s.drop_last(), c)
    }
}

/// What `spec_rfind_char` returns: the last occurrence, or `-1` when the
/// character is absent.
pub proof fn lemma_rfind_char_props(s: Seq<char>, c: char)
    ensures
        -1 <= spec_rfind_char(s, c) < s.len(),
        spec_rfind_char(s, c) >= 0 ==> s[spec_rfind_char(s, c)] == c,
        forall|j: int| spec_rfind_char(s, c) < j < s.len() ==> s[j] != c,
    decreases s.len(),
{
    if s.len() > 0 && s.last() != c {
        lemma_rfind_char_props(s.drop_last(), c);
        assert forall|j: int| spec_rfind_char(s, c) < j < s.len() implies s[j] != c by {
            if j < s.len() - 1 {
                assert(s.drop_last()[j] == s[j]);
            }
        }
    }
}

/// Find the last occurrence of the character.
pub(crate) fn rfind_char(s: &str, c: char) -> (r: Option<usize>)
    ensures
        match r {
            Some(i) => i == spec_rfind_char(s@, c) && i < s@.len(),
            None => spec_rfind_char(s@, c) == -1,
        },
{
    let n = s.unicode_len();
    let mut i: usize = n;
    while i > 0
        invariant
            i <= n,
            n == s@.len(),
            forall|j: int| i <= j < n ==> s@[j] != c,
        decreases i,
    {
        i = i - 1;
        if s.get_char(i) == c {
            proof {
                lemma_rfind_char_back(s@, c, i as int);
            }
            return Some(i);
        }
    }
    proof {
        lemma_rfind_char_props(s@, c);
        if spec_rfind_char(s@, c) >= 0 {
            assert(s@[spec_rfind_char(s@, c)] == c);
            assert(false);
        }
    }
    None
}

/// A character at `k` with none after it is the last occurrence.
proof fn lemma_rfind_char_back(s: Seq<char>, c: char, k: int)
    requires
        0 <= k < s.len(),
        s[k] == c,
        forall|j: int| k < j < s.len() ==> s[j] != c,
    ensures
        spec_rfind_char(s, c) == k,
    decreases s.len(),
{
    if k == s.len() - 1 {
    } else {
        assert(s.last() != c);
        assert(s.drop_last()[k] == s[k]);
        assert forall|j: int| k < j < s.drop_last().len() implies s.drop_last()[j] != c by {
            assert(s.drop_last()[j] == s[j]);
        }
        lemma_rfind_char_back(s.drop_last(), c, k);
    }
}

/// The character is whitespace for trimming purposes: space, tab,
/// newline or carriage return.
pub open spec fn is_ws(c: char) -> bool {
    c == ' ' || c == '\t' || c == '\n' || c == '\r'
}

/// The sequence with leading whitespace removed.
pub open spec fn trim_start(s: Seq<char>) -> Seq<char>
    decreases s.len(),
{
    if s.len() > 0 && is_ws(s.first()) {
        trim_start(s.drop_first())
    } else {
        s
    }
}

/// The sequence with trailing whitespace removed.
pub open spec fn trim_end(s: Seq<char>) -> Seq<char>
    decreases s.len(),
{
    if s.len() > 0 && is_ws(s.last()) {
        trim_end(s.drop_last())
    } else {
        s
    }
}

/// The sequence with surrounding whitespace removed.
pub open spec fn spec_trim(s: Seq<char>) -> Seq<char> {
    trim_end(trim_start(s))
}

/// Removing a fully-whitespace prefix realizes `trim_start`.
proof fn lemma_trim_start_at(s: Seq<char>, k: int)
    requires
        0 <= k <= s.len(),
        forall|j: int| 0 <= j < k ==> is_ws(s[j]),
        k < s.len() ==> !is_ws(s[k]),
    ensures
        trim_start(s) == s.subrange(k, s.len() as int),
    decreases k,
{
    if k == 0 {
        if s.len() > 0 && is_ws(s.first()) {
            assert(false);
        }
        assert(s.subrange(0, s.len() as int) =~= s);
    } else {
        assert(is_ws(s.first()));
        let t = s.drop_first();
        assert forall|j: int| 0 <= j < k - 1 implies is_ws(t[j]) by {
            assert(t[j] == s[j + 1]);
        }
        if k - 1 < t.len() {
            assert(t[k - 1] == s[k]);
        }
        lemma_trim_start_at(t, k - 1);
        assert(t.subrange(k - 1, t.len() as int) =~= s.subrange(k, s.len() as int));
    }
}

/// Removing a fully-whitespace suffix realizes `trim_end`.
proof fn lemma_trim_end_at(s: Seq<char>, k: int)
    requires
        0 <= k <= s.len(),
        forall|j: int| k <= j < s.len() ==> is_ws(s[j]),
        k > 0 ==> !is_ws(s[k - 1]),
    ensures
        trim_end(s) == s.subrange(0, k),
    decreases s.len() - k,
{
    if k == s.len() {
        if s.len() > 0 && is_ws(s.last()) {
            assert(false);
        }
        assert(s.subrange(0, k) =~= s);
    } else {
        assert(is_ws(s.last()));
        let t = s.drop_last();
        assert forall|j: int| k <= j < t.len() implies is_ws(t[j]) by {
            assert(t[j] == s[j]);
        }
        if k > 0 {
            assert(t[k - 1] == s[k - 1]);
        }
        lemma_trim_end_at(t, k);
        assert(t.subrange(0, k) =~= s.subrange(0, k));
    }
}

/// Index of the first non-whitespace character, or the length.
fn first_non_ws(s: &str) -> (a: usize)
    ensures
        a <= s@.len(),
        forall|j: int| 0 <= j < a ==> is_ws(s@[j]),
        a < s@.len() ==> !is_ws(s@[a as int]),
{
    let n = s.unicode_len();
    let mut i: usize = 0;
    while i < n
        invariant
            i <= n,
            n == s@.len(),
            forall|j: int| 0 <= j < i ==> is_ws(s@[j]),
        decreases n - i,
    {
        let c = s.get_char(i);
        if !(c == ' ' || c == '\t' || c == '\n' || c == '\r') {
            return i;
        }
        i = i + 1;
    }
    n
}

/// One past the last non-whitespace character at or after `a`, or `a`.
fn last_non_ws_end(s: &str, a: usize) -> (b: usize)
    requires
        a <= s@.len(),
    ensures
        a <= b <= s@.len(),
        forall|j: int| b <= j < s@.len() ==> is_ws(s@[j]),
        b > a ==> !is_ws(s@[b - 1]),
{
    let n = s.unicode_len();
    let mut b: usize = n;
    while b > a
        invariant
            a <= b <= n,
            n == s@.len(),
            forall|j: int| b <= j < n ==> is_ws(s@[j]),
        decreases b,
    {
        let c = s.get_char(b - 1);
        if !(c == ' ' || c == '\t' || c == '\n' || c == '\r') {
            return b;
        }
        b = b - 1;
    }
    b
}

/// Copy the string with surrounding whitespace removed.
fn trim(s: &str) -> (r: String)
    ensures
        r@ == spec_trim(s@),
{
    let a = first_non_ws(s);
    let b = last_non_ws_end(s, a);
    proof {
        lemma_trim_start_at(s@, a as int);
        let t = s@.subrange(a as int, s@.len() as int);
        assert forall|j: int| b - a <= j < t.len() implies is_ws(t[j]) by {
            assert(t[j] == s@[a + j]);
        }
        if b > a {
            assert(t[b - a - 1] == s@[b - 1]);
        }
        lemma_trim_end_at(t, b as int - a as int);
        assert(t.subrange(0, b as int - a as int) =~= s@.subrange(a as int, b as int));
    }
    let piece = s.substring_char(a, b);
    piece.to_owned()
}

/// The extracted JSON payload of a narrative answer, or nothing:
/// the whole trimmed text when it already starts with a brace; else the
/// trimmed inside of a "```json" fence when one closes; else the trimmed
/// inside of a plain "```" fence (after its language line) when one
/// closes; else the span from the first '{' through the last '}' when
/// both exist in that order.
pub open spec fn spec_extract_json(s: Seq<char>) -> Option<Seq<char>> {
    let t = spec_trim(s);
    if t.len() > 0 && t.first() == '{' {
        Some(t)
    } else {
        let fj = spec_find_from(s, "```json"@, 0);
        let fj_end = spec_find_from(s, "```"@, fj + 7);
        if fj >= 0 && fj_end >= 0 {
            Some(spec_trim(s.subrange(fj + 7, fj_end)))
        } else {
            let fp = spec_find_from(s, "```"@, 0);
            if fp >= 0 {
                let nl = spec_find_from(s, "\n"@, fp + 3);
                let cs = if nl >= 0 {
                    nl + 1
                } else {
                    fp + 3
                };
                let fp_end = spec_find_from(s, "```"@, cs);
                if fp_end >= 0 {
                    Some(spec_trim(s.subrange(cs, fp_end)))
                } else {
                    spec_extract_braces(s)
                }
            } else {
                spec_extract_braces(s)
            }
        }
    }
}

/// The last fallback: the span from the first '{' through the last '}',
/// when both exist and do not cross.
pub open spec fn spec_extract_braces(s: Seq<char>) -> Option<Seq<char>> {
    let open = spec_find_from(s, "{"@, 0);
    let close = spec_rfind_char(s, '}');
    if open >= 0 && close >= 0 && open <= close {
        Some(s.subrange(open, close + 1))
    } else {
        None
    }
}

/// Extract the JSON payload from a narrative answer: the whole text when
/// it is already an object, the inside of a fenced code block, or the
/// outermost brace pair; an error when none of these applies.
pub fn extract_json(text: &str) -> (r: Result<String, LlmError>)
    ensures
        match r {
            Ok(s) => spec_extract_json(text@) == Some(s@),
            Err(e) => spec_extract_json(text@) is None && (e matches LlmError::Parse(m) && m@
                == "Could not extract JSON from response"@),
        },
{
    let nlen = text.unicode_len();
    let trimmed = trim(text);
    if trimmed.as_str().unicode_len() > 0 && trimmed.as_str().get_char(0) == '{' {
        return Ok(trimmed);
    }

    proof {
        reveal_strlit("```json");
        reveal_strlit("```");
        reveal_strlit("\n");
        reveal_strlit("{");
        assert("```json"@.len() == 7);
        assert("```"@.len() == 3);
        assert("\n"@.len() == 1);
        assert("{"@.len() == 1);
    }

    if let Some(fj) = find_from(text, "```json", 0) {
        let start = fj + 7;
        if let Some(fj_end) = find_from(text, "```", start) {
            let piece = text.substring_char(start, fj_end);
            return Ok(trim(piece));
        }
    }

    if let Some(fp) = find_from(text, "```", 0) {
        let after = fp + 3;
        let cs = match find_from(text, "\n", after) {
            Some(nl) => nl + 1,
            None => after,
        };
        if let Some(fp_end) = find_from(text, "```", cs) {
            if fp_end >= cs {
                let piece = text.substring_char(cs, fp_end);
                return Ok(trim(piece));
            }
        }
    }

    let open = find_from(text, "{", 0);
    let close = rfind_char(text, '}');
    match (open, close) {
        (Some(o), Some(c)) => if o <= c {
            let piece = text.substring_char(o, c + 1);
            return Ok(piece.to_owned());
        } else {
            Err(LlmError::Parse(String::from_str("Could not extract JSON from response")))
        },
        _ => Err(LlmError::Parse(String::from_str("Could not extract JSON from response"))),
    }
}

} // verus!
