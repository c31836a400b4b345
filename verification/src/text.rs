//! Small verified text helpers: ASCII case-insensitive comparison and
//! decimal rendering of integers.

use vstd::prelude::*;
use vstd::string::*;

verus! {

/// Two characters match ignoring ASCII case: equal outright, or one is an
/// ASCII upper-case letter whose lower-case form is the other.
pub open spec fn chars_eq_ci(x: char, y: char) -> bool {
    ||| x == y
    ||| (65 <= x as int <= 90 && x as int + 32 == y as int)
    ||| (65 <= y as int <= 90 && y as int + 32 == x as int)
}

/// Two character sequences match ignoring ASCII case.
pub open spec fn seq_eq_ci(a: Seq<char>, b: Seq<char>) -> bool {
    a.len() == b.len() && (forall|i: int| 0 <= i < a.len() ==> chars_eq_ci(a[i], b[i]))
}

/// Compare two characters ignoring ASCII case.
pub fn char_eq_ci(x: char, y: char) -> (r: bool)
    ensures
        r == chars_eq_ci(x, y),
{
    let xi = x as u32;
    let yi = y as u32;
    if xi == yi {
        true
    } else if 65 <= xi && xi <= 90 {
        xi + 32 == yi
    } else if 65 <= yi && yi <= 90 {
        yi + 32 == xi
    } else {
        false
    }
}

/// Compare two strings ignoring ASCII case.
pub fn str_eq_ci(s: &str, t: &str) -> (r: bool)
    ensures
        r == seq_eq_ci(s@, t@),
{
    let n = s.unicode_len();
    if n != t.unicode_len() {
        return false;
    }
    let mut i: usize = 0;
    while i < n
        invariant
            i <= n,
            n == s@.len(),
            n == t@.len(),
            forall|j: int| 0 <= j < i ==> chars_eq_ci(s@[j], t@[j]),
        decreases n - i,
    {
        if !char_eq_ci(s.get_char(i), t.get_char(i)) {
            return false;
        }
        i = i + 1;
    }
    true
}

/// Compare two strings character by character.
pub fn str_eq(s: &str, t: &str) -> (r: bool)
    ensures
        r == (s@ == t@),
{
    let n = s.unicode_len();
    if n != t.unicode_len() {
        return false;
    }
    let mut i: usize = 0;
    while i < n
        invariant
            i <= n,
            n == s@.len(),
            n == t@.len(),
            forall|j: int| 0 <= j < i ==> s@[j] == t@[j],
        decreases n - i,
    {
        if s.get_char(i) != t.get_char(i) {
            return false;
        }
        i = i + 1;
    }
    proof {
        assert(s@ =~= t@);
    }
    true
}

/// The activity kind names a run.
pub open spec fn spec_is_run(s: Seq<char>) -> bool {
    seq_eq_ci(s, "run"@)
}

/// The activity kind names a ride.
pub open spec fn spec_is_ride(s: Seq<char>) -> bool {
    seq_eq_ci(s, "ride"@)
}

/// Whether the activity kind names a run (case-insensitive).
pub fn is_run(s: &str) -> (r: bool)
    ensures
        r == spec_is_run(s@),
{
    str_eq_ci(s, "run")
}

/// Whether the activity kind names a ride (case-insensitive).
pub fn is_ride(s: &str) -> (r: bool)
    ensures
        r == spec_is_ride(s@),
{
    str_eq_ci(s, "ride")
}

/// The character of one decimal digit.
pub open spec fn digit_char(d: int) -> char {
    if d == 0 {
        '0'
    } else if d == 1 {
        '1'
    } else if d == 2 {
        '2'
    } else if d == 3 {
        '3'
    } else if d == 4 {
        '4'
    } else if d == 5 {
        '5'
    } else if d == 6 {
        '6'
    } else if d == 7 {
        '7'
    } else if d == 8 {
        '8'
    } else {
        '9'
    }
}

/// The decimal rendering of a non-negative integer, most significant digit
/// first, without leading zeroes (zero renders as "0").
pub open spec fn dec_str(n: int) -> Seq<char>
    decreases n,
{
    if n < 10 {
        seq![digit_char(n)]
    } else {
        dec_str(n / 10) + seq![digit_char(n % 10)]
    }
}

/// The decimal rendering of a signed integer.
pub open spec fn dec_str_signed(n: int) -> Seq<char> {
    if n < 0 {
        seq!['-'] + dec_str(-n)
    } else {
        dec_str(n)
    }
}

/// One decimal digit as a string slice.
fn digit_str(d: u64) -> (r: &'static str)
    requires
        d < 10,
    ensures
        r@ == seq![digit_char(d as int)],
{
    let r: &'static str = match d {
        0 => "0",
        1 => "1",
        2 => "2",
        3 => "3",
        4 => "4",
        5 => "5",
        6 => "6",
        7 => "7",
        8 => "8",
        _ => "9",
    };
    proof {
        reveal_strlit("0");
        reveal_strlit("1");
        reveal_strlit("2");
        reveal_strlit("3");
        reveal_strlit("4");
        reveal_strlit("5");
        reveal_strlit("6");
        reveal_strlit("7");
        reveal_strlit("8");
        reveal_strlit("9");
        assert(r@ =~= seq![digit_char(d as int)]);
    }
    r
}

/// Render a non-negative integer in decimal.
pub fn u64_to_string(n: u64) -> (s: String)
    ensures
        s@ == dec_str(n as int),
    decreases n,
{
    if n < 10 {
        String::from_str(digit_str(n))
    } else {
        let mut s = u64_to_string(n / 10);
        s.append(digit_str(n % 10));
        s
    }
}

/// Render a signed integer in decimal.
pub fn i64_to_string(n: i64) -> (s: String)
    requires
        n != i64::MIN,
    ensures
        s@ == dec_str_signed(n as int),
{
    if n < 0 {
        let mut s = String::from_str("-");
        proof {
            reveal_strlit("-");
            assert(s@ =~= seq!['-']);
        }
        s.append(u64_to_string((-n) as u64).as_str());
        s
    } else {
        u64_to_string(n as u64)
    }
}

/// Pieces joined with ", " between them.
pub open spec fn spec_join_comma(parts: Seq<Seq<char>>) -> Seq<char>
    decreases parts.len(),
{
    if parts.len() == 0 {
        Seq::empty()
    } else if parts.len() == 1 {
        parts[0]
    } else {
        spec_join_comma(parts.drop_last()) + ", "@ + parts.last()
    }
}

/// Join strings with ", " between them.
pub fn join_comma(parts: &Vec<String>) -> (s: String)
    ensures
        s@ == spec_join_comma(parts@.map_values(|p: String| p@)),
{
    let ghost view_parts = parts@.map_values(|p: String| p@);
    let mut s = String::new();
    let n = parts.len();
    let mut i: usize = 0;
    while i < n
        invariant
            i <= n,
            n == parts@.len(),
            view_parts == parts@.map_values(|p: String| p@),
            s@ == spec_join_comma(view_parts.take(i as int)),
        decreases n - i,
    {
        if i > 0 {
            s.append(", ");
        }
        s.append(parts[i].as_str());
        proof {
            assert(view_parts.take(i + 1).drop_last() =~= view_parts.take(i as int));
            assert(view_parts.take(i + 1).last() == view_parts[i as int]);
            assert(view_parts[i as int] == parts@[i as int]@);
        }
        i = i + 1;
    }
    proof {
        assert(view_parts.take(n as int) =~= view_parts);
    }
    s
}

/// A quantity in hundredths rendered with one decimal place, truncated
/// toward zero: a sign when negative, the whole part, a point, one digit.
pub open spec fn centi_str_1dp(c: int) -> Seq<char> {
    let a = if c < 0 { -c } else { c };
    let sign: Seq<char> = if c < 0 { seq!['-'] } else { Seq::empty() };
    sign + dec_str(a / 100) + seq!['.'] + seq![digit_char(a % 100 / 10)]
}

/// Render a centi quantity with one decimal place, truncated toward zero.
pub fn centi_to_string_1dp(c: i64) -> (s: String)
    requires
        c != i64::MIN,
    ensures
        s@ == centi_str_1dp(c as int),
{
    let a: i64 = if c < 0 { -c } else { c };
    let mut s = if c < 0 {
        let mut t = String::from_str("-");
        proof {
            reveal_strlit("-");
            assert(t@ =~= seq!['-']);
        }
        t
    } else {
        String::new()
    };
    s.append(u64_to_string((a / 100) as u64).as_str());
    s.append(".");
    proof {
        reveal_strlit(".");
        assert("."@ =~= seq!['.']);
    }
    s.append(digit_str((a % 100 / 10) as u64));
    s
}

} // verus!
