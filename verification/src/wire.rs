//! The wire form of a step configuration: a tagged JSON union with
//! variant-specific fields. This shape is the persisted source of truth.
//!
//! The serializer emits exactly the canonical encoding `spec_wire_of`
//! describes; the parser accepts a string exactly when it is the
//! canonical encoding of some wire-well-formed configuration, and then
//! returns the configuration it encodes. Together with the injectivity
//! of the encoding, serializing and parsing back is the identity.

use vstd::prelude::*;
use vstd::string::*;
use crate::step::{DimensionValue, StepConfig, MAX_STEP_ENTRIES, MAX_STEP_MINUTES};
use crate::text::{dec_str, u64_to_string};

verus! {

/// A character that may stand inside a quoted wire string: not a quote,
/// not a backslash, not a control character.
pub open spec fn wire_safe_char(c: char) -> bool {
    c != '"' && c != '\\' && c as int >= 32
}

/// Every character of the text is wire-safe.
pub open spec fn wire_safe(t: Seq<char>) -> bool {
    forall|i: int| 0 <= i < t.len() ==> wire_safe_char(#[trigger] t[i])
}

/// A configuration whose strings can stand on the wire unescaped.
pub open spec fn wire_wf(c: StepConfig) -> bool {
    &&& c.wf()
    &&& match c {
        StepConfig::Sequence { sequence } => forall|i: int|
            0 <= i < sequence@.len() ==> wire_safe((#[trigger] sequence@[i])@),
        StepConfig::Increment { unit, .. } => wire_safe(unit@),
        StepConfig::Regulated { unit, .. } => wire_safe(unit@),
    }
}

/// A quoted wire string.
pub open spec fn quote_wire(t: Seq<char>) -> Seq<char> {
    seq!['"'] + t + seq!['"']
}

/// A comma-separated list of quoted strings.
pub open spec fn strings_wire(ts: Seq<String>) -> Seq<char>
    decreases ts.len(),
{
    if ts.len() == 0 {
        Seq::empty()
    } else if ts.len() == 1 {
        quote_wire(ts[0]@)
    } else {
        strings_wire(ts.drop_last()) + seq![','] + quote_wire(ts.last()@)
    }
}

/// A comma-separated list of decimal numbers.
pub open spec fn ints_wire(vs: Seq<i32>) -> Seq<char>
    decreases vs.len(),
{
    if vs.len() == 0 {
        Seq::empty()
    } else if vs.len() == 1 {
        dec_str(vs[0] as int)
    } else {
        ints_wire(vs.drop_last()) + seq![','] + dec_str(vs.last() as int)
    }
}

/// The canonical wire encoding of a step configuration: a tagged union
/// with `type` "sequence", "increment" or "regulated" and the variant's
/// fields.
pub open spec fn spec_wire_of(c: StepConfig) -> Seq<char> {
    match c {
        StepConfig::Sequence { sequence } => "{\"type\":\""@ + "sequence\",\"sequence\":["@
            + strings_wire(sequence@) + "]}"@,
        StepConfig::Increment { increment, unit } => "{\"type\":\""@
            + "increment\",\"increment\":"@ + dec_str(increment as int) + ",\"unit\":"@
            + quote_wire(unit@) + "}"@,
        StepConfig::Regulated { options, unit } => "{\"type\":\""@ + "regulated\",\"options\":["@
            + ints_wire(options@) + "],\"unit\":"@ + quote_wire(unit@) + "}"@,
    }
}

impl StepConfig {
    /// Serialize to the canonical wire form.
    pub fn to_json(&self) -> (r: String)
        requires
            self matches StepConfig::Increment { increment, .. } ==> increment > 0,
            self matches StepConfig::Regulated { options, .. } ==> forall|i: int|
                0 <= i < options@.len() ==> #[trigger] options@[i] >= 0,
        ensures
            r@ == spec_wire_of(*self),
    {
        let mut r = String::from_str("{\"type\":\"");
        match self {
            StepConfig::Sequence { sequence } => {
                r.append("sequence\",\"sequence\":[");
                let ghost head = "{\"type\":\""@ + "sequence\",\"sequence\":["@;
                let n = sequence.len();
                let mut i: usize = 0;
                while i < n
                    invariant
                        i <= n,
                        n == sequence@.len(),
                        r@ == head + strings_wire(sequence@.take(i as int)),
                    decreases n - i,
                {
                    if i > 0 {
                        r.append(",");
                        proof {
                            reveal_strlit(",");
                            assert(","@ =~= seq![',']);
                        }
                    }
                    r.append("\"");
                    r.append(sequence[i].as_str());
                    r.append("\"");
                    proof {
                        reveal_strlit("\"");
                        assert("\""@ =~= seq!['"']);
                        assert(sequence@.take(i + 1).drop_last() =~= sequence@.take(i as int));
                        assert(sequence@.take(i + 1).last() == sequence@[i as int]);
                        assert(r@ =~= head + strings_wire(sequence@.take(i + 1)));
                    }
                    i = i + 1;
                }
                proof {
                    assert(sequence@.take(n as int) =~= sequence@);
                }
                r.append("]}");
            },
            StepConfig::Increment { increment, unit } => {
                r.append("increment\",\"increment\":");
                r.append(u64_to_string(*increment as u64).as_str());
                r.append(",\"unit\":");
                r.append("\"");
                r.append(unit.as_str());
                r.append("\"");
                r.append("}");
                proof {
                    reveal_strlit("\"");
                    assert("\""@ =~= seq!['"']);
                    assert(r@ =~= spec_wire_of(*self));
                }
            },
            StepConfig::Regulated { options, unit } => {
                r.append("regulated\",\"options\":[");
                let ghost head = "{\"type\":\""@ + "regulated\",\"options\":["@;
                let n = options.len();
                let mut i: usize = 0;
                while i < n
                    invariant
                        i <= n,
                        n == options@.len(),
                        forall|k: int| 0 <= k < n ==> #[trigger] options@[k] >= 0,
                        r@ == head + ints_wire(options@.take(i as int)),
                    decreases n - i,
                {
                    if i > 0 {
                        r.append(",");
                        proof {
                            reveal_strlit(",");
                            assert(","@ =~= seq![',']);
                        }
                    }
                    r.append(u64_to_string(options[i] as u64).as_str());
                    proof {
                        assert(options@.take(i + 1).drop_last() =~= options@.take(i as int));
                        assert(options@.take(i + 1).last() == options@[i as int]);
                        assert(r@ =~= head + ints_wire(options@.take(i + 1)));
                    }
                    i = i + 1;
                }
                proof {
                    assert(options@.take(n as int) =~= options@);
                }
                r.append("],\"unit\":");
                r.append("\"");
                r.append(unit.as_str());
                r.append("\"");
                r.append("}");
                proof {
                    reveal_strlit("\"");
                    assert("\""@ =~= seq!['"']);
                    assert(r@ =~= spec_wire_of(*self));
                }
            },
        }
        proof {
            assert(r@ =~= spec_wire_of(*self));
        }
        r
    }

    /// Parse the canonical wire form. Succeeds on a string exactly when
    /// it is the canonical encoding of a wire-well-formed configuration,
    /// and then returns that configuration; with the injectivity of the
    /// encoding, `from_json` of `to_json` always returns the serialized
    /// configuration.
    pub fn from_json(s: &str) -> (r: Result<StepConfig, String>)
        ensures
            match r {
                Ok(c) => wire_wf(c) && s@ == spec_wire_of(c),
                Err(m) => m@ == "Failed to parse step config"@,
            },
            (exists|c: StepConfig| wire_wf(c) && s@ == spec_wire_of(c)) ==> r is Ok,
    {
        match parse_config(s) {
            Some(c) => Ok(c),
            None => Err(String::from_str("Failed to parse step config")),
        }
    }
}

/// Two configurations carry the same values: same variant, equal
/// numbers, and strings equal text for text.
pub open spec fn config_like(a: StepConfig, b: StepConfig) -> bool {
    match (a, b) {
        (StepConfig::Sequence { sequence: s1 }, StepConfig::Sequence { sequence: s2 }) => s1@.len()
            == s2@.len() && (forall|i: int| 0 <= i < s1@.len() ==> (#[trigger] s1@[i])@
            == (#[trigger] s2@[i])@),
        (
            StepConfig::Increment { increment: i1, unit: u1 },
            StepConfig::Increment { increment: i2, unit: u2 },
        ) => i1 == i2 && u1@ == u2@,
        (
            StepConfig::Regulated { options: o1, unit: u1 },
            StepConfig::Regulated { options: o2, unit: u2 },
        ) => o1@ == o2@ && u1@ == u2@,
        _ => false,
    }
}

/// Every character of a decimal rendering is a digit.
proof fn lemma_dec_str_digits(n: int)
    requires
        n >= 0,
    ensures
        dec_str(n).len() >= 1,
        forall|i: int| 0 <= i < dec_str(n).len() ==> 48 <= (#[trigger] dec_str(n)[i]) as int
            <= 57,
    decreases n,
{
    if n >= 10 {
        lemma_dec_str_digits(n / 10);
        assert forall|i: int| 0 <= i < dec_str(n).len() implies 48 <= (#[trigger] dec_str(
            n,
        )[i]) as int <= 57 by {
            if i < dec_str(n / 10).len() {
                assert(dec_str(n)[i] == dec_str(n / 10)[i]);
            } else {
                assert(dec_str(n)[i] == crate::text::digit_char(n % 10));
            }
        }
    }
}

/// Decimal renderings are distinct for distinct numbers.
proof fn lemma_dec_str_injective(a: int, b: int)
    requires
        a >= 0,
        b >= 0,
        dec_str(a) == dec_str(b),
    ensures
        a == b,
    decreases a,
{
    if a < 10 && b < 10 {
        assert(dec_str(a)[0] == crate::text::digit_char(a));
        assert(dec_str(b)[0] == crate::text::digit_char(b));
    } else if a < 10 {
        lemma_dec_str_digits(b / 10);
        assert(dec_str(b).len() >= 2);
    } else if b < 10 {
        lemma_dec_str_digits(a / 10);
        assert(dec_str(a).len() >= 2);
    } else {
        assert(dec_str(a).last() == crate::text::digit_char(a % 10));
        assert(dec_str(b).last() == crate::text::digit_char(b % 10));
        assert(a % 10 == b % 10);
        assert(dec_str(a).drop_last() =~= dec_str(a / 10));
        assert(dec_str(b).drop_last() =~= dec_str(b / 10));
        lemma_dec_str_injective(a / 10, b / 10);
        vstd::arithmetic::div_mod::lemma_fundamental_div_mod(a, 10);
        vstd::arithmetic::div_mod::lemma_fundamental_div_mod(b, 10);
    }
}

/// A rendered number list holds only digits and commas, and is non-empty
/// exactly when the list is.
proof fn lemma_ints_wire_chars(vs: Seq<i32>)
    requires
        forall|i: int| 0 <= i < vs.len() ==> #[trigger] vs[i] >= 0,
    ensures
        vs.len() >= 1 ==> ints_wire(vs).len() >= 1,
        forall|i: int| 0 <= i < ints_wire(vs).len() ==> (48 <= (#[trigger] ints_wire(
            vs,
        )[i]) as int <= 57 || ints_wire(vs)[i] == ','),
    decreases vs.len(),
{
    if vs.len() == 1 {
        lemma_dec_str_digits(vs[0] as int);
    } else if vs.len() > 1 {
        lemma_ints_wire_chars(vs.drop_last());
        lemma_dec_str_digits(vs.last() as int);
        let a = ints_wire(vs.drop_last());
        let d = dec_str(vs.last() as int);
        assert forall|i: int| 0 <= i < ints_wire(vs).len() implies (48 <= (#[trigger] ints_wire(
            vs,
        )[i]) as int <= 57 || ints_wire(vs)[i] == ',') by {
            if i < a.len() {
                assert(ints_wire(vs)[i] == a[i]);
            } else if i == a.len() {
                assert(ints_wire(vs)[i] == ',');
            } else {
                assert(ints_wire(vs)[i] == d[i - a.len() - 1]);
            }
        }
    }
}

/// Rendered number lists are distinct for distinct lists.
proof fn lemma_ints_wire_injective(v1: Seq<i32>, v2: Seq<i32>)
    requires
        forall|i: int| 0 <= i < v1.len() ==> #[trigger] v1[i] >= 0,
        forall|i: int| 0 <= i < v2.len() ==> #[trigger] v2[i] >= 0,
        ints_wire(v1) == ints_wire(v2),
    ensures
        v1 =~= v2,
    decreases v1.len(),
{
    let w = ints_wire(v1);
    let len = w.len() as int;
    if v1.len() == 0 || v2.len() == 0 {
        lemma_ints_wire_chars(v1);
        lemma_ints_wire_chars(v2);
        if v1.len() == 0 && v2.len() >= 1 {
            assert(false);
        }
        if v2.len() == 0 && v1.len() >= 1 {
            assert(false);
        }
    } else if v1.len() == 1 && v2.len() == 1 {
        lemma_dec_str_injective(v1[0] as int, v2[0] as int);
        assert(v1 =~= v2);
    } else if v1.len() == 1 {
        // One side is a lone number (digits only); the other carries a
        // comma before its last number.
        lemma_dec_str_digits(v1[0] as int);
        let a2 = ints_wire(v2.drop_last());
        assert(w[a2.len() as int] == ',');
    } else if v2.len() == 1 {
        lemma_dec_str_digits(v2[0] as int);
        let a1 = ints_wire(v1.drop_last());
        assert(w[a1.len() as int] == ',');
    } else {
        let a1 = ints_wire(v1.drop_last());
        let a2 = ints_wire(v2.drop_last());
        let d1 = dec_str(v1.last() as int);
        let d2 = dec_str(v2.last() as int);
        lemma_dec_str_digits(v1.last() as int);
        lemma_dec_str_digits(v2.last() as int);
        // The last numbers have the same width: otherwise one side has a
        // comma where the other has a digit.
        if d1.len() < d2.len() {
            let q = len - 1 - d1.len() as int;
            assert(w[q] == ',');
            assert(w[q] == d2[q - (len - d2.len() as int)]);
            assert(false);
        }
        if d2.len() < d1.len() {
            let q = len - 1 - d2.len() as int;
            assert(w[q] == ',');
            assert(w[q] == d1[q - (len - d1.len() as int)]);
            assert(false);
        }
        assert(d1 =~= w.subrange(len - d1.len() as int, len));
        assert(d2 =~= w.subrange(len - d2.len() as int, len));
        lemma_dec_str_injective(v1.last() as int, v2.last() as int);
        assert(a1 =~= w.subrange(0, len - d1.len() as int - 1));
        assert(a2 =~= w.subrange(0, len - d2.len() as int - 1));
        lemma_ints_wire_injective(v1.drop_last(), v2.drop_last());
        assert forall|i: int| 0 <= i < v1.len() implies v1[i] == v2[i] by {
            if i < v1.len() - 1 {
                assert(v1.drop_last()[i] == v1[i]);
                assert(v2.drop_last()[i] == v2[i]);
            }
        }
        assert(v1 =~= v2);
    }
}

/// A rendered token list is non-empty and ends in a quote exactly when
/// the list is non-empty; interior quotes stand only at token borders.
proof fn lemma_strings_wire_shape(ts: Seq<String>)
    requires
        ts.len() >= 1,
    ensures
        strings_wire(ts).len() >= 2,
        strings_wire(ts).last() == '"',
        strings_wire(ts).first() == '"',
    decreases ts.len(),
{
    if ts.len() > 1 {
        lemma_strings_wire_shape(ts.drop_last());
    }
}

/// Rendered token lists are distinct for distinct lists of wire-safe
/// tokens.
proof fn lemma_strings_wire_injective(s1: Seq<String>, s2: Seq<String>)
    requires
        forall|i: int| 0 <= i < s1.len() ==> wire_safe((#[trigger] s1[i])@),
        forall|i: int| 0 <= i < s2.len() ==> wire_safe((#[trigger] s2[i])@),
        strings_wire(s1) == strings_wire(s2),
    ensures
        s1.len() == s2.len(),
        forall|i: int| 0 <= i < s1.len() ==> (#[trigger] s1[i])@ == (#[trigger] s2[i])@,
    decreases s1.len(),
{
    let w = strings_wire(s1);
    let len = w.len() as int;
    if s1.len() == 0 || s2.len() == 0 {
        if s1.len() >= 1 {
            lemma_strings_wire_shape(s1);
        }
        if s2.len() >= 1 {
            lemma_strings_wire_shape(s2);
        }
    } else if s1.len() == 1 && s2.len() == 1 {
        // Same length quoted bodies: the views match index for index.
        assert(s1[0]@ =~= w.subrange(1, len - 1));
        assert(s2[0]@ =~= w.subrange(1, len - 1));
    } else if s1.len() == 1 {
        // A lone quoted token has quotes only at its ends, but the other
        // side's prefix list ends in an interior quote.
        let a2 = strings_wire(s2.drop_last());
        lemma_strings_wire_shape(s2.drop_last());
        let p = a2.len() as int - 1;
        assert(w[p] == '"');
        assert(w[p] == s1[0]@[p - 1]);
        assert(wire_safe_char(s1[0]@[p - 1]));
        assert(false);
    } else if s2.len() == 1 {
        let a1 = strings_wire(s1.drop_last());
        lemma_strings_wire_shape(s1.drop_last());
        let p = a1.len() as int - 1;
        assert(w[p] == '"');
        assert(w[p] == s2[0]@[p - 1]);
        assert(wire_safe_char(s2[0]@[p - 1]));
        assert(false);
    } else {
        let a1 = strings_wire(s1.drop_last());
        let a2 = strings_wire(s2.drop_last());
        let t1 = s1.last()@;
        let t2 = s2.last()@;
        // The last tokens have the same width: otherwise the shorter
        // one's opening quote falls inside the longer one's body.
        if t1.len() < t2.len() {
            let q = len - 2 - t1.len() as int;
            assert(w[q] == '"');
            assert(w[q] == t2[q - (len - 1 - t2.len() as int)]);
            assert(wire_safe_char(t2[q - (len - 1 - t2.len() as int)]));
            assert(false);
        }
        if t2.len() < t1.len() {
            let q = len - 2 - t2.len() as int;
            assert(w[q] == '"');
            assert(w[q] == t1[q - (len - 1 - t1.len() as int)]);
            assert(wire_safe_char(t1[q - (len - 1 - t1.len() as int)]));
            assert(false);
        }
        assert(t1 =~= w.subrange(len - 1 - t1.len() as int, len - 1));
        assert(t2 =~= w.subrange(len - 1 - t2.len() as int, len - 1));
        assert(a1 =~= w.subrange(0, len - t1.len() as int - 3));
        assert(a2 =~= w.subrange(0, len - t2.len() as int - 3));
        lemma_strings_wire_injective(s1.drop_last(), s2.drop_last());
        assert forall|i: int| 0 <= i < s1.len() implies (#[trigger] s1[i])@ == (#[trigger] s2[i])@
            by {
            if i < s1.len() - 1 {
                assert(s1.drop_last()[i] == s1[i]);
                assert(s2.drop_last()[i] == s2[i]);
            }
        }
    }
}

/// The canonical encoding is injective: two wire-well-formed
/// configurations with the same encoding carry the same values. Together
/// with the parser's contract — it only accepts a string that is the
/// exact encoding of what it returns — a stored canonical string can
/// only parse back to the configuration that produced it.
pub proof fn lemma_wire_encoding_injective(c1: StepConfig, c2: StepConfig)
    requires
        wire_wf(c1),
        wire_wf(c2),
        spec_wire_of(c1) == spec_wire_of(c2),
    ensures
        config_like(c1, c2),
{
    reveal_strlit("{\"type\":\"");
    reveal_strlit("sequence\",\"sequence\":[");
    reveal_strlit("increment\",\"increment\":");
    reveal_strlit("regulated\",\"options\":[");
    reveal_strlit("]}");
    reveal_strlit(",\"unit\":");
    reveal_strlit("],\"unit\":");
    reveal_strlit("}");
    let w = spec_wire_of(c1);
    // The character after the fixed head names the variant.
    assert("{\"type\":\""@.len() == 9);
    assert("sequence\",\"sequence\":["@.len() == 22);
    assert("increment\",\"increment\":"@.len() == 23);
    assert("regulated\",\"options\":["@.len() == 22);
    assert(",\"unit\":"@.len() == 8);
    assert("],\"unit\":"@.len() == 9);
    match (c1, c2) {
        (StepConfig::Sequence { sequence: s1 }, StepConfig::Sequence { sequence: s2 }) => {
            let len = w.len() as int;
            assert(strings_wire(s1@) =~= w.subrange(31, len - 2));
            assert(strings_wire(s2@) =~= w.subrange(31, len - 2));
            lemma_strings_wire_injective(s1@, s2@);
        },
        (
            StepConfig::Increment { increment: i1, unit: u1 },
            StepConfig::Increment { increment: i2, unit: u2 },
        ) => {
            let len = w.len() as int;
            let d1 = dec_str(i1 as int);
            let d2 = dec_str(i2 as int);
            lemma_dec_str_digits(i1 as int);
            lemma_dec_str_digits(i2 as int);
            // The numbers have the same width: a digit cannot stand where
            // the other side has the comma of the unit field.
            if d1.len() < d2.len() {
                assert(w[32 + d1.len() as int] == ',');
                assert(w[32 + d1.len() as int] == d2[d1.len() as int]);
                assert(false);
            }
            if d2.len() < d1.len() {
                assert(w[32 + d2.len() as int] == ',');
                assert(w[32 + d2.len() as int] == d1[d2.len() as int]);
                assert(false);
            }
            assert(d1 =~= w.subrange(32, 32 + d1.len() as int));
            assert(d2 =~= w.subrange(32, 32 + d2.len() as int));
            lemma_dec_str_injective(i1 as int, i2 as int);
            assert(u1@ =~= w.subrange(32 + d1.len() as int + 9, len - 2));
            assert(u2@ =~= w.subrange(32 + d2.len() as int + 9, len - 2));
        },
        (
            StepConfig::Regulated { options: o1, unit: u1 },
            StepConfig::Regulated { options: o2, unit: u2 },
        ) => {
            let len = w.len() as int;
            let a1 = ints_wire(o1@);
            let a2 = ints_wire(o2@);
            lemma_ints_wire_chars(o1@);
            lemma_ints_wire_chars(o2@);
            // The option lists have the same width: digits and commas
            // cannot stand where the other side has the closing bracket.
            if a1.len() < a2.len() {
                assert(w[31 + a1.len() as int] == ']');
                assert(w[31 + a1.len() as int] == a2[a1.len() as int]);
                assert(false);
            }
            if a2.len() < a1.len() {
                assert(w[31 + a2.len() as int] == ']');
                assert(w[31 + a2.len() as int] == a1[a2.len() as int]);
                assert(false);
            }
            assert(a1 =~= w.subrange(31, 31 + a1.len() as int));
            assert(a2 =~= w.subrange(31, 31 + a2.len() as int));
            lemma_ints_wire_injective(o1@, o2@);
            assert(u1@ =~= w.subrange(31 + a1.len() as int + 10, len - 2));
            assert(u2@ =~= w.subrange(31 + a2.len() as int + 10, len - 2));
        },
        _ => {
            // Mixed variants disagree on the character after the head.
            assert(spec_wire_of(c1)[9] == spec_wire_of(c2)[9]);
            assert(false);
        },
    }
}

/// The tail of a rendered token list from position `k` on, with its
/// leading separator when tokens precede it.
pub open spec fn strings_wire_from(ts: Seq<String>, k: int) -> Seq<char>
    decreases ts.len() - k,
{
    if k < 0 {
        strings_wire_from(ts, 0)
    } else if k >= ts.len() {
        Seq::empty()
    } else {
        (if k > 0 {
            seq![',']
        } else {
            Seq::<char>::empty()
        }) + quote_wire(ts[k]@) + strings_wire_from(ts, k + 1)
    }
}

/// A rendered token list splits at any position into the rendering of
/// its prefix and the tail from there.
proof fn lemma_strings_wire_split(ts: Seq<String>, k: int)
    requires
        0 <= k <= ts.len(),
    ensures
        strings_wire(ts) == strings_wire(ts.take(k)) + strings_wire_from(ts, k),
    decreases ts.len() - k,
{
    if k == ts.len() {
        assert(ts.take(k) =~= ts);
        assert(strings_wire(ts.take(k)) + strings_wire_from(ts, k) =~= strings_wire(ts));
    } else {
        lemma_strings_wire_split(ts, k + 1);
        assert(ts.take(k + 1).drop_last() =~= ts.take(k));
        assert(ts.take(k + 1).last() == ts[k]);
        assert(strings_wire(ts.take(k + 1)) == strings_wire(ts.take(k)) + (if k > 0 {
            seq![',']
        } else {
            Seq::<char>::empty()
        }) + quote_wire(ts[k]@)) by {
            if k == 0 {
                assert(strings_wire(ts.take(1)) =~= Seq::<char>::empty() + Seq::<char>::empty()
                    + quote_wire(ts[0]@));
            }
        }
        assert(strings_wire(ts.take(k)) + strings_wire_from(ts, k) =~= strings_wire(
            ts.take(k + 1),
        ) + strings_wire_from(ts, k + 1));
    }
}

/// Rendering a token list depends only on the tokens' text.
proof fn lemma_strings_wire_views(a: Seq<String>, b: Seq<String>)
    requires
        a.len() == b.len(),
        forall|i: int| 0 <= i < a.len() ==> (#[trigger] a[i])@ == (#[trigger] b[i])@,
    ensures
        strings_wire(a) == strings_wire(b),
    decreases a.len(),
{
    if a.len() > 1 {
        assert forall|i: int| 0 <= i < a.drop_last().len() implies (#[trigger] a.drop_last()[i])@
            == (#[trigger] b.drop_last()[i])@ by {
            assert(a.drop_last()[i] == a[i]);
            assert(b.drop_last()[i] == b[i]);
        }
        lemma_strings_wire_views(a.drop_last(), b.drop_last());
        assert(a.last()@ == b.last()@);
    }
}

/// The tail of a rendered number list from position `k` on, with its
/// leading separator when numbers precede it.
pub open spec fn ints_wire_from(vs: Seq<i32>, k: int) -> Seq<char>
    decreases vs.len() - k,
{
    if k < 0 {
        ints_wire_from(vs, 0)
    } else if k >= vs.len() {
        Seq::empty()
    } else {
        (if k > 0 {
            seq![',']
        } else {
            Seq::<char>::empty()
        }) + dec_str(vs[k] as int) + ints_wire_from(vs, k + 1)
    }
}

/// A rendered number list splits at any position into the rendering of
/// its prefix and the tail from there.
proof fn lemma_ints_wire_split(vs: Seq<i32>, k: int)
    requires
        0 <= k <= vs.len(),
    ensures
        ints_wire(vs) == ints_wire(vs.take(k)) + ints_wire_from(vs, k),
    decreases vs.len() - k,
{
    if k == vs.len() {
        assert(vs.take(k) =~= vs);
        assert(ints_wire(vs.take(k)) + ints_wire_from(vs, k) =~= ints_wire(vs));
    } else {
        lemma_ints_wire_split(vs, k + 1);
        assert(vs.take(k + 1).drop_last() =~= vs.take(k));
        assert(vs.take(k + 1).last() == vs[k]);
        assert(ints_wire(vs.take(k + 1)) == ints_wire(vs.take(k)) + (if k > 0 {
            seq![',']
        } else {
            Seq::<char>::empty()
        }) + dec_str(vs[k] as int)) by {
            if k == 0 {
                assert(ints_wire(vs.take(1)) =~= Seq::<char>::empty() + Seq::<char>::empty()
                    + dec_str(vs[0] as int));
            }
        }
        assert(ints_wire(vs.take(k)) + ints_wire_from(vs, k) =~= ints_wire(vs.take(k + 1))
            + ints_wire_from(vs, k + 1));
    }
}

/// Expect the literal at position `i`, returning the position after it.
fn expect_lit(s: &str, i: usize, lit: &str) -> (r: Option<usize>)
    requires
        i <= s@.len(),
    ensures
        r matches Some(j) ==> i + lit@.len() == j && j <= s@.len() && s@.subrange(
            i as int,
            j as int,
        ) == lit@,
        r is None ==> !crate::extract::match_at(s@, lit@, i as int),
{
    let n = s.unicode_len();
    let m = lit.unicode_len();
    if m <= n && i <= n - m {
        if crate::extract::check_match_at(s, lit, i) {
            Some(i + m)
        } else {
            None
        }
    } else {
        None
    }
}

/// A wire-safe token stands quoted at position `i`.
pub open spec fn quoted_token_at(s: Seq<char>, i: int, t: Seq<char>) -> bool {
    &&& wire_safe(t)
    &&& 0 <= i
    &&& i + t.len() + 2 <= s.len()
    &&& s.subrange(i, i + t.len() + 2) == quote_wire(t)
}

/// Parse a quoted wire string at position `i`: the token between two
/// quotes, every character wire-safe. Fails only when no wire-safe token
/// stands quoted there.
fn parse_quoted(s: &str, i: usize) -> (r: Option<(String, usize)>)
    requires
        i <= s@.len(),
    ensures
        r matches Some(p) ==> i < p.1 <= s@.len() && s@.subrange(i as int, p.1 as int)
            == quote_wire(p.0@) && wire_safe(p.0@),
        r is None ==> forall|t: Seq<char>| !quoted_token_at(s@, i as int, t),
{
    let n = s.unicode_len();
    if i >= n || s.get_char(i) != '"' {
        proof {
            assert forall|t: Seq<char>| !quoted_token_at(s@, i as int, t) by {
                if quoted_token_at(s@, i as int, t) {
                    assert(s@[i as int] == quote_wire(t)[0]);
                }
            }
        }
        return None;
    }
    let mut j = i + 1;
    while j < n
        invariant
            i + 1 <= j <= n,
            n == s@.len(),
            s@[i as int] == '"',
            forall|k: int| i + 1 <= k < j ==> wire_safe_char(#[trigger] s@[k]),
        decreases n - j,
    {
        let c = s.get_char(j);
        if c == '"' {
            let token = s.substring_char(i + 1, j).to_owned();
            proof {
                assert(s@.subrange(i as int, j + 1) =~= quote_wire(
                    s@.subrange(i + 1, j as int),
                ));
            }
            return Some((token, j + 1));
        }
        if c == '\\' || (c as u32) < 32 {
            proof {
                assert forall|t: Seq<char>| !quoted_token_at(s@, i as int, t) by {
                    if quoted_token_at(s@, i as int, t) {
                        let close = i + 1 + t.len() as int;
                        if close < j {
                            assert(s@[close] == quote_wire(t)[t.len() as int + 1]);
                            assert(wire_safe_char(s@[close]));
                        } else if close == j {
                            assert(s@[j as int] == quote_wire(t)[t.len() as int + 1]);
                        } else {
                            assert(s@[j as int] == quote_wire(t)[j - i]);
                            assert(s@[j as int] == t[j - i - 1]);
                            assert(wire_safe_char(t[j - i - 1]));
                        }
                    }
                }
            }
            return None;
        }
        j = j + 1;
    }
    proof {
        assert forall|t: Seq<char>| !quoted_token_at(s@, i as int, t) by {
            if quoted_token_at(s@, i as int, t) {
                let close = i + 1 + t.len() as int;
                assert(s@[close] == quote_wire(t)[t.len() as int + 1]);
                assert(wire_safe_char(s@[close]));
            }
        }
    }
    None
}

/// A parse that found a quoted token found the only one that stands at
/// that position.
proof fn lemma_quoted_unique(s: Seq<char>, i: int, t1: Seq<char>, j1: int, t2: Seq<char>)
    requires
        wire_safe(t1),
        0 <= i < j1 <= s.len(),
        s.subrange(i, j1) == quote_wire(t1),
        quoted_token_at(s, i, t2),
    ensures
        t1 == t2,
        j1 == i + t2.len() + 2,
{
    assert(quote_wire(t1).len() == t1.len() + 2);
    assert(quote_wire(t2).len() == t2.len() + 2);
    assert(s.subrange(i, j1).len() == quote_wire(t1).len());
    assert(j1 - i == t1.len() + 2);
    if t1.len() < t2.len() {
        let q = i + 1 + t1.len() as int;
        assert(s[q] == quote_wire(t1)[t1.len() as int + 1]);
        assert(s[q] == quote_wire(t2)[q - i]);
        assert(s[q] == t2[q - i - 1]);
        assert(wire_safe_char(t2[q - i - 1]));
        assert(false);
    }
    if t2.len() < t1.len() {
        let q = i + 1 + t2.len() as int;
        assert(s[q] == quote_wire(t2)[t2.len() as int + 1]);
        assert(s[q] == quote_wire(t1)[q - i]);
        assert(s[q] == t1[q - i - 1]);
        assert(wire_safe_char(t1[q - i - 1]));
        assert(false);
    }
    assert forall|m: int| 0 <= m < t1.len() implies t1[m] == t2[m] by {
        assert(t1[m] == quote_wire(t1)[m + 1]);
        assert(quote_wire(t1)[m + 1] == s.subrange(i, j1)[m + 1]);
        assert(s[i + 1 + m] == quote_wire(t2)[m + 1]);
        assert(quote_wire(t2)[m + 1] == t2[m]);
    }
    assert(t1 =~= t2);
}

/// The character is a decimal digit.
pub open spec fn is_digit(c: char) -> bool {
    48 <= c as int <= 57
}

/// Powers of ten.
pub open spec fn pow10(k: nat) -> int
    decreases k,
{
    if k == 0 {
        1
    } else {
        10 * pow10((k - 1) as nat)
    }
}

/// Powers of ten are positive.
proof fn lemma_pow10_pos(k: nat)
    ensures
        pow10(k) >= 1,
    decreases k,
{
    if k > 0 {
        lemma_pow10_pos((k - 1) as nat);
    }
}

/// A number below `pow10(k)` renders in at most `k` digits.
proof fn lemma_dec_str_len(w: int, k: nat)
    requires
        0 <= w < pow10(k),
        k >= 1,
    ensures
        dec_str(w).len() <= k,
    decreases k,
{
    if w >= 10 {
        assert(k >= 2) by {
            if k == 1 {
                assert(pow10(0nat) == 1);
        assert(pow10(1nat) == 10);
            }
        }
        lemma_pow10_pos((k - 1) as nat);
        assert(w / 10 < pow10((k - 1) as nat)) by {
            vstd::arithmetic::div_mod::lemma_div_is_ordered(w, pow10(k) - 1, 10);
            vstd::arithmetic::div_mod::lemma_fundamental_div_mod_converse(
                pow10(k) - 1,
                10,
                pow10((k - 1) as nat) - 1,
                9,
            );
        }
        lemma_dec_str_len(w / 10, (k - 1) as nat);
    }
}

/// A positive number's rendering never starts with a zero.
proof fn lemma_dec_str_leading(n: int)
    requires
        n >= 1,
    ensures
        49 <= dec_str(n)[0] as int <= 57,
    decreases n,
{
    if n >= 10 {
        lemma_dec_str_leading(n / 10);
        assert(dec_str(n)[0] == dec_str(n / 10)[0]);
    }
}

/// A canonical number of the wire — positive, bounded, followed by a
/// non-digit or the end — stands at position `i`.
pub open spec fn canonical_number_at(s: Seq<char>, i: int, w: int) -> bool {
    &&& 1 <= w <= MAX_STEP_MINUTES
    &&& 0 <= i
    &&& i + dec_str(w).len() <= s.len()
    &&& s.subrange(i, i + dec_str(w).len()) == dec_str(w)
    &&& (i + dec_str(w).len() == s.len() || !is_digit(s[i + dec_str(w).len()]))
}

/// A parse that found a number found the only canonical number that
/// stands at that position.
proof fn lemma_posint_unique(s: Seq<char>, i: int, v: int, j: int, w: int)
    requires
        1 <= v,
        0 <= i < j <= s.len(),
        s.subrange(i, j) == dec_str(v),
        j == s.len() || !is_digit(s[j]),
        canonical_number_at(s, i, w),
    ensures
        v == w,
        j == i + dec_str(w).len(),
{
    lemma_dec_str_digits(v);
    lemma_dec_str_digits(w);
    assert(j - i == dec_str(v).len());
    let dlen = dec_str(w).len() as int;
    if j < i + dlen {
        assert(s[j] == dec_str(w)[j - i]);
        assert(is_digit(s[j]));
        assert(j < s.len());
        assert(false);
    }
    if j > i + dlen {
        assert(s[i + dlen] == dec_str(v)[dlen]);
        assert(is_digit(s[i + dlen]));
        assert(i + dlen < s.len());
        assert(false);
    }
    assert(dec_str(v) =~= dec_str(w));
    lemma_dec_str_injective(v, w);
}

/// Parse a positive decimal number at position `i`: digits without a
/// leading zero, value at most `MAX_STEP_MINUTES`, ending at the first
/// non-digit. Fails only when no canonical number stands there.
fn parse_posint(s: &str, i: usize) -> (r: Option<(i32, usize)>)
    requires
        i <= s@.len(),
    ensures
        r matches Some(p) ==> i < p.1 <= s@.len() && 0 < p.0 <= MAX_STEP_MINUTES && s@.subrange(
            i as int,
            p.1 as int,
        ) == dec_str(p.0 as int) && (p.1 == s@.len() || !is_digit(s@[p.1 as int])),
        r is None ==> forall|w: int| !canonical_number_at(s@, i as int, w),
{
    let n = s.unicode_len();
    if i >= n {
        proof {
            assert forall|w: int| !canonical_number_at(s@, i as int, w) by {
                if canonical_number_at(s@, i as int, w) {
                    lemma_dec_str_digits(w);
                }
            }
        }
        return None;
    }
    let c0 = s.get_char(i) as u32;
    if !(49 <= c0 && c0 <= 57) {
        proof {
            assert forall|w: int| !canonical_number_at(s@, i as int, w) by {
                if canonical_number_at(s@, i as int, w) {
                    lemma_dec_str_digits(w);
                    lemma_dec_str_leading(w);
                    assert(s@[i as int] == dec_str(w)[0]);
                }
            }
        }
        return None;
    }
    let mut v: i32 = (c0 - 48) as i32;
    let mut j = i + 1;
    proof {
        assert(s@[i as int] == crate::text::digit_char(v as int));
        assert(s@.subrange(i as int, i + 1) =~= dec_str(v as int));
        assert(pow10(0nat) == 1);
        assert(pow10(1nat) == 10);
    }
    while j < n
        invariant
            i < j <= n,
            n == s@.len(),
            1 <= v,
            j - i <= 7,
            v < pow10((j - i) as nat),
            s@.subrange(i as int, j as int) == dec_str(v as int),
        decreases n - j,
    {
        let c = s.get_char(j) as u32;
        if !(48 <= c && c <= 57) {
            if v > MAX_STEP_MINUTES {
                proof {
                    assert forall|w: int| !canonical_number_at(s@, i as int, w) by {
                        if canonical_number_at(s@, i as int, w) {
                            lemma_posint_unique(
                                s@,
                                i as int,
                                v as int,
                                j as int,
                                w,
                            );
                        }
                    }
                }
                return None;
            }
            return Some((v, j));
        }
        let d = (c - 48) as i32;
        if j - i >= 7 {
            // An eighth digit: the run is longer than any canonical
            // number's rendering.
            proof {
                assert forall|w: int| !canonical_number_at(s@, i as int, w) by {
                    if canonical_number_at(s@, i as int, w) {
                        lemma_dec_str_digits(w);
                        assert(pow10(0nat) == 1);
        assert(pow10(1nat) == 10);
                        assert(pow10(2nat) == 100);
                        assert(pow10(3nat) == 1000);
                        assert(pow10(4nat) == 10000);
                        assert(pow10(5nat) == 100000);
                        assert(pow10(6nat) == 1000000);
                        assert(pow10(7nat) == 10000000);
                        lemma_dec_str_len(w, 7nat);
                        let dlen = dec_str(w).len() as int;
                        lemma_dec_str_digits(v as int);
                        if i + dlen < j {
                            assert(s@[i + dlen] == dec_str(v as int)[dlen]);
                            assert(is_digit(s@[i + dlen]));
                        } else {
                            assert(i + dlen == j);
                            assert(is_digit(s@[j as int]));
                        }
                    }
                }
            }
            return None;
        }
        proof {
            lemma_dec_str_step(v as int, d as int);
            assert(s@[j as int] == crate::text::digit_char(d as int));
            assert(s@.subrange(i as int, j + 1) =~= s@.subrange(i as int, j as int) + seq![
                s@[j as int],
            ]);
            assert(pow10(0nat) == 1);
        assert(pow10(1nat) == 10);
            assert(pow10(2nat) == 100);
            assert(pow10(3nat) == 1000);
            assert(pow10(4nat) == 10000);
            assert(pow10(5nat) == 100000);
            assert(pow10(6nat) == 1000000);
            assert(pow10(7nat) == 10000000);
            assert(pow10(((j - i) + 1) as nat) == 10 * pow10((j - i) as nat));
        }
        v = v * 10 + d;
        j = j + 1;
    }
    if v > MAX_STEP_MINUTES {
        proof {
            assert forall|w: int| !canonical_number_at(s@, i as int, w) by {
                if canonical_number_at(s@, i as int, w) {
                    lemma_posint_unique(s@, i as int, v as int, j as int, w);
                }
            }
        }
        return None;
    }
    Some((v, j))
}

/// Appending one digit to a positive number's rendering.
proof fn lemma_dec_str_step(v: int, d: int)
    requires
        1 <= v,
        0 <= d < 10,
    ensures
        dec_str(v * 10 + d) == dec_str(v) + seq![crate::text::digit_char(d)],
{
    let x = v * 10 + d;
    assert(v * 10 >= 10);
    vstd::arithmetic::div_mod::lemma_fundamental_div_mod_converse(x, 10, v, d);
}

/// Parse a whole canonical encoding. Fails only on a string that is not
/// the canonical encoding of any wire-well-formed configuration.
#[verifier::rlimit(100)]
#[verifier::spinoff_prover]
fn parse_config(s: &str) -> (r: Option<StepConfig>)
    ensures
        r matches Some(c) ==> wire_wf(c) && s@ == spec_wire_of(c),
        (exists|c: StepConfig| wire_wf(c) && s@ == spec_wire_of(c)) ==> r is Some,
{
    let ghost canon = exists|c: StepConfig| wire_wf(c) && s@ == spec_wire_of(c);
    let ghost cw = choose|c: StepConfig| wire_wf(c) && s@ == spec_wire_of(c);
    proof {
        reveal_strlit("{\"type\":\"");
        reveal_strlit("sequence\",\"sequence\":[");
        reveal_strlit("increment\",\"increment\":");
        reveal_strlit("regulated\",\"options\":[");
        reveal_strlit("]}");
        reveal_strlit(",\"unit\":");
        reveal_strlit("],\"unit\":");
        reveal_strlit("}");
        reveal_strlit(",");
        assert("{\"type\":\""@.len() == 9);
        assert("sequence\",\"sequence\":["@.len() == 22);
        assert("increment\",\"increment\":"@.len() == 23);
        assert("regulated\",\"options\":["@.len() == 22);
        assert(",\"unit\":"@.len() == 8);
        assert("],\"unit\":"@.len() == 9);
        assert("]}"@.len() == 2);
        assert("}"@.len() == 1);
        assert(","@ =~= seq![',']);
    }
    let n = s.unicode_len();
    let i = match expect_lit(s, 0, "{\"type\":\"") {
        Some(x) => x,
        None => {
            proof {
                if canon {
                    assert(s@.subrange(0, 9) =~= "{\"type\":\""@) by {
                        match cw {
                            StepConfig::Sequence { sequence } => {},
                            StepConfig::Increment { increment, unit } => {},
                            StepConfig::Regulated { options, unit } => {},
                        }
                    }
                    assert(s@.len() >= 9) by {
                        match cw {
                            StepConfig::Sequence { sequence } => {},
                            StepConfig::Increment { increment, unit } => {},
                            StepConfig::Regulated { options, unit } => {},
                        }
                    }
                    assert(crate::extract::match_at(s@, "{\"type\":\""@, 0));
                    assert(false);
                }
            }
            return None;
        },
    };

    if let Some(j) = expect_lit(s, i, "sequence\",\"sequence\":[") {
        let ghost head = "{\"type\":\""@ + "sequence\",\"sequence\":["@;
        let ghost cs: Seq<String> = if cw is Sequence {
            cw->Sequence_sequence@
        } else {
            Seq::empty()
        };
        proof {
            assert(s@.subrange(0, j as int) =~= head);
            if canon {
                match cw {
                    StepConfig::Increment { increment, unit } => {
                        assert(s@[9] == "increment\",\"increment\":"@[0]);
                        assert(s@[9] == "sequence\",\"sequence\":["@[0]);
                        assert(false);
                    },
                    StepConfig::Regulated { options, unit } => {
                        assert(s@[9] == "regulated\",\"options\":["@[0]);
                        assert(s@[9] == "sequence\",\"sequence\":["@[0]);
                        assert(false);
                    },
                    StepConfig::Sequence { sequence } => {},
                }
                assert(s@ == head + strings_wire(cs) + "]}"@);
                assert(n == 31 + strings_wire(cs).len() + 2);
            }
        }
        let mut toks: Vec<String> = Vec::new();
        let mut p = j;
        if let Some(e) = expect_lit(s, p, "]}") {
            if e == n {
                let c = StepConfig::Sequence { sequence: toks };
                proof {
                    assert(s@.subrange(0, n as int) =~= s@);
                    assert(s@ =~= spec_wire_of(c));
                }
                return Some(c);
            }
            proof {
                if canon {
                    if cs.len() == 0 {
                        assert(e == n);
                    } else {
                        lemma_strings_wire_shape(cs);
                        assert(s@[j as int] == strings_wire(cs).first());
                        assert(s@[j as int] == "]}"@[0]);
                    }
                    assert(false);
                }
            }
            return None;
        }
        proof {
            if canon && cs.len() == 0 {
                assert(s@.subrange(j as int, j + 2) =~= "]}"@);
                assert(crate::extract::match_at(s@, "]}"@, j as int));
                assert(false);
            }
        }
        loop
            invariant
                j <= p <= n,
                n == s@.len(),
                i == 9,
                j == 31,
                toks@.len() <= MAX_STEP_ENTRIES,
                head == "{\"type\":\""@ + "sequence\",\"sequence\":["@,
                s@.subrange(0, j as int) == head,
                s@.subrange(j as int, p as int) == strings_wire(toks@) + (if toks@.len() == 0 {
                    Seq::<char>::empty()
                } else {
                    seq![',']
                }),
                forall|k: int| 0 <= k < toks@.len() ==> wire_safe((#[trigger] toks@[k])@),
                canon == (exists|c: StepConfig| wire_wf(c) && s@ == spec_wire_of(c)),
                canon ==> wire_wf(cw) && s@ == spec_wire_of(cw),
                canon ==> cw is Sequence && cs == cw->Sequence_sequence@,
                canon ==> toks@.len() < cs.len(),
                canon ==> forall|q: int| 0 <= q < toks@.len() ==> (#[trigger] toks@[q])@
                    == cs[q]@,
            decreases n - p,
        {
            let ghost k = toks@.len() as int;
            proof {
                if canon {
                    lemma_canonical_token_here(s@, cs, toks@, p as int, k);
                }
            }
            let parsed = match parse_quoted(s, p) {
                Some(t) => t,
                None => {
                    proof {
                        if canon {
                            assert(quoted_token_at(s@, p as int, cs[k]@));
                            assert(false);
                        }
                    }
                    return None;
                },
            };
            let p2 = parsed.1;
            proof {
                let ghost t = parsed.0;
                assert(toks@.push(t).drop_last() =~= toks@);
                assert(toks@.push(t).last() == t);
                assert(s@.subrange(j as int, p2 as int) =~= s@.subrange(j as int, p as int)
                    + s@.subrange(p as int, p2 as int));
                assert(s@.subrange(j as int, p2 as int) =~= strings_wire(toks@.push(t)));
                if canon {
                    lemma_quoted_unique(s@, p as int, t@, p2 as int, cs[k]@);
                }
            }
            toks.push(parsed.0);
            if toks.len() > MAX_STEP_ENTRIES {
                proof {
                    if canon {
                        assert(toks@.len() <= cs.len());
                        assert(cs.len() <= MAX_STEP_ENTRIES);
                        assert(false);
                    }
                }
                return None;
            }
            let p_after = p2;
            proof {
                if canon {
                    reveal_strlit(",");
                    reveal_strlit("]}");
                    assert(","@ =~= seq![',']);
                    lemma_canonical_sep_here(s@, cs, toks@, p_after as int);
                }
            }
            if let Some(p3) = expect_lit(s, p_after, ",") {
                proof {
                    reveal_strlit(",");
                    assert(","@ =~= seq![',']);
                    assert(s@.subrange(j as int, p3 as int) =~= s@.subrange(
                        j as int,
                        p_after as int,
                    ) + s@.subrange(p_after as int, p3 as int));
                    if canon {
                        // A separator comma means more tokens follow.
                        assert(s@[p_after as int] == ',');
                        if toks@.len() == cs.len() {
                            assert(s@[p_after as int] == ']');
                            assert(false);
                        }
                    }
                }
                p = p3;
            } else if let Some(p4) = expect_lit(s, p_after, "]}") {
                if p4 == n {
                    let ghost body = strings_wire(toks@);
                    let c = StepConfig::Sequence { sequence: toks };
                    proof {
                        assert(s@ =~= head + body + "]}"@);
                        assert(spec_wire_of(c) =~= head + body + "]}"@);
                    }
                    return Some(c);
                }
                proof {
                    if canon {
                        assert(s@[p_after as int] == ']');
                        if toks@.len() < cs.len() {
                            assert(s@[p_after as int] == ',');
                            assert(false);
                        }
                        lemma_strings_wire_views(toks@, cs);
                        assert(p_after as int == 31 + strings_wire(cs).len());
                        assert(p4 == n);
                        assert(false);
                    }
                }
                return None;
            } else {
                proof {
                    if canon {
                        if toks@.len() < cs.len() {
                            assert(s@.subrange(p_after as int, p_after as int + 1) =~= ","@);
                            assert(crate::extract::match_at(s@, ","@, p_after as int));
                        } else {
                            lemma_strings_wire_views(toks@, cs);
                            assert(p_after as int == 31 + strings_wire(cs).len());
                            assert(s@.subrange(p_after as int, p_after as int + 2) =~= "]}"@);
                            assert(crate::extract::match_at(s@, "]}"@, p_after as int));
                        }
                        assert(false);
                    }
                }
                return None;
            }
        }
    }

    if let Some(j) = expect_lit(s, i, "increment\",\"increment\":") {
        proof {
            if canon {
                match cw {
                    StepConfig::Sequence { sequence } => {
                        assert(s@[9] == "sequence\",\"sequence\":["@[0]);
                        assert(s@[9] == "increment\",\"increment\":"@[0]);
                        assert(false);
                    },
                    StepConfig::Regulated { options, unit } => {
                        assert(s@[9] == "regulated\",\"options\":["@[0]);
                        assert(s@[9] == "increment\",\"increment\":"@[0]);
                        assert(false);
                    },
                    StepConfig::Increment { increment, unit } => {},
                }
            }
        }
        let ghost ci: int = if cw is Increment {
            cw->Increment_increment as int
        } else {
            0
        };
        let ghost cu: Seq<char> = if cw is Increment {
            cw->Increment_unit@
        } else {
            Seq::empty()
        };
        let ghost dlen: int = dec_str(ci).len() as int;
        proof {
            if canon {
                assert(s@ == "{\"type\":\""@ + "increment\",\"increment\":"@ + dec_str(ci)
                    + ",\"unit\":"@ + quote_wire(cu) + "}"@);
                assert(n == 32 + dlen + 8 + cu.len() + 2 + 1);
                assert(s@.subrange(32, 32 + dlen) =~= dec_str(ci));
                assert(s@[32 + dlen] == ',');
                assert(!is_digit(s@[32 + dlen]));
                assert(canonical_number_at(s@, j as int, ci));
            }
        }
        let parsed = match parse_posint(s, j) {
            Some(t) => t,
            None => {
                proof {
                    if canon {
                        assert(false);
                    }
                }
                return None;
            },
        };
        let v = parsed.0;
        let p = parsed.1;
        proof {
            if canon {
                lemma_posint_unique(s@, j as int, v as int, p as int, ci);
                assert(s@.subrange(p as int, p + 8) =~= ",\"unit\":"@);
                assert(crate::extract::match_at(s@, ",\"unit\":"@, p as int));
            }
        }
        let p2 = match expect_lit(s, p, ",\"unit\":") {
            Some(t) => t,
            None => {
                proof {
                    if canon {
                        assert(false);
                    }
                }
                return None;
            },
        };
        proof {
            if canon {
                assert(s@.subrange(p2 as int, p2 + cu.len() + 2) =~= quote_wire(cu));
                assert(quoted_token_at(s@, p2 as int, cu));
            }
        }
        let unit_parsed = match parse_quoted(s, p2) {
            Some(t) => t,
            None => {
                proof {
                    if canon {
                        assert(false);
                    }
                }
                return None;
            },
        };
        let p3 = unit_parsed.1;
        proof {
            if canon {
                lemma_quoted_unique(s@, p2 as int, unit_parsed.0@, p3 as int, cu);
                assert(s@.subrange(p3 as int, p3 + 1) =~= "}"@);
                assert(crate::extract::match_at(s@, "}"@, p3 as int));
            }
        }
        let p4 = match expect_lit(s, p3, "}") {
            Some(t) => t,
            None => {
                proof {
                    if canon {
                        assert(false);
                    }
                }
                return None;
            },
        };
        if p4 != n {
            proof {
                if canon {
                    assert(p4 == n);
                    assert(false);
                }
            }
            return None;
        }
        let c = StepConfig::Increment { increment: v, unit: unit_parsed.0 };
        proof {
            assert(s@.subrange(0, n as int) =~= s@);
            assert(s@ =~= s@.subrange(0, i as int) + s@.subrange(i as int, j as int)
                + s@.subrange(j as int, p as int) + s@.subrange(p as int, p2 as int)
                + s@.subrange(p2 as int, p3 as int) + s@.subrange(p3 as int, n as int));
            assert(s@ =~= spec_wire_of(c));
        }
        return Some(c);
    }

    if let Some(j) = expect_lit(s, i, "regulated\",\"options\":[") {
        let ghost head = "{\"type\":\""@ + "regulated\",\"options\":["@;
        let ghost co: Seq<i32> = if cw is Regulated {
            cw->Regulated_options@
        } else {
            Seq::empty()
        };
        let ghost cu: Seq<char> = if cw is Regulated {
            cw->Regulated_unit@
        } else {
            Seq::empty()
        };
        proof {
            assert(s@.subrange(0, j as int) =~= head);
            if canon {
                match cw {
                    StepConfig::Sequence { sequence } => {
                        assert(s@[9] == "sequence\",\"sequence\":["@[0]);
                        assert(s@[9] == "regulated\",\"options\":["@[0]);
                        assert(false);
                    },
                    StepConfig::Increment { increment, unit } => {
                        assert(s@[9] == "increment\",\"increment\":"@[0]);
                        assert(s@[9] == "regulated\",\"options\":["@[0]);
                        assert(false);
                    },
                    StepConfig::Regulated { options, unit } => {},
                }
                assert(s@ == head + ints_wire(co) + "],\"unit\":"@ + quote_wire(cu) + "}"@);
                assert(n == 31 + ints_wire(co).len() + 9 + cu.len() + 2 + 1);
            }
        }
        let mut opts: Vec<i32> = Vec::new();
        let mut p = j;
        loop
            invariant
                j <= p <= n,
                n == s@.len(),
                i == 9,
                j == 31,
                head == "{\"type\":\""@ + "regulated\",\"options\":["@,
                s@.subrange(0, j as int) == head,
                opts@.len() <= MAX_STEP_ENTRIES,
                s@.subrange(j as int, p as int) == ints_wire(opts@) + (if opts@.len() == 0 {
                    Seq::<char>::empty()
                } else {
                    seq![',']
                }),
                forall|k: int| 0 <= k < opts@.len() ==>
                    0 < #[trigger] opts@[k] <= MAX_STEP_MINUTES,
                forall|a: int, b: int| 0 <= a <= b < opts@.len() ==>
                    #[trigger] opts@[a] <= #[trigger] opts@[b],
                canon == (exists|c: StepConfig| wire_wf(c) && s@ == spec_wire_of(c)),
                canon ==> wire_wf(cw) && s@ == spec_wire_of(cw),
                canon ==> cw is Regulated && co == cw->Regulated_options@ && cu
                    == cw->Regulated_unit@,
                canon ==> opts@.len() < co.len() || (opts@.len() == 0 && co.len() == 0),
                canon ==> opts@ == co.take(opts@.len() as int),
            decreases n - p,
        {
            let ghost k = opts@.len() as int;
            if opts.len() == 0 {
                proof {
                    if canon && co.len() == 0 {
                        reveal_strlit("],\"unit\":");
                        assert(s@.subrange(p as int, p + 9) =~= "],\"unit\":"@);
                        assert(crate::extract::match_at(s@, "],\"unit\":"@, p as int));
                    }
                }
                if let Some(e) = expect_lit(s, p, "],\"unit\":") {
                    proof {
                        assert(s@.subrange(0, p as int) =~= s@.subrange(0, j as int)
                            + s@.subrange(j as int, p as int));
                        if canon {
                            reveal_strlit("{\"type\":\"");
                            reveal_strlit("regulated\",\"options\":[");
                            reveal_strlit("],\"unit\":");
                            reveal_strlit("}");
                            assert("{\"type\":\""@.len() == 9);
                            assert("regulated\",\"options\":["@.len() == 22);
                            assert("],\"unit\":"@.len() == 9);
                            assert("}"@.len() == 1);
                            assert(s@ == "{\"type\":\""@ + "regulated\",\"options\":["@
                                + ints_wire(co) + "],\"unit\":"@ + quote_wire(cu) + "}"@);
                            assert(quote_wire(cu).len() == cu.len() + 2);
                            assert(n == 31 + ints_wire(co).len() + 9 + cu.len() + 3);
                            if co.len() > 0 {
                                lemma_canonical_int_here(s@, co, opts@, cu, p as int, 0);
                                lemma_dec_str_digits(co[0] as int);
                                assert(is_digit(s@[p as int])) by {
                                    assert(s@[p as int] == dec_str(co[0] as int)[0]);
                                }
                                assert(s@[p as int] == "],\"unit\":"@[0]);
                                assert(false);
                            }
                            assert(e as int == n - cu.len() - 3);
                            assert(s@.subrange(e as int, n - 1) =~= quote_wire(cu));
                            assert(s@[n - 1] == "}"@[0]);
                        }
                    }
                    return finish_regulated(s, opts, Ghost(head), p, e);
                }
            }
            proof {
                if canon {
                    if co.len() == 0 {
                        assert(false);
                    }
                    lemma_canonical_int_here(s@, co, opts@, cu, p as int, k);
                }
            }
            let parsed = match parse_posint(s, p) {
                Some(t) => t,
                None => {
                    proof {
                        if canon {
                            assert(canonical_number_at(s@, p as int, co[k] as int));
                            assert(false);
                        }
                    }
                    return None;
                },
            };
            let v = parsed.0;
            let p2 = parsed.1;
            proof {
                if canon {
                    lemma_posint_unique(s@, p as int, v as int, p2 as int, co[k] as int);
                }
            }
            if opts.len() > 0 && opts[opts.len() - 1] > v {
                proof {
                    if canon {
                        assert(opts@[k - 1] == co[k - 1]);
                        assert(co[k - 1] <= co[k]);
                        assert(false);
                    }
                }
                return None;
            }
            proof {
                assert(opts@.push(v).drop_last() =~= opts@);
                assert(opts@.push(v).last() == v);
                assert(s@.subrange(j as int, p2 as int) =~= s@.subrange(j as int, p as int)
                    + s@.subrange(p as int, p2 as int));
                assert(s@.subrange(j as int, p2 as int) =~= ints_wire(opts@.push(v)));
                assert forall|a: int, b: int| 0 <= a <= b < opts@.push(v).len() implies
                    #[trigger] opts@.push(v)[a] <= #[trigger] opts@.push(v)[b] by {
                    if b == opts@.len() && a < b {
                        assert(opts@[opts@.len() - 1] <= v);
                    }
                }
                if canon {
                    assert(opts@.push(v) =~= co.take(k + 1));
                }
            }
            opts.push(v);
            if opts.len() > MAX_STEP_ENTRIES {
                proof {
                    if canon {
                        assert(opts@.len() <= co.len());
                        assert(co.len() <= MAX_STEP_ENTRIES);
                        assert(false);
                    }
                }
                return None;
            }
            proof {
                if canon {
                    reveal_strlit(",");
                    reveal_strlit("],\"unit\":");
                    assert(","@ =~= seq![',']);
                    lemma_canonical_int_sep_here(s@, co, opts@, cu, p2 as int);
                }
            }
            if let Some(p3) = expect_lit(s, p2, ",") {
                proof {
                    reveal_strlit(",");
                    assert(","@ =~= seq![',']);
                    assert(s@.subrange(j as int, p3 as int) =~= s@.subrange(
                        j as int,
                        p2 as int,
                    ) + s@.subrange(p2 as int, p3 as int));
                    if canon {
                        assert(s@[p2 as int] == ',');
                        if opts@.len() == co.len() {
                            assert(s@[p2 as int] == ']');
                            assert(false);
                        }
                    }
                }
                p = p3;
            } else if let Some(e) = expect_lit(s, p2, "],\"unit\":") {
                proof {
                    assert(s@.subrange(0, p2 as int) =~= s@.subrange(0, j as int)
                        + s@.subrange(j as int, p2 as int));
                    if canon {
                        reveal_strlit("{\"type\":\"");
                        reveal_strlit("regulated\",\"options\":[");
                        reveal_strlit("],\"unit\":");
                        reveal_strlit("}");
                        assert("{\"type\":\""@.len() == 9);
                        assert("regulated\",\"options\":["@.len() == 22);
                        assert("],\"unit\":"@.len() == 9);
                        assert("}"@.len() == 1);
                        assert(s@ == "{\"type\":\""@ + "regulated\",\"options\":["@
                            + ints_wire(co) + "],\"unit\":"@ + quote_wire(cu) + "}"@);
                        assert(quote_wire(cu).len() == cu.len() + 2);
                        assert(n == 31 + ints_wire(co).len() + 9 + cu.len() + 3);
                        assert(s@[p2 as int] == ']');
                        if opts@.len() < co.len() {
                            assert(s@[p2 as int] == ',');
                            assert(false);
                        }
                        assert(opts@ =~= co);
                        assert(e as int == n - cu.len() - 3);
                        assert(s@.subrange(e as int, n - 1) =~= quote_wire(cu));
                        assert(s@[n - 1] == "}"@[0]);
                    }
                }
                return finish_regulated(s, opts, Ghost(head), p2, e);
            } else {
                proof {
                    if canon {
                        if opts@.len() < co.len() {
                            assert(s@.subrange(p2 as int, p2 as int + 1) =~= ","@);
                            assert(crate::extract::match_at(s@, ","@, p2 as int));
                        } else {
                            assert(opts@ =~= co);
                            assert(s@.subrange(p2 as int, p2 as int + 9) =~= "],\"unit\":"@);
                            assert(crate::extract::match_at(s@, "],\"unit\":"@, p2 as int));
                        }
                        assert(false);
                    }
                }
                return None;
            }
        }
    }

    proof {
        if canon {
            match cw {
                StepConfig::Sequence { sequence } => {
                    assert(s@.subrange(9, 31) =~= "sequence\",\"sequence\":["@);
                    assert(crate::extract::match_at(s@, "sequence\",\"sequence\":["@, 9));
                },
                StepConfig::Increment { increment, unit } => {
                    assert(s@.subrange(9, 32) =~= "increment\",\"increment\":"@);
                    assert(crate::extract::match_at(s@, "increment\",\"increment\":"@, 9));
                },
                StepConfig::Regulated { options, unit } => {
                    assert(s@.subrange(9, 31) =~= "regulated\",\"options\":["@);
                    assert(crate::extract::match_at(s@, "regulated\",\"options\":["@, 9));
                },
            }
            assert(false);
        }
    }
    None
}

/// In a canonical sequence encoding whose first `k` tokens are consumed,
/// the token `cs[k]` stands quoted at the cursor.
proof fn lemma_canonical_token_here(
    s: Seq<char>,
    cs: Seq<String>,
    toks: Seq<String>,
    p: int,
    k: int,
)
    requires
        s == "{\"type\":\""@ + "sequence\",\"sequence\":["@ + strings_wire(cs) + "]}"@,
        forall|q: int| 0 <= q < cs.len() ==> wire_safe((#[trigger] cs[q])@),
        toks.len() == k,
        0 <= k < cs.len(),
        31 <= p <= s.len(),
        forall|q: int| 0 <= q < k ==> (#[trigger] toks[q])@ == cs[q]@,
        s.subrange(31, p) == strings_wire(toks) + (if k == 0 {
            Seq::<char>::empty()
        } else {
            seq![',']
        }),
    ensures
        quoted_token_at(s, p, cs[k]@),
        p == 31 + strings_wire(cs.take(k)).len() + (if k == 0 {
            0int
        } else {
            1int
        }),
{
    reveal_strlit("{\"type\":\"");
    reveal_strlit("sequence\",\"sequence\":[");
    assert("{\"type\":\""@.len() == 9);
    assert("sequence\",\"sequence\":["@.len() == 22);
    lemma_strings_wire_split(cs, k);
    assert forall|q: int| 0 <= q < k implies (#[trigger] toks[q])@ == (cs.take(k)[q])@ by {}
    lemma_strings_wire_views(toks, cs.take(k));
    let swk = strings_wire(cs.take(k)).len() as int;
    let sep: int = if k == 0 { 0 } else { 1 };
    assert(s.subrange(31, p).len() == p - 31);
    assert(strings_wire(toks) == strings_wire(cs.take(k)));
    assert((strings_wire(toks) + (if k == 0 {
        Seq::<char>::empty()
    } else {
        seq![',']
    })).len() == swk + sep);
    assert(p - 31 == swk + sep);
    assert(strings_wire_from(cs, k) == (if k > 0 {
        seq![',']
    } else {
        Seq::<char>::empty()
    }) + quote_wire(cs[k]@) + strings_wire_from(cs, k + 1));
    let tk = cs[k]@;
    assert(s.subrange(p, p + tk.len() + 2) =~= quote_wire(tk));
}

/// In a canonical sequence encoding whose first `toks.len()` tokens are
/// consumed up to the cursor, the next character is a comma when tokens
/// remain and the closing bracket pair when none do.
proof fn lemma_canonical_sep_here(s: Seq<char>, cs: Seq<String>, toks: Seq<String>, p: int)
    requires
        s == "{\"type\":\""@ + "sequence\",\"sequence\":["@ + strings_wire(cs) + "]}"@,
        0 < toks.len() <= cs.len(),
        31 <= p <= s.len(),
        forall|q: int| 0 <= q < toks.len() ==> (#[trigger] toks[q])@ == cs[q]@,
        s.subrange(31, p) == strings_wire(toks),
    ensures
        toks.len() < cs.len() ==> p + 1 <= s.len() && s[p] == ',' && s.subrange(p, p + 1)
            == seq![','],
        toks.len() == cs.len() ==> s.subrange(p, p + 2) == "]}"@ && p + 2 == s.len(),
{
    reveal_strlit("{\"type\":\"");
    reveal_strlit("sequence\",\"sequence\":[");
    reveal_strlit("]}");
    assert("{\"type\":\""@.len() == 9);
    assert("sequence\",\"sequence\":["@.len() == 22);
    assert("]}"@.len() == 2);
    let k = toks.len() as int;
    lemma_strings_wire_split(cs, k);
    assert forall|q: int| 0 <= q < k implies (#[trigger] toks[q])@ == (cs.take(k)[q])@ by {}
    lemma_strings_wire_views(toks, cs.take(k));
    assert(p - 31 == strings_wire(cs.take(k)).len());
    if k < cs.len() {
        assert(strings_wire_from(cs, k) == seq![','] + quote_wire(cs[k]@) + strings_wire_from(
            cs,
            k + 1,
        ));
        assert(s.subrange(p, p + 1) =~= seq![',']);
        assert(s[p] == ',');
    } else {
        assert(strings_wire_from(cs, k) =~= Seq::<char>::empty());
        assert(strings_wire(cs) == strings_wire(cs.take(k)));
        assert(s.subrange(p, p + 2) =~= "]}"@);
    }
}

/// In a canonical regulated encoding whose first `k` numbers are
/// consumed, the number `co[k]` stands at the cursor, terminated by a
/// comma or the closing bracket.
proof fn lemma_canonical_int_here(
    s: Seq<char>,
    co: Seq<i32>,
    opts: Seq<i32>,
    cu: Seq<char>,
    p: int,
    k: int,
)
    requires
        s == "{\"type\":\""@ + "regulated\",\"options\":["@ + ints_wire(co) + "],\"unit\":"@
            + quote_wire(cu) + "}"@,
        forall|q: int| 0 <= q < co.len() ==> 0 < #[trigger] co[q] <= MAX_STEP_MINUTES,
        opts.len() == k,
        0 <= k < co.len(),
        31 <= p <= s.len(),
        opts == co.take(k),
        s.subrange(31, p) == ints_wire(opts) + (if k == 0 {
            Seq::<char>::empty()
        } else {
            seq![',']
        }),
    ensures
        canonical_number_at(s, p, co[k] as int),
{
    reveal_strlit("{\"type\":\"");
    reveal_strlit("regulated\",\"options\":[");
    reveal_strlit("],\"unit\":");
    assert("{\"type\":\""@.len() == 9);
    assert("regulated\",\"options\":["@.len() == 22);
    assert("],\"unit\":"@.len() == 9);
    lemma_ints_wire_split(co, k);
    let swk = ints_wire(co.take(k)).len() as int;
    let sep: int = if k == 0 { 0 } else { 1 };
    assert(s.subrange(31, p).len() == p - 31);
    assert(ints_wire(opts) == ints_wire(co.take(k)));
    assert((ints_wire(opts) + (if k == 0 {
        Seq::<char>::empty()
    } else {
        seq![',']
    })).len() == swk + sep);
    assert(p - 31 == swk + sep);
    assert(ints_wire_from(co, k) == (if k > 0 {
        seq![',']
    } else {
        Seq::<char>::empty()
    }) + dec_str(co[k] as int) + ints_wire_from(co, k + 1));
    lemma_dec_str_digits(co[k] as int);
    let dlen = dec_str(co[k] as int).len() as int;
    assert(s.subrange(p, p + dlen) =~= dec_str(co[k] as int));
    if k + 1 < co.len() {
        assert(ints_wire_from(co, k + 1) == seq![','] + dec_str(co[k + 1] as int)
            + ints_wire_from(co, k + 2));
        assert(s[p + dlen] == ',');
    } else {
        assert(ints_wire_from(co, k + 1) =~= Seq::<char>::empty());
        assert(s[p + dlen] == ']');
    }
}

/// In a canonical regulated encoding whose first `opts.len()` numbers
/// are consumed up to the cursor, the next character is a comma when
/// numbers remain and the closing bracket when none do.
proof fn lemma_canonical_int_sep_here(
    s: Seq<char>,
    co: Seq<i32>,
    opts: Seq<i32>,
    cu: Seq<char>,
    p: int,
)
    requires
        s == "{\"type\":\""@ + "regulated\",\"options\":["@ + ints_wire(co) + "],\"unit\":"@
            + quote_wire(cu) + "}"@,
        0 < opts.len() <= co.len(),
        31 <= p <= s.len(),
        opts == co.take(opts.len() as int),
        s.subrange(31, p) == ints_wire(opts),
    ensures
        opts.len() < co.len() ==> p + 1 <= s.len() && s[p] == ',' && s.subrange(p, p + 1)
            == seq![','],
        opts.len() == co.len() ==> s.subrange(p, p + 9) == "],\"unit\":"@ && p + 9 == s.len()
            - cu.len() - 3,
{
    reveal_strlit("{\"type\":\"");
    reveal_strlit("regulated\",\"options\":[");
    reveal_strlit("],\"unit\":");
    assert("{\"type\":\""@.len() == 9);
    assert("regulated\",\"options\":["@.len() == 22);
    assert("],\"unit\":"@.len() == 9);
    reveal_strlit("}");
    assert("}"@.len() == 1);
    assert(quote_wire(cu).len() == cu.len() + 2);
    let k = opts.len() as int;
    lemma_ints_wire_split(co, k);
    assert(p - 31 == ints_wire(co.take(k)).len());
    if k < co.len() {
        assert(ints_wire_from(co, k) == seq![','] + dec_str(co[k] as int) + ints_wire_from(
            co,
            k + 1,
        ));
        assert(s.subrange(p, p + 1) =~= seq![',']);
        assert(s[p] == ',');
    } else {
        assert(ints_wire_from(co, k) =~= Seq::<char>::empty());
        assert(co.take(k) =~= co);
        assert(ints_wire(co) == ints_wire(co.take(k)));
        assert(s.len() == 31 + ints_wire(co).len() + 9 + cu.len() + 2 + 1);
        assert(s.subrange(p, p + 9) =~= "],\"unit\":"@);
    }
}

/// Finish a regulated encoding after its option list: the unit string
/// and the closing brace, ending exactly at the end of the input. Fails
/// only when no quoted wire-safe unit followed by the closing brace
/// fills the rest of the input.
fn finish_regulated(
    s: &str,
    opts: Vec<i32>,
    Ghost(head): Ghost<Seq<char>>,
    list_end: usize,
    after_sep: usize,
) -> (r: Option<StepConfig>)
    requires
        list_end <= after_sep <= s@.len(),
        head == "{\"type\":\""@ + "regulated\",\"options\":["@,
        s@.subrange(0, list_end as int) == head + ints_wire(opts@),
        s@.subrange(list_end as int, after_sep as int) == "],\"unit\":"@,
        opts@.len() <= MAX_STEP_ENTRIES,
        forall|k: int| 0 <= k < opts@.len() ==> 0 < #[trigger] opts@[k] <= MAX_STEP_MINUTES,
        forall|a: int, b: int| 0 <= a <= b < opts@.len() ==>
            #[trigger] opts@[a] <= #[trigger] opts@[b],
    ensures
        r matches Some(c) ==> wire_wf(c) && s@ == spec_wire_of(c),
        (exists|u: Seq<char>|
            wire_safe(u) && after_sep + u.len() + 3 == s@.len() && s@.subrange(
                after_sep as int,
                s@.len() - 1,
            ) == quote_wire(u) && s@[s@.len() - 1] == '}') ==> r is Some,
{
    let ghost fits = exists|u: Seq<char>|
        wire_safe(u) && after_sep + u.len() + 3 == s@.len() && s@.subrange(
            after_sep as int,
            s@.len() - 1,
        ) == quote_wire(u) && s@[s@.len() - 1] == '}';
    let ghost uw: Seq<char> = choose|u: Seq<char>|
        wire_safe(u) && after_sep + u.len() + 3 == s@.len() && s@.subrange(
            after_sep as int,
            s@.len() - 1,
        ) == quote_wire(u) && s@[s@.len() - 1] == '}';
    let n = s.unicode_len();
    proof {
        if fits {
            assert(s@.subrange(after_sep as int, after_sep + uw.len() + 2) =~= quote_wire(uw));
            assert(quoted_token_at(s@, after_sep as int, uw));
        }
    }
    let unit_parsed = match parse_quoted(s, after_sep) {
        Some(t) => t,
        None => {
            proof {
                if fits {
                    assert(false);
                }
            }
            return None;
        },
    };
    let p3 = unit_parsed.1;
    proof {
        if fits {
            lemma_quoted_unique(s@, after_sep as int, unit_parsed.0@, p3 as int, uw);
            reveal_strlit("}");
            assert("}"@.len() == 1);
            assert(s@.subrange(p3 as int, p3 + 1) =~= "}"@);
            assert(crate::extract::match_at(s@, "}"@, p3 as int));
        }
    }
    let p4 = match expect_lit(s, p3, "}") {
        Some(t) => t,
        None => {
            proof {
                if fits {
                    assert(false);
                }
            }
            return None;
        },
    };
    if p4 != n {
        proof {
            if fits {
                assert(p4 == n);
                assert(false);
            }
        }
        return None;
    }
    let ghost body = ints_wire(opts@);
    let ghost unit_view = unit_parsed.0@;
    let c = StepConfig::Regulated { options: opts, unit: unit_parsed.0 };
    proof {
        assert(s@.subrange(0, list_end as int) == head + body);
        assert(s@ =~= head + body + "],\"unit\":"@ + quote_wire(unit_view) + "}"@);
        assert(spec_wire_of(c) =~= head + body + "],\"unit\":"@ + quote_wire(unit_view)
            + "}"@);
    }
    Some(c)
}

} // verus!
