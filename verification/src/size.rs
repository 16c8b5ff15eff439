//! The size-string parser: `"200MB"`, `"1GB"` or a raw byte count.
//!
//! The grammar is case-insensitive in the two-letter suffix, tolerates
//! whitespace around the numeric portion, and accepts the numerals `u64`
//! accepts: an optional leading plus sign, then decimal digits. A string whose
//! numeric portion is malformed, or whose value does not fit in `u64`, is a
//! configuration error.

use vstd::prelude::*;
use vstd::string::StrSliceExecFns;

use crate::errors::ConfigError;

verus! {

pub const BYTES_PER_MB: u64 = 1024 * 1024;

pub const BYTES_PER_GB: u64 = 1024 * 1024 * 1024;

/// A character the parser treats as surrounding whitespace (the ASCII ones).
pub open spec fn is_space(c: char) -> bool {
    c == ' ' || c == '\t' || c == '\n' || c == '\r' || c == '\u{b}' || c == '\u{c}'
}

/// An ASCII decimal digit: `'0'` (scalar 48) through `'9'` (scalar 57).
pub open spec fn is_digit(c: char) -> bool {
    48 <= c as u32 <= 57
}

/// The numeric value of one digit character.
pub open spec fn digit_val(c: char) -> int {
    c as u32 - 48
}

/// The input with its leading whitespace dropped.
pub open spec fn trim_left(s: Seq<char>) -> Seq<char>
    decreases s.len(),
{
    if s.len() > 0 && is_space(s[0]) {
        trim_left(s.drop_first())
    } else {
        s
    }
}

/// The input with its trailing whitespace dropped.
pub open spec fn trim_right(s: Seq<char>) -> Seq<char>
    decreases s.len(),
{
    if s.len() > 0 && is_space(s.last()) {
        trim_right(s.drop_last())
    } else {
        s
    }
}

/// The input with whitespace dropped from both ends.
pub open spec fn trimmed(s: Seq<char>) -> Seq<char> {
    trim_right(trim_left(s))
}

/// The digit portion of a numeral: an optional leading plus sign is dropped.
pub open spec fn numeral_body(s: Seq<char>) -> Seq<char> {
    if s.len() > 0 && s[0] == '+' {
        s.drop_first()
    } else {
        s
    }
}

/// A non-empty, all-digit string.
pub open spec fn all_digits(s: Seq<char>) -> bool {
    s.len() > 0 && forall|i: int| 0 <= i < s.len() ==> is_digit(s[i])
}

/// The number an all-digit string denotes, most significant digit first.
pub open spec fn digits_val(s: Seq<char>) -> int
    decreases s.len(),
{
    if s.len() == 0 {
        0
    } else {
        digits_val(s.drop_last()) * 10 + digit_val(s.last())
    }
}

/// What parsing a numeral as `u64` yields: the denoted value, when the string
/// is an optional plus sign followed by digits and the value fits in `u64`.
pub open spec fn parse_u64_spec(s: Seq<char>) -> Option<u64> {
    let body = numeral_body(s);
    if all_digits(body) && digits_val(body) <= u64::MAX {
        Some(digits_val(body) as u64)
    } else {
        None
    }
}

/// Case-insensitive test for a final `"GB"`.
pub open spec fn has_gb_suffix(s: Seq<char>) -> bool {
    s.len() >= 2 && (s[s.len() - 2] == 'G' || s[s.len() - 2] == 'g') && (s[s.len() - 1] == 'B'
        || s[s.len() - 1] == 'b')
}

/// Case-insensitive test for a final `"MB"`.
pub open spec fn has_mb_suffix(s: Seq<char>) -> bool {
    s.len() >= 2 && (s[s.len() - 2] == 'M' || s[s.len() - 2] == 'm') && (s[s.len() - 1] == 'B'
        || s[s.len() - 1] == 'b')
}

/// How many bytes one unit of the size string stands for.
pub open spec fn size_unit(s: Seq<char>) -> u64 {
    if has_gb_suffix(s) {
        BYTES_PER_GB
    } else if has_mb_suffix(s) {
        BYTES_PER_MB
    } else {
        1
    }
}

/// The part of the size string that holds the number: everything before a
/// recognized suffix, or the whole string when there is none.
pub open spec fn numeric_portion(s: Seq<char>) -> Seq<char> {
    if has_gb_suffix(s) || has_mb_suffix(s) {
        s.subrange(0, s.len() - 2)
    } else {
        s
    }
}

/// The count scaled by the unit, when the product still fits in `u64`.
pub open spec fn scaled(v: Option<u64>, unit: u64) -> Option<u64> {
    match v {
        None => None,
        Some(x) => if x * unit <= u64::MAX {
            Some((x * unit) as u64)
        } else {
            None
        },
    }
}

/// What `parse_size` yields for a given input string.
pub open spec fn parse_size_spec(s: Seq<char>) -> Option<u64> {
    scaled(parse_u64_spec(trimmed(numeric_portion(s))), size_unit(s))
}

proof fn lemma_trim_left_at(s: Seq<char>, lo: int)
    requires
        0 <= lo <= s.len(),
        forall|i: int| 0 <= i < lo ==> is_space(s[i]),
        lo == s.len() || !is_space(s[lo]),
    ensures
        trim_left(s) == s.subrange(lo, s.len() as int),
    decreases lo,
{
    if lo == 0 {
        assert(s.subrange(0, s.len() as int) =~= s);
    } else {
        assert(is_space(s[0]));
        lemma_trim_left_at(s.drop_first(), lo - 1);
        assert(s.drop_first().subrange(lo - 1, s.drop_first().len() as int) =~= s.subrange(
            lo,
            s.len() as int,
        ));
    }
}

proof fn lemma_trim_right_at(s: Seq<char>, hi: int)
    requires
        0 <= hi <= s.len(),
        forall|i: int| hi <= i < s.len() ==> is_space(s[i]),
        hi == 0 || !is_space(s[hi - 1]),
    ensures
        trim_right(s) == s.subrange(0, hi),
    decreases s.len() - hi,
{
    if hi == s.len() {
        assert(s.subrange(0, hi) =~= s);
    } else {
        assert(is_space(s.last()));
        lemma_trim_right_at(s.drop_last(), hi);
        assert(s.drop_last().subrange(0, hi) =~= s.subrange(0, hi));
    }
}

proof fn lemma_digits_val_push(p: Seq<char>, c: char)
    ensures
        digits_val(p.push(c)) == digits_val(p) * 10 + digit_val(c),
{
    assert(p.push(c).drop_last() =~= p);
    assert(p.push(c).last() == c);
}

proof fn lemma_digits_val_nonneg(s: Seq<char>)
    requires
        forall|i: int| 0 <= i < s.len() ==> is_digit(s[i]),
    ensures
        digits_val(s) >= 0,
    decreases s.len(),
{
    if s.len() > 0 {
        lemma_digits_val_nonneg(s.drop_last());
        assert(is_digit(s.last()));
    }
}

/// A longer digit string denotes no smaller a number than any of its prefixes.
proof fn lemma_digits_val_prefix_mono(s: Seq<char>, m: int)
    requires
        0 <= m <= s.len(),
        forall|i: int| 0 <= i < s.len() ==> is_digit(s[i]),
    ensures
        digits_val(s) >= digits_val(s.take(m)),
    decreases s.len() - m,
{
    if m == s.len() {
        assert(s.take(m) =~= s);
    } else {
        assert(s.take(m + 1).drop_last() =~= s.take(m));
        assert(s.take(m + 1).last() == s[m]);
        assert(forall|i: int| 0 <= i < m ==> is_digit(s.take(m)[i]));
        lemma_digits_val_nonneg(s.take(m));
        assert(is_digit(s[m]));
        assert(digits_val(s.take(m + 1)) >= digits_val(s.take(m)));
        lemma_digits_val_prefix_mono(s, m + 1);
    }
}

/// Whether the character counts as whitespace around the number.
fn space(c: char) -> (b: bool)
    ensures
        b == is_space(c),
{
    c == ' ' || c == '\t' || c == '\n' || c == '\r' || c == '\u{b}' || c == '\u{c}'
}

/// Scale a parsed count by its unit, rejecting products that overflow `u64`.
fn apply_unit(v: u64, unit: u64) -> (r: Option<u64>)
    requires
        unit >= 1,
    ensures
        r == scaled(Some(v), unit),
{
    let q: u64 = u64::MAX / unit;
    proof {
        vstd::arithmetic::div_mod::lemma_remainder(u64::MAX as int, unit as int);
    }
    if v > q {
        proof {
            vstd::arithmetic::mul::lemma_mul_inequality(q as int + 1, v as int, unit as int);
            assert((q as int + 1) * (unit as int) == q as int * (unit as int) + unit as int)
                by (nonlinear_arith);
            assert(v as int * unit as int > u64::MAX);
        }
        None
    } else {
        proof {
            vstd::arithmetic::mul::lemma_mul_inequality(v as int, q as int, unit as int);
            assert(v as int * unit as int <= u64::MAX);
        }
        Some(v * unit)
    }
}

/// Parse the characters of `s` in `[lo, hi)` as a `u64` numeral.
#[verifier::rlimit(60)]
fn parse_u64_span(s: &str, lo: usize, hi: usize) -> (r: Result<u64, ConfigError>)
    requires
        lo <= hi <= s@.len(),
    ensures
        match r {
            Ok(v) => parse_u64_spec(s@.subrange(lo as int, hi as int)) == Some(v),
            Err(e) => parse_u64_spec(s@.subrange(lo as int, hi as int)) is None && e
                == ConfigError::InvalidSize,
        },
{
    let ghost w = s@.subrange(lo as int, hi as int);
    let mut pos: usize = lo;
    if pos < hi {
        let c0 = s.get_char(pos);
        if c0 == '+' {
            pos = pos + 1;
        }
    }
    let ghost body = numeral_body(w);
    proof {
        if w.len() > 0 && w[0] == '+' {
            assert(w.drop_first() =~= s@.subrange(pos as int, hi as int));
        } else {
            assert(w =~= s@.subrange(pos as int, hi as int));
        }
        assert(body == s@.subrange(pos as int, hi as int));
    }
    if pos == hi {
        // empty digit portion: not a numeral
        return Err(ConfigError::InvalidSize);
    }
    let mut acc: u64 = 0;
    let mut i: usize = pos;
    while i < hi
        invariant
            lo <= pos <= i <= hi <= s@.len(),
            body == s@.subrange(pos as int, hi as int),
            body == numeral_body(s@.subrange(lo as int, hi as int)),
            pos < hi,
            forall|j: int| pos <= j < i ==> is_digit(s@[j]),
            acc == digits_val(s@.subrange(pos as int, i as int)),
        decreases hi - i,
    {
        let c = s.get_char(i);
        let u: u32 = c as u32;
        if u < 48 || u > 57 {
            assert(!is_digit(body[i - pos]));
            return Err(ConfigError::InvalidSize);
        }
        let d: u64 = (u - 48) as u64;
        proof {
            assert(s@.subrange(pos as int, i + 1) =~= s@.subrange(pos as int, i as int).push(c));
            lemma_digits_val_push(s@.subrange(pos as int, i as int), c);
        }
        let ghost grown = digits_val(s@.subrange(pos as int, i + 1));
        if acc > u64::MAX / 10 {
            proof {
                assert(grown > u64::MAX);
                if all_digits(body) {
                    lemma_digits_val_prefix_mono(body, i + 1 - pos);
                    assert(body.take(i + 1 - pos) =~= s@.subrange(pos as int, i + 1));
                    assert(digits_val(body) > u64::MAX);
                }
            }
            return Err(ConfigError::InvalidSize);
        }
        let acc10: u64 = acc * 10;
        if d > u64::MAX - acc10 {
            proof {
                assert(grown > u64::MAX);
                if all_digits(body) {
                    lemma_digits_val_prefix_mono(body, i + 1 - pos);
                    assert(body.take(i + 1 - pos) =~= s@.subrange(pos as int, i + 1));
                    assert(digits_val(body) > u64::MAX);
                }
            }
            return Err(ConfigError::InvalidSize);
        }
        acc = acc10 + d;
        i = i + 1;
    }
    proof {
        assert(body =~= s@.subrange(pos as int, i as int));
        assert(all_digits(body));
    }
    Ok(acc)
}

/// Parse a size string: a numeral, optionally suffixed `GB` or `MB` in any
/// case, denotes that many bytes, mebibytes or gibibytes.
///
/// Returns exactly what `parse_size_spec` assigns to the input; every
/// malformed or overflowing input is `ConfigError::InvalidSize`.
#[verifier::rlimit(60)]
pub fn parse_size(s: &str) -> (r: Result<u64, ConfigError>)
    ensures
        match r {
            Ok(v) => parse_size_spec(s@) == Some(v),
            Err(e) => parse_size_spec(s@) is None && e == ConfigError::InvalidSize,
        },
{
    let n = s.unicode_len();
    let mut unit: u64 = 1;
    let mut num_end: usize = n;
    if n >= 2 {
        let c0 = s.get_char(n - 2);
        let c1 = s.get_char(n - 1);
        if (c0 == 'G' || c0 == 'g') && (c1 == 'B' || c1 == 'b') {
            unit = BYTES_PER_GB;
            num_end = n - 2;
        } else if (c0 == 'M' || c0 == 'm') && (c1 == 'B' || c1 == 'b') {
            unit = BYTES_PER_MB;
            num_end = n - 2;
        }
    }
    let ghost portion = numeric_portion(s@);
    proof {
        assert(s@.subrange(0, s@.len() as int) =~= s@);
        assert(unit == size_unit(s@));
        assert(portion =~= s@.subrange(0, num_end as int));
    }

    // skip whitespace on the left of the numeric portion
    let mut lo: usize = 0;
    let mut stop_left = false;
    while lo < num_end && !stop_left
        invariant
            lo <= num_end <= s@.len(),
            forall|i: int| 0 <= i < lo ==> is_space(s@[i]),
            stop_left ==> lo < num_end && !is_space(s@[lo as int]),
        decreases
                num_end - lo + if stop_left {
                    0int
                } else {
                    1int
                },
    {
        let c = s.get_char(lo);
        if space(c) {
            lo = lo + 1;
        } else {
            stop_left = true;
        }
    }

    // skip whitespace on the right of the numeric portion
    let mut hi: usize = num_end;
    let mut stop_right = false;
    while hi > lo && !stop_right
        invariant
            lo <= hi <= num_end <= s@.len(),
            forall|i: int| hi <= i < num_end ==> is_space(s@[i]),
            stop_right ==> hi > lo && !is_space(s@[hi - 1]),
        decreases
                hi - lo + if stop_right {
                    0int
                } else {
                    1int
                },
    {
        let c = s.get_char(hi - 1);
        if space(c) {
            hi = hi - 1;
        } else {
            stop_right = true;
        }
    }

    proof {
        lemma_trim_left_at(portion, lo as int);
        assert(portion.subrange(lo as int, portion.len() as int) =~= s@.subrange(
            lo as int,
            num_end as int,
        ));
        let mid = s@.subrange(lo as int, num_end as int);
        lemma_trim_right_at(mid, hi - lo);
        assert(mid.subrange(0, hi - lo) =~= s@.subrange(lo as int, hi as int));
        assert(trimmed(portion) == s@.subrange(lo as int, hi as int));
    }

    match parse_u64_span(s, lo, hi) {
        Ok(v) => match apply_unit(v, unit) {
            Some(x) => Ok(x),
            None => Err(ConfigError::InvalidSize),
        },
        Err(e) => Err(e),
    }
}

} // verus!
