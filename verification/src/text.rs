//! Rendering of the strings the tool hands to the outside: part file names
//! and HTTP `Range` header values. Each rendered string is pinned, character
//! by character, to a spec-level sequence.

use vstd::prelude::*;
use vstd::string::StrSliceExecFns;
use vstd::string::StringExecFns;

use crate::plan::ByteRange;

verus! {

/// The digit character of one value below ten.
pub open spec fn digit_char(d: int) -> char {
    if d == 0 {
        '0'
    } else if d == 1 {
        '1'
    } else if d == 2 {
        '2'
    } else if d == 3 {
        '3'
    } else if d == 4 {
        '4'
    } else if d == 5 {
        '5'
    } else if d == 6 {
        '6'
    } else if d == 7 {
        '7'
    } else if d == 8 {
        '8'
    } else {
        '9'
    }
}

/// The decimal numeral of `n`, most significant digit first; zero is `"0"`.
pub open spec fn dec_digits(n: int) -> Seq<char>
    decreases n,
{
    if n < 10 {
        seq![digit_char(n)]
    } else {
        dec_digits(n / 10) + seq![digit_char(n % 10)]
    }
}

/// The name of the output file of part `i`.
pub open spec fn part_name_spec(i: u64) -> Seq<char> {
    "part_"@ + dec_digits(i as int)
}

/// The `Range` header value that asks for exactly the bytes of `r`.
pub open spec fn range_header_spec(r: ByteRange) -> Seq<char> {
    "bytes="@ + dec_digits(r.start as int) + "-"@ + dec_digits(r.end as int)
}

/// The one-character string of one digit.
fn digit_str(d: u64) -> (r: &'static str)
    requires
        d < 10,
    ensures
        r@ == seq![digit_char(d as int)],
{
    proof {
        reveal_strlit("0");
        reveal_strlit("1");
        reveal_strlit("2");
        reveal_strlit("3");
        reveal_strlit("4");
        reveal_strlit("5");
        reveal_strlit("6");
        reveal_strlit("7");
        reveal_strlit("8");
        reveal_strlit("9");
    }
    let r = if d == 0 {
        "0"
    } else if d == 1 {
        "1"
    } else if d == 2 {
        "2"
    } else if d == 3 {
        "3"
    } else if d == 4 {
        "4"
    } else if d == 5 {
        "5"
    } else if d == 6 {
        "6"
    } else if d == 7 {
        "7"
    } else if d == 8 {
        "8"
    } else {
        "9"
    };
    proof {
        assert(r@ =~= seq![digit_char(d as int)]);
    }
    r
}

/// Render `n` as its decimal numeral.
pub fn u64_to_dec(n: u64) -> (r: String)
    ensures
        r@ == dec_digits(n as int),
    decreases n,
{
    if n < 10 {
        String::from_str(digit_str(n))
    } else {
        let mut s = u64_to_dec(n / 10);
        s.append(digit_str(n % 10));
        s
    }
}

/// The output file name of part `i`: `part_` followed by the decimal index.
pub fn part_file_name(i: u64) -> (r: String)
    ensures
        r@ == part_name_spec(i),
{
    let mut s = String::from_str("part_");
    let digits = u64_to_dec(i);
    s.append(digits.as_str());
    s
}

/// The `Range` header value `bytes=start-end` (both ends inclusive) of one part.
pub fn range_header_value(r: &ByteRange) -> (h: String)
    ensures
        h@ == range_header_spec(*r),
{
    let mut s = String::from_str("bytes=");
    let a = u64_to_dec(r.start);
    s.append(a.as_str());
    s.append("-");
    let b = u64_to_dec(r.end);
    s.append(b.as_str());
    proof {
        assert(s@ =~= range_header_spec(*r));
    }
    s
}

} // verus!
