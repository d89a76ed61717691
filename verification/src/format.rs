//! Verified rendering of the `Range` request header value.
//!
//! A part of a partitioned download is requested with
//! `Range: bytes={start}-{end}`, and the probe with `Range: bytes=0-0`; the
//! numbers are rendered in decimal with no sign and no leading zeros.

use vstd::prelude::*;
use vstd::string::StringExecFns;

verus! {

/// The character of one decimal digit.
pub open spec fn digit_char(d: int) -> char {
    if d == 0 {
        '0'
    } else if d == 1 {
        '1'
    } else if d == 2 {
        '2'
    } else if d == 3 {
        '3'
    } else if d == 4 {
        '4'
    } else if d == 5 {
        '5'
    } else if d == 6 {
        '6'
    } else if d == 7 {
        '7'
    } else if d == 8 {
        '8'
    } else {
        '9'
    }
}

/// The decimal rendering of a nonnegative integer, most significant digit
/// first, without leading zeros.
pub open spec fn dec_digits(n: int) -> Seq<char>
    recommends
        n >= 0,
    decreases n,
{
    if n < 10 {
        seq![digit_char(n)]
    } else {
        dec_digits(n / 10) + seq![digit_char(n % 10)]
    }
}

/// The value of a `Range` header covering `[start, end]`.
pub open spec fn spec_range_header(start: u64, end: u64) -> Seq<char> {
    "bytes="@ + dec_digits(start as int) + "-"@ + dec_digits(end as int)
}

/// One digit as a string slice.
fn digit_str(d: u64) -> (r: &'static str)
    requires
        d < 10,
    ensures
        r@ == seq![digit_char(d as int)],
{
    let r = if d == 0 {
        "0"
    } else if d == 1 {
        "1"
    } else if d == 2 {
        "2"
    } else if d == 3 {
        "3"
    } else if d == 4 {
        "4"
    } else if d == 5 {
        "5"
    } else if d == 6 {
        "6"
    } else if d == 7 {
        "7"
    } else if d == 8 {
        "8"
    } else {
        "9"
    };
    proof {
        reveal_strlit("0");
        reveal_strlit("1");
        reveal_strlit("2");
        reveal_strlit("3");
        reveal_strlit("4");
        reveal_strlit("5");
        reveal_strlit("6");
        reveal_strlit("7");
        reveal_strlit("8");
        reveal_strlit("9");
        assert(r@ =~= seq![digit_char(d as int)]);
    }
    r
}

/// The digits of a sequence of them, least significant first, read back
/// most significant first.
spec fn rev_chars(ds: Seq<u64>) -> Seq<char>
    decreases ds.len(),
{
    if ds.len() == 0 {
        Seq::<char>::empty()
    } else {
        seq![digit_char(ds.last() as int)] + rev_chars(ds.drop_last())
    }
}

/// Renders a 64-bit unsigned integer in decimal.
pub fn u64_to_decimal(n: u64) -> (r: String)
    ensures
        r@ == dec_digits(n as int),
{
    let mut digits_rev: Vec<u64> = Vec::new();
    let mut m = n;
    if m == 0 {
        let r = String::from_str("0");
        proof {
            reveal_strlit("0");
            assert(r@ =~= dec_digits(0));
        }
        return r;
    }
    while m > 0
        invariant
            0 <= m,
            m > 0 ==> dec_digits(n as int) == dec_digits(m as int) + rev_chars(digits_rev@),
            m == 0 ==> digits_rev@.len() >= 1 && dec_digits(n as int) == rev_chars(digits_rev@),
            forall|i: int| 0 <= i < digits_rev@.len() ==> #[trigger] digits_rev@[i] < 10,
        decreases m,
    {
        let d = m % 10;
        let next = m / 10;
        let ghost before = digits_rev@;
        digits_rev.push(d);
        proof {
            let ds = digits_rev@;
            assert(ds.last() == d);
            assert(ds.drop_last() =~= before);
            assert(rev_chars(ds) == seq![digit_char(d as int)] + rev_chars(before));
            if next > 0 {
                assert(dec_digits(m as int) == dec_digits(next as int) + seq![
                    digit_char((m as int) % 10),
                ]);
                assert(dec_digits(next as int) + seq![digit_char(d as int)] + rev_chars(before)
                    =~= dec_digits(next as int) + rev_chars(ds));
                assert(dec_digits(m as int) + rev_chars(before) =~= dec_digits(next as int)
                    + seq![digit_char(d as int)] + rev_chars(before));
            } else {
                assert(m < 10);
                assert(dec_digits(m as int) == seq![digit_char(m as int)]);
                assert(dec_digits(m as int) + rev_chars(before) =~= rev_chars(ds));
            }
        }
        m = next;
    }
    let mut r = String::new();
    let mut k = digits_rev.len();
    proof {
        assert(digits_rev@.take(digits_rev@.len() as int) =~= digits_rev@);
        assert(r@ + rev_chars(digits_rev@) =~= rev_chars(digits_rev@));
    }
    while k > 0
        invariant
            0 <= k <= digits_rev@.len(),
            dec_digits(n as int) == rev_chars(digits_rev@),
            dec_digits(n as int) =~= r@ + rev_chars(digits_rev@.take(k as int)),
            forall|i: int| 0 <= i < digits_rev@.len() ==> #[trigger] digits_rev@[i] < 10,
        decreases k,
    {
        k = k - 1;
        let d = digits_rev[k];
        let ghost r_before = r@;
        r.append(digit_str(d));
        proof {
            let taken = digits_rev@.take(k + 1);
            assert(taken.last() == digits_rev@[k as int]);
            assert(taken.drop_last() =~= digits_rev@.take(k as int));
            assert(rev_chars(taken) == seq![digit_char(d as int)] + rev_chars(
                digits_rev@.take(k as int),
            ));
            assert(r@ =~= r_before + seq![digit_char(d as int)]);
            assert(r_before + rev_chars(taken) =~= r@ + rev_chars(digits_rev@.take(k as int)));
        }
    }
    proof {
        assert(digits_rev@.take(0) =~= Seq::<u64>::empty());
        assert(r@ =~= dec_digits(n as int));
    }
    r
}

/// Builds the value of the `Range` header requesting bytes `start` through
/// `end` inclusive.
pub fn range_header_value(start: u64, end: u64) -> (r: String)
    ensures
        r@ == spec_range_header(start, end),
{
    let mut r = String::from_str("bytes=");
    let start_digits = u64_to_decimal(start);
    r.append(start_digits.as_str());
    r.append("-");
    let end_digits = u64_to_decimal(end);
    r.append(end_digits.as_str());
    proof {
        assert(r@ =~= spec_range_header(start, end));
    }
    r
}

} // verus!
