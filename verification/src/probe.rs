//! Interpretation of the range-capability probe.
//!
//! Before a download starts, one request with `Range: bytes=0-0` is issued
//! and two headers of its response decide the strategy: ranges are supported
//! when `Accept-Ranges` equals `bytes` (ASCII case-insensitively), and the
//! resource's total size is the integer following the `/` in
//! `Content-Range`, zero when absent or unparseable.

use vstd::prelude::*;
use vstd::slice::slice_subrange;

verus! {

/// ASCII lowercase of one byte.
pub open spec fn ascii_lower(b: u8) -> u8 {
    if 65 <= b <= 90 {
        (b + 32) as u8
    } else {
        b
    }
}

/// ASCII case-insensitive equality with the token `bytes`.
pub open spec fn is_bytes_token(s: Seq<u8>) -> bool {
    &&& s.len() == 5
    &&& ascii_lower(s[0]) == 98
    &&& ascii_lower(s[1]) == 121
    &&& ascii_lower(s[2]) == 116
    &&& ascii_lower(s[3]) == 101
    &&& ascii_lower(s[4]) == 115
}

/// Every byte is visible ASCII (space through tilde) or a tab. A header
/// value with any other byte cannot be read as text and is treated as
/// absent.
pub open spec fn printable_ascii(s: Seq<u8>) -> bool {
    forall|i: int| 0 <= i < s.len() ==> (32 <= #[trigger] s[i] <= 126 || s[i] == 9)
}

/// An ASCII decimal digit.
pub open spec fn is_digit(b: u8) -> bool {
    48 <= b <= 57
}

/// Every byte is an ASCII decimal digit.
pub open spec fn all_digits(s: Seq<u8>) -> bool {
    forall|i: int| 0 <= i < s.len() ==> is_digit(#[trigger] s[i])
}

/// Value of an ASCII digit string read in base ten.
pub open spec fn digits_value(s: Seq<u8>) -> int
    decreases s.len(),
{
    if s.len() == 0 {
        0
    } else {
        digits_value(s.drop_last()) * 10 + (s.last() - 48)
    }
}

/// The unsigned integer a byte string parses to: an optional leading plus
/// sign, then one or more decimal digits whose value fits in 64 bits;
/// anything else does not parse.
pub open spec fn spec_parse_u64(s: Seq<u8>) -> Option<u64> {
    let digits = if s.len() >= 1 && s[0] == 43 {
        s.drop_first()
    } else {
        s
    };
    if digits.len() == 0 || !all_digits(digits) || digits_value(digits) > u64::MAX {
        None
    } else {
        Some(digits_value(digits) as u64)
    }
}

/// `i` is the position of the first slash of `s`.
pub open spec fn first_slash_at(s: Seq<u8>, i: int) -> bool {
    &&& 0 <= i < s.len()
    &&& s[i] == 47
    &&& forall|j: int| 0 <= j < i ==> s[j] != 47
}

/// `e` is the end of the slash-free run of `s` that starts at `i`: either
/// the position of the next slash, or the end of `s`.
pub open spec fn segment_end_at(s: Seq<u8>, i: int, e: int) -> bool {
    &&& i <= e <= s.len()
    &&& (e == s.len() || s[e] == 47)
    &&& forall|j: int| i <= j < e ==> s[j] != 47
}

/// The second slash-separated segment of `s`: what stands between the first
/// slash and the next one (or the end), if `s` has a slash at all.
pub open spec fn spec_second_segment(s: Seq<u8>) -> Option<Seq<u8>> {
    if exists|i: int| first_slash_at(s, i) {
        let i = choose|i: int| first_slash_at(s, i);
        let e = choose|e: int| #[trigger] segment_end_at(s, i + 1, e);
        Some(s.subrange(i + 1, e))
    } else {
        None
    }
}

/// The total size announced by a `Content-Range` header value: the integer
/// following the first `/`, or zero when the value is not printable ASCII,
/// has no slash, or the segment after the slash does not parse.
pub open spec fn spec_content_range_total(s: Seq<u8>) -> u64 {
    if !printable_ascii(s) {
        0
    } else {
        match spec_second_segment(s) {
            Option::None => 0,
            Option::Some(seg) => match spec_parse_u64(seg) {
                Option::None => 0,
                Option::Some(v) => v,
            },
        }
    }
}

/// Whether a probe response with the given `Accept-Ranges` header announces
/// byte-range support.
pub open spec fn spec_supports_ranges(accept_ranges: Option<Seq<u8>>) -> bool {
    match accept_ranges {
        Option::None => false,
        Option::Some(s) => is_bytes_token(s),
    }
}

/// The total size a probe response announces through `Content-Range`.
pub open spec fn spec_probe_total(content_range: Option<Seq<u8>>) -> u64 {
    match content_range {
        Option::None => 0,
        Option::Some(s) => spec_content_range_total(s),
    }
}

/// What the probe of a resource reported: whether byte ranges are accepted,
/// and the total size (zero when unknown).
pub struct ProbeResult {
    pub supports_ranges: bool,
    pub total_size: u64,
}

/// The two download strategies.
#[derive(Clone, Copy, PartialEq, Eq, Structural, Debug)]
pub enum DownloadStrategy {
    SingleStream,
    Partitioned,
}

/// The strategy a probe outcome routes to: partitioned exactly when ranges
/// are supported and the total size is known to be positive.
pub open spec fn spec_strategy(supports_ranges: bool, total_size: u64) -> DownloadStrategy {
    if supports_ranges && total_size > 0 {
        DownloadStrategy::Partitioned
    } else {
        DownloadStrategy::SingleStream
    }
}

/// Decides which download path a probe outcome routes to.
pub fn choose_strategy(probe: &ProbeResult) -> (s: DownloadStrategy)
    ensures
        s == spec_strategy(probe.supports_ranges, probe.total_size),
{
    if probe.supports_ranges && probe.total_size > 0 {
        DownloadStrategy::Partitioned
    } else {
        DownloadStrategy::SingleStream
    }
}

/// Law: probing a resource that does not announce `Accept-Ranges` always
/// routes to the single-stream path, whatever total size the
/// `Content-Range` header may carry.
pub proof fn lemma_no_accept_ranges_single_stream(content_range: Option<Seq<u8>>)
    ensures
        spec_strategy(spec_supports_ranges(Option::None), spec_probe_total(content_range))
            == DownloadStrategy::SingleStream,
{
}

/// ASCII lowercase of one byte.
fn lower_byte(b: u8) -> (r: u8)
    ensures
        r == ascii_lower(b),
{
    if 65 <= b && b <= 90 {
        b + 32
    } else {
        b
    }
}

/// Tests an `Accept-Ranges` header value for the token `bytes`, ASCII
/// case-insensitively.
pub fn accept_ranges_is_bytes(value: &[u8]) -> (r: bool)
    ensures
        r == is_bytes_token(value@),
{
    if value.len() != 5 {
        return false;
    }
    let b0 = lower_byte(value[0]);
    let b1 = lower_byte(value[1]);
    let b2 = lower_byte(value[2]);
    let b3 = lower_byte(value[3]);
    let b4 = lower_byte(value[4]);
    b0 == 98 && b1 == 121 && b2 == 116 && b3 == 101 && b4 == 115
}

/// Any digit string's value is nonnegative.
proof fn lemma_digits_value_nonneg(s: Seq<u8>)
    requires
        all_digits(s),
    ensures
        digits_value(s) >= 0,
    decreases s.len(),
{
    if s.len() > 0 {
        assert(all_digits(s.drop_last()));
        lemma_digits_value_nonneg(s.drop_last());
    }
}

/// Reading one more digit never shrinks the value.
proof fn lemma_digits_value_extend(s: Seq<u8>, k: int)
    requires
        all_digits(s),
        0 <= k < s.len(),
    ensures
        digits_value(s.take(k + 1)) == digits_value(s.take(k)) * 10 + (s[k] - 48),
        digits_value(s.take(k + 1)) >= digits_value(s.take(k)),
{
    assert(s.take(k + 1).drop_last() =~= s.take(k));
    assert(s.take(k + 1).last() == s[k]);
    assert(all_digits(s.take(k)));
    lemma_digits_value_nonneg(s.take(k));
    assert(digits_value(s.take(k)) * 10 >= digits_value(s.take(k))) by (nonlinear_arith)
        requires digits_value(s.take(k)) >= 0,
    ;
}

/// The value of a digit string is at least the value of any of its
/// prefixes.
proof fn lemma_digits_value_monotone(s: Seq<u8>, k: int)
    requires
        all_digits(s),
        0 <= k <= s.len(),
    ensures
        digits_value(s) >= digits_value(s.take(k)),
    decreases s.len() - k,
{
    if k < s.len() {
        lemma_digits_value_extend(s, k);
        lemma_digits_value_monotone(s, k + 1);
    } else {
        assert(s.take(k) =~= s);
    }
}

/// Parses an ASCII decimal digit string, with an optional leading plus
/// sign, into a 64-bit unsigned integer.
fn parse_u64(s: &[u8]) -> (r: Option<u64>)
    ensures
        r == spec_parse_u64(s@),
{
    let offset: usize = if s.len() >= 1 && s[0] == 43 {
        1
    } else {
        0
    };
    let ghost digits = if s@.len() >= 1 && s@[0] == 43 {
        s@.drop_first()
    } else {
        s@
    };
    proof {
        assert(digits =~= s@.subrange(offset as int, s@.len() as int));
    }
    if s.len() == offset {
        return None;
    }
    let mut acc: u64 = 0;
    let mut i: usize = offset;
    while i < s.len()
        invariant
            offset <= i <= s@.len(),
            offset <= 1,
            digits == s@.subrange(offset as int, s@.len() as int),
            digits == (if s@.len() >= 1 && s@[0] == 43 { s@.drop_first() } else { s@ }),
            all_digits(digits.take(i - offset)),
            acc == digits_value(digits.take(i - offset)),
        decreases s@.len() - i,
    {
        let b = s[i];
        if b < 48 || b > 57 {
            proof {
                assert(digits[i - offset] == s@[i as int]);
                assert(!is_digit(digits[i - offset]));
                assert(!all_digits(digits));
            }
            return None;
        }
        let d = b - 48;
        if acc > (u64::MAX - d as u64) / 10 {
            // The value no longer fits in 64 bits, and further digits can
            // only grow it.
            proof {
                let k = i - offset;
                assert(digits[k] == s@[i as int]);
                assert(all_digits(digits.take(k + 1)));
                lemma_digits_value_extend(digits.take(k + 1), k);
                assert(digits.take(k + 1).take(k) =~= digits.take(k));
                assert(digits_value(digits.take(k + 1)) == acc * 10 + (b - 48));
                assert(acc * 10 + (b - 48) > u64::MAX) by (nonlinear_arith)
                    requires
                        acc > (u64::MAX - (b - 48)) / 10,
                        48 <= b <= 57,
                        acc >= 0,
                ;
                if all_digits(digits) {
                    lemma_digits_value_monotone(digits, k + 1);
                    assert(digits_value(digits) > u64::MAX);
                }
            }
            return None;
        }
        proof {
            let k = i - offset;
            assert(digits[k] == s@[i as int]);
            assert(all_digits(digits.take(k + 1)));
            lemma_digits_value_extend(digits.take(k + 1), k);
            assert(digits.take(k + 1).take(k) =~= digits.take(k));
            assert(acc * 10 + (b - 48) <= u64::MAX) by (nonlinear_arith)
                requires
                    acc <= (u64::MAX - (b - 48)) / 10,
                    48 <= b <= 57,
                    acc >= 0,
            ;
        }
        acc = acc * 10 + d as u64;
        i = i + 1;
    }
    proof {
        assert(digits.take(s@.len() - offset) =~= digits);
    }
    Some(acc)
}

/// Extracts the total size from a `Content-Range` header value: the integer
/// following the first slash, or zero when the value is unusable.
pub fn content_range_total(value: &[u8]) -> (t: u64)
    ensures
        t == spec_content_range_total(value@),
{
    // A value with a byte that cannot be read as header text is treated as
    // absent.
    let mut i: usize = 0;
    while i < value.len()
        invariant
            0 <= i <= value@.len(),
            forall|j: int| 0 <= j < i ==> (32 <= #[trigger] value@[j] <= 126 || value@[j] == 9),
        decreases value@.len() - i,
    {
        let b = value[i];
        if (b < 32 || b > 126) && b != 9 {
            return 0;
        }
        i = i + 1;
    }
    assert(printable_ascii(value@));

    // Find the first slash.
    let mut slash: usize = 0;
    while slash < value.len() && value[slash] != 47
        invariant
            0 <= slash <= value@.len(),
            forall|j: int| 0 <= j < slash ==> value@[j] != 47,
        decreases value@.len() - slash,
    {
        slash = slash + 1;
    }
    if slash == value.len() {
        proof {
            assert(forall|i: int| !first_slash_at(value@, i));
        }
        return 0;
    }
    proof {
        assert(first_slash_at(value@, slash as int));
    }

    // Find the end of the segment that follows it.
    let seg_start = slash + 1;
    let mut seg_end: usize = seg_start;
    while seg_end < value.len() && value[seg_end] != 47
        invariant
            seg_start <= seg_end <= value@.len(),
            forall|j: int| seg_start <= j < seg_end ==> value@[j] != 47,
        decreases value@.len() - seg_end,
    {
        seg_end = seg_end + 1;
    }
    proof {
        assert(segment_end_at(value@, seg_start as int, seg_end as int));
        let ci = choose|i: int| first_slash_at(value@, i);
        assert(ci == slash as int);
        let ce = choose|e: int| #[trigger] segment_end_at(value@, slash as int + 1, e);
        assert(segment_end_at(value@, seg_start as int, ce));
        if ce < seg_end {
            assert(value@[ce] == 47);
        }
        if seg_end < ce {
            assert(value@[seg_end as int] == 47);
        }
        assert(ce == seg_end as int);
    }

    let segment = slice_subrange(value, seg_start, seg_end);
    match parse_u64(segment) {
        Some(v) => v,
        None => 0,
    }
}

/// Reads the two probe headers into the probe's outcome. Either header may
/// be absent.
pub fn interpret_probe(accept_ranges: Option<&[u8]>, content_range: Option<&[u8]>) -> (r:
    ProbeResult)
    ensures
        r.supports_ranges == spec_supports_ranges(
            match accept_ranges {
                Option::Some(v) => Option::Some(v@),
                Option::None => Option::None,
            },
        ),
        r.total_size == spec_probe_total(
            match content_range {
                Option::Some(v) => Option::Some(v@),
                Option::None => Option::None,
            },
        ),
{
    let supports_ranges = match accept_ranges {
        Some(v) => accept_ranges_is_bytes(v),
        None => false,
    };
    let total_size = match content_range {
        Some(v) => content_range_total(v),
        None => 0,
    };
    ProbeResult { supports_ranges, total_size }
}

} // verus!
