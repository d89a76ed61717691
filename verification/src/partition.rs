//! Fixed-size partitioning of a resource into contiguous byte ranges.
//!
//! A resource of `total` bytes is split into `ceil(total / part_size)`
//! parts; part `i` covers `[i * part_size, min((i + 1) * part_size - 1,
//! total - 1)]`. The parts are sorted by index, pairwise disjoint, and
//! together cover `[0, total - 1]` exactly.

use vstd::arithmetic::div_mod::{lemma_div_is_ordered, lemma_fundamental_div_mod};
use vstd::arithmetic::mul::lemma_mul_inequality;
use vstd::prelude::*;

verus! {

/// Size in bytes of one part of a partitioned download.
pub const PART_SIZE: u64 = 1048576;

/// Number of parts a resource of `total` bytes is split into:
/// `ceil(total / part_size)`.
pub open spec fn spec_part_count(total: u64, part_size: u64) -> int
    recommends
        part_size > 0,
{
    if total == 0 {
        0
    } else {
        (total - 1) / (part_size as int) + 1
    }
}

/// First byte offset of part `i`.
pub open spec fn spec_part_start(i: int, part_size: u64) -> int {
    i * part_size
}

/// Last byte offset of part `i`, clipped to the end of the resource.
pub open spec fn spec_part_end(i: int, total: u64, part_size: u64) -> int {
    let unclipped = i * part_size + part_size - 1;
    if unclipped <= total - 1 {
        unclipped
    } else {
        total - 1
    }
}

/// One contiguous byte range of a partitioned download.
pub struct PartDescriptor {
    pub index: u64,
    pub start_offset: u64,
    pub end_offset_inclusive: u64,
}

/// A descriptor that matches the fixed partitioning of `total` bytes into
/// `part_size`-byte parts at its index.
pub open spec fn part_matches(p: PartDescriptor, total: u64, part_size: u64) -> bool {
    &&& p.start_offset == spec_part_start(p.index as int, part_size)
    &&& p.end_offset_inclusive == spec_part_end(p.index as int, total, part_size)
}

/// The byte at offset `b` lies inside the part whose index is `b` divided
/// by `part_size`.
pub open spec fn covered_by_own_part(b: int, total: u64, part_size: u64) -> bool {
    let i = b / (part_size as int);
    &&& 0 <= i < spec_part_count(total, part_size)
    &&& spec_part_start(i, part_size) <= b <= spec_part_end(i, total, part_size)
}

/// Computes how many fixed-size parts cover a resource of `total` bytes.
pub fn part_count(total: u64, part_size: u64) -> (n: u64)
    requires
        part_size > 0,
    ensures
        n == spec_part_count(total, part_size),
{
    if total == 0 {
        0
    } else {
        (total - 1) / part_size + 1
    }
}

/// The start of any part in range lies within the resource.
proof fn lemma_start_in_bounds(i: int, total: u64, part_size: u64)
    requires
        part_size > 0,
        total > 0,
        0 <= i < spec_part_count(total, part_size),
    ensures
        0 <= i * part_size <= total - 1,
{
    let p = part_size as int;
    let q = (total - 1) / p;
    lemma_mul_inequality(i, q, p);
    lemma_fundamental_div_mod(total - 1, p);
    assert(0 <= (total - 1) % p < p) by (nonlinear_arith)
        requires p > 0,
    ;
    assert(q * p <= total - 1);
    assert(i * part_size >= 0) by (nonlinear_arith)
        requires i >= 0, part_size > 0,
    ;
}

/// Builds the part descriptors for a resource of `total` bytes.
pub fn make_parts(total: u64, part_size: u64) -> (parts: Vec<PartDescriptor>)
    requires
        part_size > 0,
    ensures
        parts.len() == spec_part_count(total, part_size),
        forall|i: int|
            0 <= i < parts.len() ==> (#[trigger] parts[i]).index == i && part_matches(
                parts[i],
                total,
                part_size,
            ),
{
    let count = part_count(total, part_size);
    let mut parts: Vec<PartDescriptor> = Vec::new();
    let mut i: u64 = 0;
    while i < count
        invariant
            part_size > 0,
            count == spec_part_count(total, part_size),
            i <= count,
            parts.len() == i,
            forall|j: int|
                0 <= j < parts.len() ==> (#[trigger] parts[j]).index == j && part_matches(
                    parts[j],
                    total,
                    part_size,
                ),
        decreases count - i,
    {
        proof {
            lemma_start_in_bounds(i as int, total, part_size);
        }
        let start = i * part_size;
        let end = if total - 1 - start <= part_size - 1 {
            total - 1
        } else {
            start + part_size - 1
        };
        parts.push(PartDescriptor { index: i, start_offset: start, end_offset_inclusive: end });
        i = i + 1;
    }
    parts
}

/// Law: the fixed partitioning of a resource of `total > 0` bytes is sorted
/// by index and contiguous, its parts are pairwise disjoint, every byte of
/// `[0, total - 1]` falls in the part at its offset divided by `part_size`,
/// and enough parts are generated to reach the last byte.
pub proof fn lemma_parts_partition(total: u64, part_size: u64)
    requires
        part_size > 0,
        total > 0,
    ensures
        spec_part_start(0, part_size) == 0,
        spec_part_end(spec_part_count(total, part_size) - 1, total, part_size) == total - 1,
        forall|i: int|
            0 <= i < spec_part_count(total, part_size) ==> #[trigger] spec_part_start(i, part_size)
                <= spec_part_end(i, total, part_size),
        forall|i: int|
            0 < i < spec_part_count(total, part_size) ==> #[trigger] spec_part_start(i, part_size)
                == spec_part_end(i - 1, total, part_size) + 1,
        forall|i: int, j: int|
            0 <= i < j < spec_part_count(total, part_size) ==> #[trigger] spec_part_end(
                i,
                total,
                part_size,
            ) < #[trigger] spec_part_start(j, part_size),
        forall|b: int| 0 <= b < total ==> #[trigger] covered_by_own_part(b, total, part_size),
{
    let p = part_size as int;
    let count = spec_part_count(total, part_size);
    let q = (total - 1) / p;

    assert(spec_part_start(0, part_size) == 0) by (nonlinear_arith);

    // The last part reaches the final byte: count * p >= total.
    lemma_fundamental_div_mod(total - 1, p);
    assert(0 <= (total - 1) % p < p) by (nonlinear_arith)
        requires p > 0,
    ;
    assert(q * p == p * q) by (nonlinear_arith);
    assert((count - 1) * p + p - 1 >= total - 1);
    lemma_start_in_bounds(count - 1, total, part_size);
    assert(spec_part_end(count - 1, total, part_size) == total - 1);

    assert forall|i: int| 0 <= i < count implies #[trigger] spec_part_start(i, part_size)
        <= spec_part_end(i, total, part_size) by {
        lemma_start_in_bounds(i, total, part_size);
    }

    assert forall|i: int| 0 < i < count implies #[trigger] spec_part_start(i, part_size)
        == spec_part_end(i - 1, total, part_size) + 1 by {
        lemma_start_in_bounds(i, total, part_size);
        assert((i - 1) * p + p == i * p) by (nonlinear_arith);
    }

    assert forall|i: int, j: int| 0 <= i < j < count implies #[trigger] spec_part_end(
        i,
        total,
        part_size,
    ) < #[trigger] spec_part_start(j, part_size) by {
        assert((i + 1) * p == i * p + p) by (nonlinear_arith);
        lemma_mul_inequality(i + 1, j, p);
    }

    assert forall|b: int| 0 <= b < total implies #[trigger] covered_by_own_part(
        b,
        total,
        part_size,
    ) by {
        let i = b / p;
        lemma_fundamental_div_mod(b, p);
        assert(0 <= b % p < p) by (nonlinear_arith)
            requires p > 0,
        ;
        lemma_div_is_ordered(b, total - 1, p);
        assert(p * i == i * p) by (nonlinear_arith);
    }
}

} // verus!
