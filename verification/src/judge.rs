//! The similarity judge: a pure decision on whether two fingerprints
//! represent the same photo.
//!
//! Bytes are paired positionally over the shorter of the two sequences.
//! A pair is accepted only if no paired byte difference exceeds a per-byte
//! tolerance, the sum of all differences stays within a cumulative
//! tolerance, and the average squared difference over the compared length
//! stays within a variance ceiling. An empty fingerprint is never the same
//! as anything.

use vstd::prelude::*;

verus! {

/// Per-byte difference above which two fingerprints are never the same.
pub const BYTE_DIFF_LIMIT: u32 = 30;

/// Ceiling on the sum of all paired byte differences.
pub const SUM_DIFF_LIMIT: u32 = 1920;

/// Ceiling on the average of squared paired byte differences.
pub const VARIANCE_LIMIT: u32 = 100;

/// Absolute difference of two bytes.
pub open spec fn byte_diff(x: u8, y: u8) -> int {
    if x >= y {
        x - y
    } else {
        y - x
    }
}

/// Length over which two fingerprints are compared: the shorter of the two.
pub open spec fn compared_len(a: Seq<u8>, b: Seq<u8>) -> int {
    if a.len() <= b.len() {
        a.len() as int
    } else {
        b.len() as int
    }
}

/// Sum of the paired byte differences over the first `m` positions.
pub open spec fn diff_sum(a: Seq<u8>, b: Seq<u8>, m: int) -> int
    decreases m,
{
    if m <= 0 {
        0
    } else {
        diff_sum(a, b, m - 1) + byte_diff(a[m - 1], b[m - 1])
    }
}

/// Sum of the squared paired byte differences over the first `m` positions.
pub open spec fn diff_sq_sum(a: Seq<u8>, b: Seq<u8>, m: int) -> int
    decreases m,
{
    if m <= 0 {
        0
    } else {
        diff_sq_sum(a, b, m - 1) + byte_diff(a[m - 1], b[m - 1]) * byte_diff(a[m - 1], b[m - 1])
    }
}

/// Whether two fingerprints represent the same photo: both non-empty, no
/// paired byte difference above `BYTE_DIFF_LIMIT`, the difference sum at
/// most `SUM_DIFF_LIMIT`, and the average squared difference over the
/// compared length at most `VARIANCE_LIMIT`.
pub open spec fn spec_same(a: Seq<u8>, b: Seq<u8>) -> bool {
    let m = compared_len(a, b);
    &&& a.len() > 0
    &&& b.len() > 0
    &&& (forall|i: int| 0 <= i < m ==> byte_diff(a[i], b[i]) <= BYTE_DIFF_LIMIT)
    &&& diff_sum(a, b, m) <= SUM_DIFF_LIMIT
    &&& diff_sq_sum(a, b, m) / m <= VARIANCE_LIMIT
}

/// Difference sums only grow with the compared length.
proof fn lemma_diff_sum_mono(a: Seq<u8>, b: Seq<u8>, i: int, j: int)
    requires
        0 <= i <= j,
    ensures
        diff_sum(a, b, i) <= diff_sum(a, b, j),
    decreases j - i,
{
    if i < j {
        lemma_diff_sum_mono(a, b, i, j - 1);
    }
}

/// Decide whether two fingerprints represent the same photo.
pub fn same(a: &Vec<u8>, b: &Vec<u8>) -> (r: bool)
    ensures
        r == spec_same(a@, b@),
{
    if a.len() == 0 || b.len() == 0 {
        return false;
    }
    let m: usize = if a.len() <= b.len() {
        a.len()
    } else {
        b.len()
    };
    let mut total: u32 = 0;
    let mut sq: u32 = 0;
    let mut i: usize = 0;
    while i < m
        invariant
            0 <= i <= m,
            m == compared_len(a@, b@),
            m <= a@.len(),
            m <= b@.len(),
            a@.len() > 0,
            b@.len() > 0,
            total == diff_sum(a@, b@, i as int),
            sq == diff_sq_sum(a@, b@, i as int),
            forall|j: int| 0 <= j < i ==> byte_diff(a@[j], b@[j]) <= BYTE_DIFF_LIMIT,
            total <= SUM_DIFF_LIMIT,
            sq <= 30 * total,
        decreases m - i,
    {
        let x = a[i];
        let y = b[i];
        let d: u32 = if x >= y {
            (x - y) as u32
        } else {
            (y - x) as u32
        };
        proof {
            assert(d == byte_diff(a@[i as int], b@[i as int]));
        }
        let newtotal: u32 = total + d;
        if d > BYTE_DIFF_LIMIT {
            proof {
                assert(byte_diff(a@[i as int], b@[i as int]) > BYTE_DIFF_LIMIT);
            }
            return false;
        }
        if newtotal > SUM_DIFF_LIMIT {
            proof {
                lemma_diff_sum_mono(a@, b@, i + 1, m as int);
                assert(diff_sum(a@, b@, compared_len(a@, b@)) > SUM_DIFF_LIMIT);
            }
            return false;
        }
        proof {
            assert(d * d <= 30 * d) by (nonlinear_arith)
                requires
                    0 <= d <= 30,
            ;
        }
        total = newtotal;
        sq = sq + d * d;
        i = i + 1;
    }
    (sq as u64) / (m as u64) <= VARIANCE_LIMIT as u64
}

/// Law: the judge is symmetric — `same(a, b)` and `same(b, a)` agree for
/// every pair of byte sequences, since all three criteria depend only on
/// the pairwise differences.
pub proof fn lemma_same_symmetric(a: Seq<u8>, b: Seq<u8>)
    ensures
        spec_same(a, b) == spec_same(b, a),
{
    lemma_diff_sums_symmetric(a, b, compared_len(a, b));
    assert(compared_len(a, b) == compared_len(b, a));
    assert forall|i: int| 0 <= i < compared_len(a, b) implies byte_diff(a[i], b[i]) == byte_diff(
        b[i],
        a[i],
    ) by {}
}

/// Both difference sums are symmetric in their two sequences.
proof fn lemma_diff_sums_symmetric(a: Seq<u8>, b: Seq<u8>, m: int)
    ensures
        diff_sum(a, b, m) == diff_sum(b, a, m),
        diff_sq_sum(a, b, m) == diff_sq_sum(b, a, m),
    decreases m,
{
    if m > 0 {
        lemma_diff_sums_symmetric(a, b, m - 1);
    }
}

/// Law: a pair with some paired byte difference above `BYTE_DIFF_LIMIT` is
/// never the same, whatever the rest of the bytes hold.
pub proof fn lemma_same_rejects_large_diff(a: Seq<u8>, b: Seq<u8>, i: int)
    requires
        0 <= i < compared_len(a, b),
        byte_diff(a[i], b[i]) > BYTE_DIFF_LIMIT,
    ensures
        !spec_same(a, b),
{
}

} // verus!
