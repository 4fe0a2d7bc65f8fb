//! The Color Index: a capacity-sharded spatial index over derived colours.
//!
//! Colours are inserted once, sequentially, in key order; the key of an
//! entry is its insertion rank, so the index stores only the colours. Each
//! shard accepts insertions up to a fixed capacity, after which a new shard
//! is opened; a query fans out over all shards and unions the results,
//! which therefore come back in ascending key order. The radius test is
//! exact: the squared Euclidean distance between the rational channel
//! values is compared to the threshold by cross-multiplication, entirely
//! in integers.

use vstd::prelude::*;

use crate::record::ColorSum;
use crate::record::MAX_TRIPLETS;
use crate::record::color_wf;
use crate::record::mden;

verus! {

/// How many entries one shard accepts before the next shard is opened.
pub const SHARD_CAPACITY: usize = 200000;

/// Numerator of the squared-distance threshold 3 / 2000 = 0.0015.
pub const RADIUS_NUM: u64 = 3;

/// Denominator of the squared-distance threshold 3 / 2000 = 0.0015.
pub const RADIUS_DEN: u64 = 2000;

/// The exact radius test. The real channel values of `a` are
/// `a.r / (255 * ma)` and so on, with `ma = mden(a.triplets)`; their
/// squared Euclidean distance is at most `RADIUS_NUM / RADIUS_DEN` exactly
/// when this cross-multiplied integer inequality holds.
pub open spec fn spec_within_radius(a: ColorSum, b: ColorSum) -> bool {
    let ma = mden(a.triplets as int);
    let mb = mden(b.triplets as int);
    let dr = a.r * mb - b.r * ma;
    let dg = a.g * mb - b.g * ma;
    let db = a.b * mb - b.b * ma;
    RADIUS_DEN * (dr * dr + dg * dg + db * db) <= RADIUS_NUM * (255 * 255) * (ma * mb) * (ma * mb)
}

/// Decide the exact radius test on two well-formed colours.
pub fn within_radius(a: &ColorSum, b: &ColorSum) -> (r: bool)
    requires
        color_wf(*a),
        color_wf(*b),
    ensures
        r == spec_within_radius(*a, *b),
{
    let ma: u64 = if a.triplets == 0 {
        1
    } else {
        a.triplets
    };
    let mb: u64 = if b.triplets == 0 {
        1
    } else {
        b.triplets
    };
    proof {
        assert(a.r <= 255 * ma && a.g <= 255 * ma && a.b <= 255 * ma);
        assert(b.r <= 255 * mb && b.g <= 255 * mb && b.b <= 255 * mb);
    }
    let dr = channel_abs_diff(a.r, b.r, ma, mb);
    let dg = channel_abs_diff(a.g, b.g, ma, mb);
    let db = channel_abs_diff(a.b, b.b, ma, mb);
    proof {
        lemma_abs_sq((a.r * mb - b.r * ma) as int, dr as int, 71776119061217280);
        lemma_abs_sq((a.g * mb - b.g * ma) as int, dg as int, 71776119061217280);
        lemma_abs_sq((a.b * mb - b.b * ma) as int, db as int, 71776119061217280);
        assert(2000 * (dr * dr + dg * dg + db * db) < u128::MAX) by (nonlinear_arith)
            requires
                dr * dr <= 71776119061217280 * 71776119061217280,
                dg * dg <= 71776119061217280 * 71776119061217280,
                db * db <= 71776119061217280 * 71776119061217280,
                0 <= dr * dr,
                0 <= dg * dg,
                0 <= db * db,
        ;
    }
    let lhs: u128 = (RADIUS_DEN as u128) * (dr * dr + dg * dg + db * db);
    proof {
        assert((ma as int) * (mb as int) <= 281474976710656) by (nonlinear_arith)
            requires
                1 <= ma <= MAX_TRIPLETS,
                1 <= mb <= MAX_TRIPLETS,
        ;
    }
    let mm: u128 = (ma as u128) * (mb as u128);
    proof {
        assert(0 <= mm * mm <= 79228162514264337593543950336) by (nonlinear_arith)
            requires
                0 <= mm <= 281474976710656,
        ;
    }
    let rhs: u128 = (RADIUS_NUM as u128) * (65025 * (mm * mm));
    proof {
        let x = mm as int;
        assert((RADIUS_NUM as int) * (255 * 255) * x * x == (RADIUS_NUM as int) * (65025 * (x
            * x))) by (nonlinear_arith);
    }
    lhs <= rhs
}

/// The scaled absolute channel difference `|x * mb - y * ma|`, bounded by
/// `255 * ma * mb`.
fn channel_abs_diff(x: u64, y: u64, ma: u64, mb: u64) -> (d: u128)
    requires
        1 <= ma <= MAX_TRIPLETS,
        1 <= mb <= MAX_TRIPLETS,
        x <= 255 * ma,
        y <= 255 * mb,
    ensures
        d == if x * mb >= y * ma {
            x * mb - y * ma
        } else {
            y * ma - x * mb
        },
        d <= 255 * ma * mb,
        d <= 71776119061217280,
{
    proof {
        assert(255 * ma * mb <= 71776119061217280) by (nonlinear_arith)
            requires
                1 <= ma <= MAX_TRIPLETS,
                1 <= mb <= MAX_TRIPLETS,
        ;
    }
    proof {
        assert(x * mb <= 255 * ma * mb && y * ma <= 255 * ma * mb && 255 * ma * mb < u128::MAX)
            by (nonlinear_arith)
            requires
                1 <= ma <= MAX_TRIPLETS,
                1 <= mb <= MAX_TRIPLETS,
                x <= 255 * ma,
                y <= 255 * mb,
        ;
    }
    let xm: u128 = (x as u128) * (mb as u128);
    let ym: u128 = (y as u128) * (ma as u128);
    if xm >= ym {
        xm - ym
    } else {
        ym - xm
    }
}

/// `|s| == d` implies `s * s == d * d`, and a bound on `d` squares.
proof fn lemma_abs_sq(s: int, d: int, bound: int)
    requires
        d == if s >= 0 {
            s
        } else {
            -s
        },
        d <= bound,
    ensures
        s * s == d * d,
        0 <= d * d <= bound * bound,
{
    assert(s * s == d * d) by (nonlinear_arith)
        requires
            d == if s >= 0 {
                s
            } else {
                -s
            },
    ;
    assert(d * d <= bound * bound) by (nonlinear_arith)
        requires
            0 <= d <= bound,
    ;
}

/// Concatenation of the shards, in shard order: the colour stored under
/// key `k` stands at position `k`.
pub open spec fn view_of(shards: Seq<Vec<ColorSum>>) -> Seq<ColorSum>
    decreases shards.len(),
{
    if shards.len() == 0 {
        Seq::empty()
    } else {
        view_of(shards.drop_last()) + shards.last()@
    }
}

/// Total length of the first `k` shards.
pub open spec fn sum_lens(shards: Seq<Vec<ColorSum>>, k: int) -> int
    decreases k,
{
    if k <= 0 {
        0
    } else {
        sum_lens(shards, k - 1) + shards[k - 1]@.len()
    }
}

proof fn lemma_view_len(shards: Seq<Vec<ColorSum>>)
    ensures
        view_of(shards).len() == sum_lens(shards, shards.len() as int),
    decreases shards.len(),
{
    if shards.len() > 0 {
        lemma_view_len(shards.drop_last());
        lemma_sum_lens_drop_last(shards, shards.len() - 1);
    }
}

proof fn lemma_sum_lens_drop_last(shards: Seq<Vec<ColorSum>>, k: int)
    requires
        0 <= k <= shards.len() - 1,
    ensures
        sum_lens(shards.drop_last(), k) == sum_lens(shards, k),
    decreases k,
{
    if k > 0 {
        lemma_sum_lens_drop_last(shards, k - 1);
    }
}

/// Keys are shard-disjoint by construction: entry `j` of shard `si` stands
/// in the concatenation at the offset of shard `si` plus `j`.
proof fn lemma_view_index(shards: Seq<Vec<ColorSum>>, si: int, j: int)
    requires
        0 <= si < shards.len(),
        0 <= j < shards[si]@.len(),
    ensures
        0 <= sum_lens(shards, si) + j < view_of(shards).len(),
        view_of(shards)[sum_lens(shards, si) + j] == shards[si]@[j],
    decreases shards.len(),
{
    lemma_view_len(shards);
    if si == shards.len() - 1 {
        lemma_view_len(shards.drop_last());
        lemma_sum_lens_drop_last(shards, si);
    } else {
        lemma_view_index(shards.drop_last(), si, j);
        lemma_sum_lens_drop_last(shards, si);
        lemma_view_len(shards.drop_last());
    }
}

/// The keys within radius of query colour `q` among the first `m` stored
/// colours, the querying key itself excluded, in ascending key order.
pub open spec fn spec_query_upto(colors: Seq<ColorSum>, q: ColorSum, qk: int, m: int) -> Seq<usize>
    decreases m,
{
    if m <= 0 {
        Seq::empty()
    } else {
        let pre = spec_query_upto(colors, q, qk, m - 1);
        if m - 1 != qk && spec_within_radius(colors[m - 1], q) {
            pre.push((m - 1) as usize)
        } else {
            pre
        }
    }
}

/// The full query result over a stored colour sequence.
pub open spec fn spec_query(colors: Seq<ColorSum>, q: ColorSum, qk: int) -> Seq<usize> {
    spec_query_upto(colors, q, qk, colors.len() as int)
}

/// Every key a query returns is a stored key other than the querying one,
/// and its colour lies within the radius of the query colour.
pub proof fn lemma_query_upto_props(colors: Seq<ColorSum>, q: ColorSum, qk: int, m: int)
    requires
        m <= colors.len(),
        m <= usize::MAX,
    ensures
        forall|i: int|
            0 <= i < spec_query_upto(colors, q, qk, m).len() ==> {
                let k = #[trigger] spec_query_upto(colors, q, qk, m)[i];
                &&& 0 <= k < m
                &&& k != qk
                &&& spec_within_radius(colors[k as int], q)
            },
    decreases m,
{
    if m > 0 {
        lemma_query_upto_props(colors, q, qk, m - 1);
        let pre = spec_query_upto(colors, q, qk, m - 1);
        let cur = spec_query_upto(colors, q, qk, m);
        assert forall|i: int| 0 <= i < cur.len() implies {
            let k = #[trigger] cur[i];
            &&& 0 <= k < m
            &&& k != qk
            &&& spec_within_radius(colors[k as int], q)
        } by {
            if m - 1 != qk && spec_within_radius(colors[m - 1], q) {
                assert(cur == pre.push((m - 1) as usize));
                if i < pre.len() {
                    assert(cur[i] == pre[i]);
                } else {
                    assert(cur[i] == (m - 1) as usize);
                }
            } else {
                assert(cur == pre);
                assert(cur[i] == pre[i]);
            }
        }
    }
}

/// The Color Index: shards of stored colours, keyed by insertion rank.
pub struct ColorIndex {
    shards: Vec<Vec<ColorSum>>,
    count: usize,
}

impl ColorIndex {
    /// The stored colours, in key order.
    pub closed spec fn view(&self) -> Seq<ColorSum> {
        view_of(self.shards@)
    }

    /// Structural discipline: every shard but the last is exactly at
    /// capacity, no shard is over capacity, the running count matches, and
    /// every stored colour is well-formed.
    pub closed spec fn wf(&self) -> bool {
        &&& self.count == self.view().len()
        &&& forall|i: int|
            0 <= i < self.shards@.len() - 1 ==> self.shards@[i]@.len() == SHARD_CAPACITY
        &&& forall|i: int| 0 <= i < self.shards@.len() ==> self.shards@[i]@.len() <= SHARD_CAPACITY
        &&& forall|i: int| 0 <= i < self.view().len() ==> color_wf(self.view()[i])
    }

    /// An empty index.
    pub fn new() -> (s: Self)
        ensures
            s.wf(),
            s@ == Seq::<ColorSum>::empty(),
    {
        ColorIndex { shards: Vec::new(), count: 0 }
    }

    /// How many colours the index stores.
    pub fn len(&self) -> (n: usize)
        requires
            self.wf(),
        ensures
            n == self@.len(),
    {
        self.count
    }

    /// How many shards the index has opened.
    pub fn shard_count(&self) -> (n: usize)
        ensures
            n == self.spec_shard_count(),
    {
        self.shards.len()
    }

    /// The number of shards.
    pub closed spec fn spec_shard_count(&self) -> int {
        self.shards@.len() as int
    }

    /// Store the next colour: it receives the next key, that is the
    /// present length of the index. Opens a new shard when the last one
    /// is at capacity.
    pub fn insert(&mut self, c: ColorSum)
        requires
            old(self).wf(),
            color_wf(c),
            old(self)@.len() < usize::MAX,
        ensures
            final(self).wf(),
            final(self)@ == old(self)@.push(c),
    {
        let ghost pre = self.shards@;
        let need_shard: bool = if self.shards.len() == 0 {
            true
        } else {
            proof {
                lemma_view_len(self.shards@);
                lemma_sum_lens_drop_last(self.shards@, self.shards@.len() - 1);
                lemma_view_len(self.shards@.drop_last());
            }
            self.shards[self.shards.len() - 1].len() >= SHARD_CAPACITY
        };
        if need_shard {
            self.shards.push(Vec::new());
            proof {
                assert(self.shards@.drop_last() =~= pre);
                assert(view_of(self.shards@) =~= view_of(pre));
            }
        }
        let ghost opened = self.shards@;
        let mut shard: Vec<ColorSum> = self.shards.pop().unwrap();
        shard.push(c);
        self.shards.push(shard);
        proof {
            assert(self.shards@.drop_last() =~= opened.drop_last());
            assert(self.shards@.last()@ =~= opened.last()@.push(c));
            assert(view_of(self.shards@) =~= view_of(opened).push(c));
            lemma_view_len(self.shards@);
        }
        self.count = self.count + 1;
    }

    /// Radius query: all stored keys other than `qkey` whose colour lies
    /// within the radius of `q`, as the union over all shards, in ascending
    /// key order. The querying key itself is never returned.
    pub fn query(&self, q: &ColorSum, qkey: usize) -> (res: Vec<usize>)
        requires
            self.wf(),
            color_wf(*q),
        ensures
            res@ == spec_query(self@, *q, qkey as int),
            forall|i: int| 0 <= i < res@.len() ==> res@[i] != qkey,
    {
        let mut res: Vec<usize> = Vec::new();
        let mut si: usize = 0;
        let mut base: usize = 0;
        proof {
            lemma_view_len(self.shards@);
        }
        while si < self.shards.len()
        invariant
            self.wf(),
            color_wf(*q),
            0 <= si <= self.shards@.len(),
            base == sum_lens(self.shards@, si as int),
            base <= self@.len(),
            res@ == spec_query_upto(self@, *q, qkey as int, base as int),
        decreases self.shards@.len() - si,
        {
            let shard = &self.shards[si];
            let mut j: usize = 0;
            while j < shard.len()
            invariant
                self.wf(),
                color_wf(*q),
                0 <= si < self.shards@.len(),
                shard == &self.shards[si as int],
                0 <= j <= shard@.len(),
                base == sum_lens(self.shards@, si as int),
                base + j <= self@.len(),
                res@ == spec_query_upto(self@, *q, qkey as int, (base + j) as int),
            decreases shard@.len() - j,
            {
                proof {
                    lemma_view_index(self.shards@, si as int, j as int);
                }
                let key: usize = base + j;
                if key != qkey && within_radius(&shard[j], q) {
                    res.push(key);
                }
                j = j + 1;
            }
            base = base + shard.len();
            si = si + 1;
        }
        proof {
            lemma_view_len(self.shards@);
            lemma_query_upto_props(self@, *q, qkey as int, self@.len() as int);
        }
        res
    }
}

} // verus!
