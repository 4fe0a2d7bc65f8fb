//! The working set of one run: every materialized record beside the Color
//! Index over their derived colours, and the candidate search for one
//! record's confirmed near-duplicates.
//!
//! Records are added once, sequentially, in ingestion order; a record with
//! status `Discarded` is dropped at ingestion and never materialized. The
//! key of a record is its position, so lookups are direct.

use vstd::prelude::*;

use crate::index::ColorIndex;
use crate::index::lemma_query_upto_props;
use crate::index::spec_query;
use crate::index::spec_query_upto;
use crate::index::spec_within_radius;
use crate::judge::same;
use crate::judge::spec_same;
use crate::record::MAX_FINGERPRINT_BYTES;
use crate::record::Record;
use crate::record::Status;
use crate::record::color_wf;
use crate::record::derive_color;
use crate::record::is_derived_color;
use crate::record::record_wf;

verus! {

/// Two externally supplied identifiers differ by exactly 1: the records
/// are taken for sequential burst captures and never match each other.
pub open spec fn adjacent_ids(x: u64, y: u64) -> bool {
    ||| x >= y && x - y == 1
    ||| y >= x && y - x == 1
}

/// The working set: records in key order, and the Color Index holding the
/// derived colour of record `k` under key `k`.
pub struct Corpus {
    pub records: Vec<Record>,
    pub index: ColorIndex,
}

/// Internal consistency of the working set: every record is well-formed,
/// keyed by its position, and mirrored in the Color Index.
pub open spec fn corpus_wf(c: Corpus) -> bool {
    &&& c.index.wf()
    &&& c.index@.len() == c.records@.len()
    &&& forall|k: int|
        0 <= k < c.records@.len() ==> {
            let r = #[trigger] c.records@[k];
            &&& record_wf(r)
            &&& r.key == k
            &&& c.index@[k] == r.color
        }
}

/// Record `k` of corpus `c` is a confirmed match for the record under
/// `center`: a different record, within the colour radius, not `Deleted`,
/// not an adjacent identifier, and confirmed by the similarity judge.
pub open spec fn member_ok(c: Corpus, center: int, k: int) -> bool {
    &&& k != center
    &&& spec_within_radius(c.records@[k].color, c.records@[center].color)
    &&& c.records@[k].status != Status::Deleted
    &&& !adjacent_ids(c.records@[center].id, c.records@[k].id)
    &&& spec_same(c.records@[center].fingerprint@, c.records@[k].fingerprint@)
}

/// The filters applied after the colour search: lifecycle, adjacency,
/// and the similarity judge.
pub open spec fn fine_ok(c: Corpus, center: int, k: int) -> bool {
    &&& c.records@[k].status != Status::Deleted
    &&& !adjacent_ids(c.records@[center].id, c.records@[k].id)
    &&& spec_same(c.records@[center].fingerprint@, c.records@[k].fingerprint@)
}

/// The confirmed matches of `center` among the first `m` records, in
/// ascending key order.
pub open spec fn spec_matches_upto(c: Corpus, center: int, m: int) -> Seq<usize>
    decreases m,
{
    if m <= 0 {
        Seq::empty()
    } else {
        let pre = spec_matches_upto(c, center, m - 1);
        if member_ok(c, center, m - 1) {
            pre.push((m - 1) as usize)
        } else {
            pre
        }
    }
}

/// The confirmed matches of `center` over the whole corpus, in ascending
/// key order: exactly the keys whose records `member_ok` accepts.
pub open spec fn spec_matches(c: Corpus, center: int) -> Seq<usize> {
    spec_matches_upto(c, center, c.records@.len() as int)
}

/// Keys surviving the post-query filters, keeping the candidate order.
pub open spec fn fine_filter(c: Corpus, center: int, keys: Seq<usize>) -> Seq<usize>
    decreases keys.len(),
{
    if keys.len() == 0 {
        Seq::empty()
    } else {
        let pre = fine_filter(c, center, keys.drop_last());
        if fine_ok(c, center, keys.last() as int) {
            pre.push(keys.last())
        } else {
            pre
        }
    }
}

/// Filtering the colour-radius candidates with the fine filters yields
/// exactly the confirmed matches.
proof fn lemma_filter_query_is_matches(c: Corpus, center: int, m: int)
    requires
        corpus_wf(c),
        0 <= center < c.records@.len(),
        0 <= m <= c.records@.len(),
        c.records@.len() <= usize::MAX,
    ensures
        fine_filter(
            c,
            center,
            spec_query_upto(c.index@, c.records@[center].color, center, m),
        ) == spec_matches_upto(c, center, m),
    decreases m,
{
    if m > 0 {
        lemma_filter_query_is_matches(c, center, m - 1);
        let q_pre = spec_query_upto(c.index@, c.records@[center].color, center, m - 1);
        let q_cur = spec_query_upto(c.index@, c.records@[center].color, center, m);
        if m - 1 != center && spec_within_radius(c.index@[m - 1], c.records@[center].color) {
            assert(q_cur == q_pre.push((m - 1) as usize));
            assert(q_cur.drop_last() == q_pre);
            assert(member_ok(c, center, m - 1) == fine_ok(c, center, m - 1));
        } else {
            assert(q_cur == q_pre);
            assert(!member_ok(c, center, m - 1));
        }
    }
}

/// Every confirmed match is a key below `m` that `member_ok` accepts.
pub proof fn lemma_matches_upto_props(c: Corpus, center: int, m: int)
    requires
        m <= c.records@.len(),
        m <= usize::MAX,
    ensures
        forall|i: int|
            0 <= i < spec_matches_upto(c, center, m).len() ==> {
                let k = #[trigger] spec_matches_upto(c, center, m)[i];
                &&& 0 <= k < m
                &&& member_ok(c, center, k as int)
            },
    decreases m,
{
    if m > 0 {
        lemma_matches_upto_props(c, center, m - 1);
        let pre = spec_matches_upto(c, center, m - 1);
        let cur = spec_matches_upto(c, center, m);
        assert forall|i: int| 0 <= i < cur.len() implies {
            let k = #[trigger] cur[i];
            &&& 0 <= k < m
            &&& member_ok(c, center, k as int)
        } by {
            if member_ok(c, center, m - 1) {
                assert(cur == pre.push((m - 1) as usize));
                if i < pre.len() {
                    assert(cur[i] == pre[i]);
                } else {
                    assert(cur[i] == (m - 1) as usize);
                }
            } else {
                assert(cur == pre);
                assert(cur[i] == pre[i]);
            }
        }
    }
}

impl Corpus {
    /// An empty working set.
    pub fn new() -> (c: Self)
        ensures
            corpus_wf(c),
            c.records@.len() == 0,
    {
        Corpus { records: Vec::new(), index: ColorIndex::new() }
    }

    /// How many records are materialized.
    pub fn len(&self) -> (n: usize)
        ensures
            n == self.records@.len(),
    {
        self.records.len()
    }

    /// Read one record by key.
    pub fn record(&self, key: usize) -> (r: &Record)
        requires
            key < self.records@.len(),
        ensures
            r == self.records@[key as int],
    {
        &self.records[key]
    }

    /// Ingest one decoded record. A `Discarded` record is dropped whole;
    /// any other receives the next key and enters both the record store
    /// and the Color Index.
    pub fn add(
        &mut self,
        id: u64,
        width: u32,
        height: u32,
        size: u32,
        fingerprint: Vec<u8>,
        status: Status,
    )
        requires
            corpus_wf(*old(self)),
            fingerprint@.len() % 3 == 0,
            fingerprint@.len() <= MAX_FINGERPRINT_BYTES,
            old(self).records@.len() < usize::MAX,
        ensures
            corpus_wf(*final(self)),
            status == Status::Discarded ==> final(self).records@ == old(self).records@
                && final(self).index@ == old(self).index@,
            status != Status::Discarded ==> {
                let r = final(self).records@.last();
                &&& final(self).records@.len() == old(self).records@.len() + 1
                &&& final(self).records@.drop_last() == old(self).records@
                &&& r.key == old(self).records@.len()
                &&& r.id == id
                &&& r.width == width
                &&& r.height == height
                &&& r.size == size
                &&& r.fingerprint@ == fingerprint@
                &&& is_derived_color(r.color, fingerprint@)
                &&& r.status == status
                &&& final(self).index@ == old(self).index@.push(r.color)
            },
    {
        if status == Status::Discarded {
            return ;
        }
        let key = self.records.len();
        let color = derive_color(&fingerprint);
        self.index.insert(color);
        let record = Record { key, id, width, height, size, fingerprint, color, status };
        self.records.push(record);
        proof {
            assert(self.records@.drop_last() == old(self).records@);
            assert forall|k: int| 0 <= k < self.records@.len() implies {
                let r = #[trigger] self.records@[k];
                &&& record_wf(r)
                &&& r.key == k
                &&& self.index@[k] == r.color
            } by {
                if k < self.records@.len() - 1 {
                    assert(self.records@[k] == old(self).records@[k]);
                    assert(self.index@[k] == old(self).index@[k]);
                }
            }
        }
    }

    /// The confirmed near-duplicates of the record under `key`: colour
    /// candidates from the Color Index, with `Deleted` records, adjacent
    /// identifiers and judge rejections filtered out, in candidate order.
    pub fn find_matches(&self, key: usize) -> (res: Vec<usize>)
        requires
            corpus_wf(*self),
            key < self.records@.len(),
        ensures
            res@ == spec_matches(*self, key as int),
    {
        let n = self.records.len();
        let qcolor = self.records[key].color;
        let cands = self.index.query(&qcolor, key);
        proof {
            assert(self.records@.len() == n);
            lemma_query_upto_props(self.index@, qcolor, key as int, self.index@.len() as int);
        }
        let mut res: Vec<usize> = Vec::new();
        let mut j: usize = 0;
        while j < cands.len()
            invariant
                corpus_wf(*self),
                key < self.records@.len(),
                qcolor == self.records@[key as int].color,
                cands@ == spec_query(self.index@, qcolor, key as int),
                forall|i: int|
                    0 <= i < cands@.len() ==> #[trigger] cands@[i] < self.records@.len(),
                0 <= j <= cands@.len(),
                res@ == fine_filter(*self, key as int, cands@.take(j as int)),
            decreases cands@.len() - j,
        {
            let k = cands[j];
            let cand = &self.records[k];
            let center = &self.records[key];
            let d: u64 = if center.id >= cand.id {
                center.id - cand.id
            } else {
                cand.id - center.id
            };
            let keep = cand.status != Status::Deleted && d != 1 && same(
                &center.fingerprint,
                &cand.fingerprint,
            );
            proof {
                assert(keep == fine_ok(*self, key as int, k as int));
                assert(cands@.take(j + 1).drop_last() == cands@.take(j as int));
                assert(cands@.take(j + 1).last() == cands@[j as int]);
            }
            if keep {
                res.push(k);
            }
            j = j + 1;
        }
        proof {
            assert(cands@.take(cands@.len() as int) == cands@);
            lemma_filter_query_is_matches(*self, key as int, self.records@.len() as int);
        }
        res
    }
}

} // verus!
