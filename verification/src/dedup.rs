//! The Dedup Orchestrator: drain the key space, claim centers exactly
//! once, and emit one group per confirmed center.
//!
//! The only mutable state of the scan is the claim set, an irreversible
//! mark per key taken through an atomic test-and-set step. A key is
//! passed over when it lies below the skip offset, when its record is
//! `Deleted`, or when it is already claimed; otherwise it is claimed,
//! its confirmed matches are computed, the matched keys are claimed in
//! turn, and — if any match was found — one group is emitted. Claiming
//! only prevents a key from becoming a later center; a claimed key can
//! still be listed as a member of another group.

use vstd::prelude::*;
use vstd::pervasive::VecAdditionalExecFns;

use crate::corpus::Corpus;
use crate::corpus::adjacent_ids;
use crate::corpus::corpus_wf;
use crate::corpus::lemma_matches_upto_props;
use crate::corpus::member_ok;
use crate::corpus::spec_matches;
use crate::record::Status;

verus! {

/// The claim set: one irreversible mark per key in `[0, capacity)`.
pub struct ClaimSet {
    claimed: Vec<bool>,
}

impl ClaimSet {
    /// The set of claimed keys.
    pub closed spec fn view(&self) -> Set<usize> {
        Set::new(|k: usize| k < self.claimed@.len() && self.claimed@[k as int])
    }

    /// How many keys the set can mark.
    pub closed spec fn capacity(&self) -> int {
        self.claimed@.len() as int
    }

    /// An empty claim set over the keys `[0, n)`.
    pub fn new(n: usize) -> (s: Self)
        ensures
            s@ == Set::<usize>::empty(),
            s.capacity() == n,
    {
        let claimed: Vec<bool> = vec![false; n];
        let s = ClaimSet { claimed };
        proof {
            assert(s@ =~= Set::<usize>::empty());
        }
        s
    }

    /// Claim `k` in one step and report whether the claim was fresh:
    /// the atomic insert-if-absent of the claim discipline.
    pub fn try_claim(&mut self, k: usize) -> (fresh: bool)
        requires
            k < old(self).capacity(),
        ensures
            final(self).capacity() == old(self).capacity(),
            fresh == !old(self)@.contains(k),
            final(self)@ == old(self)@.insert(k),
    {
        let was = self.claimed[k];
        self.claimed.set(k, true);
        proof {
            assert(self@ =~= old(self)@.insert(k));
        }
        !was
    }
}

/// One emitted group: the center key first, then its confirmed matches
/// in the order the candidate search produced them.
pub struct Group {
    pub center: usize,
    pub members: Vec<usize>,
}

/// The mathematical image of a group: the center key and the member keys.
pub open spec fn group_model(g: Group) -> (usize, Seq<usize>) {
    (g.center, g.members@)
}

/// The mathematical image of an emitted group sequence.
pub open spec fn groups_model(s: Seq<Group>) -> Seq<(usize, Seq<usize>)> {
    s.map_values(|g: Group| group_model(g))
}

proof fn lemma_groups_model_push(s: Seq<Group>, g: Group)
    ensures
        groups_model(s.push(g)) =~= groups_model(s).push(group_model(g)),
{
}

/// The groups a scan emits from key `k` on, given the keys already
/// claimed: the claim discipline as a mathematical fold over the key
/// space. A key below `skip`, a `Deleted` record or an already claimed
/// key is passed over; otherwise the key is claimed and a group is
/// emitted exactly when it has confirmed matches, which are then claimed
/// as well.
pub open spec fn spec_run_from(c: Corpus, skip: usize, k: int, claimed: Set<usize>) -> Seq<
    (usize, Seq<usize>),
>
    decreases c.records@.len() - k,
{
    if k < 0 || k >= c.records@.len() {
        Seq::empty()
    } else {
        if k >= skip && c.records@[k].status != Status::Deleted && !claimed.contains(k as usize) {
            let ms = spec_matches(c, k);
            if ms.len() > 0 {
                seq![((k as usize), ms)] + spec_run_from(
                    c,
                    skip,
                    k + 1,
                    claimed.insert(k as usize).union(ms.to_set()),
                )
            } else {
                spec_run_from(c, skip, k + 1, claimed.insert(k as usize))
            }
        } else {
            spec_run_from(c, skip, k + 1, claimed)
        }
    }
}

/// The groups one full run over corpus `c` with skip offset `skip` emits.
pub open spec fn spec_run(c: Corpus, skip: usize) -> Seq<(usize, Seq<usize>)> {
    spec_run_from(c, skip, 0, Set::empty())
}

/// Scan the whole key space sequentially and emit every group. The
/// image of the result is exactly `spec_run`, so everything proved of
/// `spec_run` holds of what this scan emits.
pub fn run(corpus: &Corpus, skip: usize) -> (groups: Vec<Group>)
    requires
        corpus_wf(*corpus),
    ensures
        groups_model(groups@) == spec_run(*corpus, skip),
{
    let n = corpus.len();
    let mut claimed = ClaimSet::new(n);
    let mut groups: Vec<Group> = Vec::new();
    let mut key: usize = 0;
    proof {
        assert(groups_model(groups@) =~= Seq::<(usize, Seq<usize>)>::empty());
        assert(groups_model(groups@) + spec_run(*corpus, skip) =~= spec_run(*corpus, skip));
    }
    while key < n
        invariant
            corpus_wf(*corpus),
            n == corpus.records@.len(),
            claimed.capacity() == n,
            0 <= key <= n,
            groups_model(groups@) + spec_run_from(*corpus, skip, key as int, claimed@) == spec_run(
                *corpus,
                skip,
            ),
        decreases n - key,
    {
        let ghost cs0 = claimed@;
        let ghost gm0 = groups_model(groups@);
        if key >= skip && corpus.record(key).status != Status::Deleted {
            let fresh = claimed.try_claim(key);
            if fresh {
                let ms = corpus.find_matches(key);
                proof {
                    lemma_matches_upto_props(*corpus, key as int, corpus.records@.len() as int);
                }
                if ms.len() > 0 {
                    let ghost cs1 = cs0.insert(key);
                    let mut i: usize = 0;
                    proof {
                        assert(ms@.take(0).to_set() =~= Set::<usize>::empty());
                        assert(claimed@ =~= cs1.union(ms@.take(0).to_set()));
                    }
                    while i < ms.len()
                        invariant
                            0 <= i <= ms@.len(),
                            claimed.capacity() == n,
                            forall|t: int| 0 <= t < ms@.len() ==> #[trigger] ms@[t] < n,
                            claimed@ == cs1.union(ms@.take(i as int).to_set()),
                        decreases ms@.len() - i,
                    {
                        let m = ms[i];
                        claimed.try_claim(m);
                        proof {
                            lemma_take_push_to_set(ms@, i as int);
                            assert(claimed@ =~= cs1.union(ms@.take(i as int + 1).to_set()));
                        }
                        i = i + 1;
                    }
                    proof {
                        assert(ms@.take(ms@.len() as int) =~= ms@);
                        assert(claimed@ =~= cs1.union(ms@.to_set()));
                    }
                    let ghost model = ((key, ms@));
                    proof {
                        assert(spec_run_from(*corpus, skip, key as int, cs0) =~= seq![model]
                            + spec_run_from(*corpus, skip, key as int + 1, claimed@));
                    }
                    groups.push(Group { center: key, members: ms });
                    proof {
                        lemma_groups_model_push(groups@.drop_last(), groups@.last());
                        assert(groups@.drop_last().push(groups@.last()) =~= groups@);
                        assert(groups_model(groups@) =~= gm0.push(model));
                        assert(gm0.push(model) + spec_run_from(
                            *corpus,
                            skip,
                            key as int + 1,
                            claimed@,
                        ) =~= gm0 + (seq![model] + spec_run_from(
                            *corpus,
                            skip,
                            key as int + 1,
                            claimed@,
                        )));
                    }
                } else {
                    proof {
                        assert(spec_run_from(*corpus, skip, key as int, cs0) == spec_run_from(
                            *corpus,
                            skip,
                            key as int + 1,
                            claimed@,
                        ));
                    }
                }
            } else {
                proof {
                    assert(claimed@ =~= cs0);
                    assert(spec_run_from(*corpus, skip, key as int, cs0) == spec_run_from(
                        *corpus,
                        skip,
                        key as int + 1,
                        cs0,
                    ));
                }
            }
        } else {
            proof {
                assert(spec_run_from(*corpus, skip, key as int, cs0) == spec_run_from(
                    *corpus,
                    skip,
                    key as int + 1,
                    cs0,
                ));
            }
        }
        key = key + 1;
    }
    proof {
        assert(spec_run_from(*corpus, skip, n as int, claimed@) =~= Seq::<
            (usize, Seq<usize>),
        >::empty());
        assert(groups_model(groups@) + spec_run_from(*corpus, skip, n as int, claimed@)
            =~= groups_model(groups@));
    }
    groups
}

/// What holds of every group a scan from `(k, claimed)` emits: its center
/// is a key in `[max(k, skip), len)` whose record is not `Deleted`, its
/// members are exactly the center's confirmed matches and are non-empty,
/// and centers come in strictly ascending key order.
proof fn lemma_run_from_props(c: Corpus, skip: usize, k: int, claimed: Set<usize>)
    requires
        corpus_wf(c),
        c.records@.len() <= usize::MAX,
    ensures
        forall|i: int|
            0 <= i < spec_run_from(c, skip, k, claimed).len() ==> {
                let g = #[trigger] spec_run_from(c, skip, k, claimed)[i];
                &&& k <= g.0
                &&& skip <= g.0
                &&& g.0 < c.records@.len()
                &&& c.records@[g.0 as int].status != Status::Deleted
                &&& g.1 == spec_matches(c, g.0 as int)
                &&& g.1.len() > 0
            },
        forall|i: int, j: int|
            0 <= i < j < spec_run_from(c, skip, k, claimed).len() ==> (#[trigger] spec_run_from(
                c,
                skip,
                k,
                claimed,
            )[i]).0 < (#[trigger] spec_run_from(c, skip, k, claimed)[j]).0,
    decreases c.records@.len() - k,
{
    if 0 <= k < c.records@.len() {
        let cur = spec_run_from(c, skip, k, claimed);
        if k >= skip && c.records@[k].status != Status::Deleted && !claimed.contains(k as usize) {
            let ms = spec_matches(c, k);
            if ms.len() > 0 {
                let rest = spec_run_from(c, skip, k + 1, claimed.insert(k as usize).union(ms.to_set()));
                lemma_run_from_props(c, skip, k + 1, claimed.insert(k as usize).union(ms.to_set()));
                assert(cur == seq![((k as usize), ms)] + rest);
                assert forall|i: int| 0 <= i < cur.len() implies {
                    let g = #[trigger] cur[i];
                    &&& k <= g.0
                    &&& skip <= g.0
                    &&& g.0 < c.records@.len()
                    &&& c.records@[g.0 as int].status != Status::Deleted
                    &&& g.1 == spec_matches(c, g.0 as int)
                    &&& g.1.len() > 0
                } by {
                    if i == 0 {
                        assert(cur[0] == ((k as usize), ms));
                    } else {
                        assert(cur[i] == rest[i - 1]);
                    }
                }
                assert forall|i: int, j: int| 0 <= i < j < cur.len() implies (#[trigger] cur[i]).0
                    < (#[trigger] cur[j]).0 by {
                    assert(cur[j] == rest[j - 1]);
                    if i == 0 {
                        assert(cur[0].0 == k as usize);
                        assert(k + 1 <= rest[j - 1].0);
                    } else {
                        assert(cur[i] == rest[i - 1]);
                    }
                }
            } else {
                lemma_run_from_props(c, skip, k + 1, claimed.insert(k as usize));
            }
        } else {
            lemma_run_from_props(c, skip, k + 1, claimed);
        }
    }
}

/// What holds of every member of every emitted group: it is a materialized
/// key that `member_ok` accepts for that group's center.
proof fn lemma_run_member_ok(c: Corpus, skip: usize)
    requires
        corpus_wf(c),
        c.records@.len() <= usize::MAX,
    ensures
        forall|i: int, j: int|
            0 <= i < spec_run(c, skip).len() && 0 <= j < spec_run(c, skip)[i].1.len() ==> {
                let ctr = spec_run(c, skip)[i].0;
                let m = #[trigger] spec_run(c, skip)[i].1[j];
                &&& m < c.records@.len()
                &&& member_ok(c, ctr as int, m as int)
            },
{
    lemma_run_from_props(c, skip, 0, Set::empty());
    assert forall|i: int, j: int|
        0 <= i < spec_run(c, skip).len() && 0 <= j < spec_run(c, skip)[i].1.len() implies {
        let ctr = spec_run(c, skip)[i].0;
        let m = #[trigger] spec_run(c, skip)[i].1[j];
        &&& m < c.records@.len()
        &&& member_ok(c, ctr as int, m as int)
    } by {
        let ctr = spec_run(c, skip)[i].0;
        lemma_matches_upto_props(c, ctr as int, c.records@.len() as int);
        assert(spec_run(c, skip)[i].1 == spec_matches(c, ctr as int));
    }
}

/// Law (at-most-one centering): across one full run, every key appears
/// as the center of at most one emitted group.
pub proof fn lemma_at_most_one_center(c: Corpus, skip: usize)
    requires
        corpus_wf(c),
        c.records@.len() <= usize::MAX,
    ensures
        forall|i: int, j: int|
            0 <= i < j < spec_run(c, skip).len() ==> (#[trigger] spec_run(c, skip)[i]).0 != (
            #[trigger] spec_run(c, skip)[j]).0,
{
    lemma_run_from_props(c, skip, 0, Set::empty());
}

/// Law (skip semantics, first half): no emitted group has a center key
/// below the skip offset. A key below the offset can still be listed as
/// a member of a group centered on a key at or above it.
pub proof fn lemma_no_center_below_skip(c: Corpus, skip: usize)
    requires
        corpus_wf(c),
        c.records@.len() <= usize::MAX,
    ensures
        forall|i: int|
            0 <= i < spec_run(c, skip).len() ==> skip <= (#[trigger] spec_run(c, skip)[i]).0,
{
    lemma_run_from_props(c, skip, 0, Set::empty());
}

/// Law (exclusion of `Deleted`, centers): a record with status `Deleted`
/// never appears as the center of an emitted group.
pub proof fn lemma_deleted_never_centered(c: Corpus, skip: usize)
    requires
        corpus_wf(c),
        c.records@.len() <= usize::MAX,
    ensures
        forall|i: int|
            0 <= i < spec_run(c, skip).len() ==> {
                let ctr = (#[trigger] spec_run(c, skip)[i]).0;
                &&& ctr < c.records@.len()
                &&& c.records@[ctr as int].status != Status::Deleted
            },
{
    lemma_run_from_props(c, skip, 0, Set::empty());
}

/// Law (exclusion of `Deleted`, members): a record with status `Deleted`
/// never appears as a member of an emitted group.
pub proof fn lemma_deleted_never_member(c: Corpus, skip: usize)
    requires
        corpus_wf(c),
        c.records@.len() <= usize::MAX,
    ensures
        forall|i: int, j: int|
            0 <= i < spec_run(c, skip).len() && 0 <= j < spec_run(c, skip)[i].1.len() ==> {
                let m = #[trigger] spec_run(c, skip)[i].1[j];
                &&& m < c.records@.len()
                &&& c.records@[m as int].status != Status::Deleted
            },
{
    lemma_run_member_ok(c, skip);
}

/// Law (exclusion of `Discarded`): no materialized record is `Discarded`,
/// so none can appear in any query result, as any center, or as any
/// member — `Discarded` records are dropped at ingestion.
pub proof fn lemma_discarded_never_materialized(c: Corpus, skip: usize)
    requires
        corpus_wf(c),
    ensures
        forall|k: int|
            0 <= k < c.records@.len() ==> (#[trigger] c.records@[k]).status != Status::Discarded,
{
}

/// Law (adjacency suppression): two records whose identifiers differ by
/// exactly 1 never match each other — no emitted group pairs a member
/// with a center whose `id` is adjacent to its own.
pub proof fn lemma_adjacency_suppressed(c: Corpus, skip: usize)
    requires
        corpus_wf(c),
        c.records@.len() <= usize::MAX,
    ensures
        forall|i: int, j: int|
            0 <= i < spec_run(c, skip).len() && 0 <= j < spec_run(c, skip)[i].1.len() ==> {
                let ctr = spec_run(c, skip)[i].0;
                let m = #[trigger] spec_run(c, skip)[i].1[j];
                !adjacent_ids(c.records@[ctr as int].id, c.records@[m as int].id)
            },
{
    lemma_run_member_ok(c, skip);
}

/// Law (self-exclusion at run level): no emitted group lists its own
/// center among its members.
pub proof fn lemma_center_not_member(c: Corpus, skip: usize)
    requires
        corpus_wf(c),
        c.records@.len() <= usize::MAX,
    ensures
        forall|i: int, j: int|
            0 <= i < spec_run(c, skip).len() && 0 <= j < spec_run(c, skip)[i].1.len() ==> (
            #[trigger] spec_run(c, skip)[i].1[j]) != spec_run(c, skip)[i].0,
{
    lemma_run_member_ok(c, skip);
}

/// Taking one more element of a sequence adds exactly that element to
/// the set of its members.
proof fn lemma_take_push_to_set(s: Seq<usize>, i: int)
    requires
        0 <= i < s.len(),
    ensures
        s.take(i + 1).to_set() =~= s.take(i).to_set().insert(s[i]),
{
    let t1 = s.take(i + 1);
    let t0 = s.take(i);
    assert forall|x: usize| t1.contains(x) implies (t0.contains(x) || x == s[i]) by {
        let j = choose|j: int| 0 <= j < t1.len() && t1[j] == x;
        if j < i {
            assert(t0[j] == x);
        }
    }
    assert forall|x: usize| t0.contains(x) implies t1.contains(x) by {
        let j = choose|j: int| 0 <= j < t0.len() && t0[j] == x;
        assert(t1[j] == x);
    }
    assert(t1[i] == s[i]);
}

} // verus!
