//! Intersection of identifier arrays: the elements of one array that
//! also occur in another, keeping the first array's order.

use vstd::prelude::*;

verus! {

/// The elements of `a` that occur in `b`, in the order they stand in `a`.
pub open spec fn intersect_spec(a: Seq<u64>, b: Seq<u64>) -> Seq<u64>
    decreases a.len(),
{
    if a.len() == 0 {
        Seq::empty()
    } else {
        let pre = intersect_spec(a.drop_last(), b);
        if b.contains(a.last()) {
            pre.push(a.last())
        } else {
            pre
        }
    }
}

/// Whether `x` occurs in `v`.
fn contains_u64(v: &Vec<u64>, x: u64) -> (r: bool)
    ensures
        r == v@.contains(x),
{
    let mut i: usize = 0;
    while i < v.len()
        invariant
            0 <= i <= v@.len(),
            forall|j: int| 0 <= j < i ==> v@[j] != x,
        decreases v@.len() - i,
    {
        if v[i] == x {
            return true;
        }
        i = i + 1;
    }
    false
}

/// The identifiers of `id1` that also stand in `id2`, in `id1`'s order.
pub fn and_array(id1: &Vec<u64>, id2: &Vec<u64>) -> (res: Vec<u64>)
    ensures
        res@ == intersect_spec(id1@, id2@),
{
    let mut res: Vec<u64> = Vec::new();
    let mut i: usize = 0;
    proof {
        assert(id1@.take(0) =~= Seq::<u64>::empty());
    }
    while i < id1.len()
        invariant
            0 <= i <= id1@.len(),
            res@ == intersect_spec(id1@.take(i as int), id2@),
        decreases id1@.len() - i,
    {
        let x = id1[i];
        let keep = contains_u64(id2, x);
        proof {
            assert(id1@.take(i + 1).drop_last() == id1@.take(i as int));
            assert(id1@.take(i + 1).last() == id1@[i as int]);
        }
        if keep {
            res.push(x);
        }
        i = i + 1;
    }
    proof {
        assert(id1@.take(id1@.len() as int) == id1@);
    }
    res
}

} // verus!
