use vstd::prelude::*;

use crate::lanes::AxisLanes;
use crate::par::ParallelProducer;

verus! {

/// A sequence of splits applied to a producer: a leaf is drained as it
/// stands; a node splits at its index and goes on in each half.
pub enum SplitTree {
    Leaf,
    Node(usize, Box<SplitTree>, Box<SplitTree>),
}

/// Every split of `t`, applied to `n` lanes, is at an index within range.
pub open spec fn valid_splits(n: nat, t: SplitTree) -> bool
    decreases t,
{
    match t {
        SplitTree::Leaf => true,
        SplitTree::Node(i, l, r) => i <= n && valid_splits(i as nat, *l) && valid_splits(
            (n - i) as nat,
            *r,
        ),
    }
}

/// The lanes yielded by splitting lanes `v` as `t` says, each split keeping
/// the first `i` lanes on the left and the rest on the right, then draining
/// the leaves from left to right.
pub open spec fn drain_leaves(v: Seq<usize>, t: SplitTree) -> Seq<usize>
    decreases t,
{
    match t {
        SplitTree::Leaf => v,
        SplitTree::Node(i, l, r) => drain_leaves(v.take(i as int), *l) + drain_leaves(
            v.skip(i as int),
            *r,
        ),
    }
}

/// Order is kept: whatever the splits, draining the leaf producers left to
/// right yields the same lanes, in the same order, as draining the producer
/// without splitting it.
pub proof fn lemma_order_preserved(v: Seq<usize>, t: SplitTree)
    requires
        valid_splits(v.len(), t),
    ensures
        drain_leaves(v, t) == v,
    decreases t,
{
    match t {
        SplitTree::Leaf => {},
        SplitTree::Node(i, l, r) => {
            lemma_order_preserved(v.take(i as int), *l);
            lemma_order_preserved(v.skip(i as int), *r);
            assert(v.take(i as int) + v.skip(i as int) =~= v);
        },
    }
}

/// A split at `i` partitions the producer: the left part has the first `i`
/// lanes, the right part the other `n - i`; each lane is in exactly one of
/// them.
pub proof fn lemma_partition_complete(p: ParallelProducer<AxisLanes>, i: usize)
    requires
        p.inner().wf(),
        i <= p.inner()@.len(),
    ensures
        ({
            let v = p.inner()@;
            let left = v.take(i as int);
            let right = v.skip(i as int);
            &&& left.len() == i
            &&& right.len() == v.len() - i
            &&& forall|k: int| 0 <= k < i ==> left[k] == v[k]
            &&& forall|k: int| 0 <= k < v.len() - i ==> right[k] == v[i + k]
            &&& forall|x: usize| v.contains(x) <==> (left.contains(x) || right.contains(x))
            &&& forall|x: usize| !(left.contains(x) && right.contains(x))
        }),
{
    let v = p.inner()@;
    let left = v.take(i as int);
    let right = v.skip(i as int);
    p.inner().lemma_view_ascending();
    assert(v =~= left + right);
    assert forall|x: usize| v.contains(x) implies (left.contains(x) || right.contains(x)) by {
        let k = choose|k: int| 0 <= k < v.len() && v[k] == x;
        if k < i {
            assert(left[k] == x);
        } else {
            assert(right[k - i] == x);
        }
    }
    assert forall|x: usize| (left.contains(x) || right.contains(x)) implies v.contains(x) by {
        if left.contains(x) {
            let k = choose|k: int| 0 <= k < left.len() && left[k] == x;
            assert(v[k] == x);
        } else {
            let k = choose|k: int| 0 <= k < right.len() && right[k] == x;
            assert(v[i + k] == x);
        }
    }
    assert forall|x: usize| !(left.contains(x) && right.contains(x)) by {
        if left.contains(x) && right.contains(x) {
            let a = choose|a: int| 0 <= a < left.len() && left[a] == x;
            let b = choose|b: int| 0 <= b < right.len() && right[b] == x;
            assert(v[a] < v[i + b]);
        }
    }
}

/// After a split the two halves reach disjoint lanes: every lane of the left
/// half lies strictly before every lane of the right half along the axis, so
/// no lane, and no element in it, can be reached through both.
pub proof fn lemma_split_disjoint(p: ParallelProducer<AxisLanes>, i: usize)
    requires
        p.inner().wf(),
        i <= p.inner()@.len(),
    ensures
        forall|a: int, b: int|
            0 <= a < i && 0 <= b < p.inner()@.len() - i ==> #[trigger] p.inner()@.take(
                i as int,
            )[a] < #[trigger] p.inner()@.skip(i as int)[b],
{
    p.inner().lemma_view_ascending();
    let v = p.inner()@;
    assert forall|a: int, b: int|
        0 <= a < i && 0 <= b < v.len() - i implies #[trigger] v.take(i as int)[a]
        < #[trigger] v.skip(i as int)[b] by {
        assert(v[a] < v[i + b]);
    }
}

} // verus!
