use vstd::prelude::*;

verus! {

/// The lanes `lo`, `lo + 1`, ..., `hi - 1` of an axis, by their index along it.
pub open spec fn lane_range(lo: int, hi: int) -> Seq<usize> {
    Seq::new(if lo <= hi { (hi - lo) as nat } else { 0 }, |k: int| (lo + k) as usize)
}

/// The position of a sequential axis iterator, held as plain values: the lanes
/// that it has still to yield are those of axis index `index` up to, and not
/// including, `end`.
pub struct AxisLanes {
    index: usize,
    end: usize,
}

impl View for AxisLanes {
    type V = Seq<usize>;

    /// The axis indices of the lanes still to come, in the order they come.
    closed spec fn view(&self) -> Seq<usize> {
        lane_range(self.index as int, self.end as int)
    }
}

impl AxisLanes {
    /// The iterator's position is a range that does not run backwards.
    pub closed spec fn wf(&self) -> bool {
        self.index <= self.end
    }

    /// An iterator over a whole axis of `len` lanes.
    pub fn new(len: usize) -> (r: Self)
        ensures
            r.wf(),
            r@ == Seq::new(len as nat, |k: int| k as usize),
    {
        let r = AxisLanes { index: 0, end: len };
        assert(r@ =~= Seq::new(len as nat, |k: int| k as usize));
        r
    }

    /// The number of lanes still to come.
    pub fn len(&self) -> (r: usize)
        requires
            self.wf(),
        ensures
            r == self@.len(),
    {
        self.end - self.index
    }

    /// Yields the next lane's axis index, or `None` once all are consumed.
    pub fn next(&mut self) -> (r: Option<usize>)
        requires
            old(self).wf(),
        ensures
            final(self).wf(),
            old(self)@.len() == 0 ==> r is None && final(self)@ == old(self)@,
            old(self)@.len() > 0 ==> r == Some(old(self)@[0]) && final(self)@ == old(self)@.skip(1),
    {
        if self.index >= self.end {
            None
        } else {
            let i = self.index;
            self.index = self.index + 1;
            assert(self@ =~= old(self)@.skip(1));
            Some(i)
        }
    }

    /// Splits at `i`: the first part holds the next `i` lanes, the second the rest.
    pub fn split_at(self, i: usize) -> (r: (Self, Self))
        requires
            self.wf(),
            i <= self@.len(),
        ensures
            r.0.wf(),
            r.1.wf(),
            r.0@ == self@.take(i as int),
            r.1@ == self@.skip(i as int),
    {
        let mid = self.index + i;
        let left = AxisLanes { index: self.index, end: mid };
        let right = AxisLanes { index: mid, end: self.end };
        assert(left@ =~= self@.take(i as int));
        assert(right@ =~= self@.skip(i as int));
        (left, right)
    }

    /// The lanes still to come are told apart by their axis index, and run
    /// upward one at a time.
    pub proof fn lemma_view_ascending(&self)
        requires
            self.wf(),
        ensures
            forall|a: int, b: int|
                0 <= a < b < self@.len() ==> #[trigger] self@[a] < #[trigger] self@[b],
            forall|k: int| 0 <= k < self@.len() ==> #[trigger] self@[k] == self@[0] + k,
    {
    }
}

} // verus!
