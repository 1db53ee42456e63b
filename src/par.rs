use vstd::prelude::*;

use crate::lanes::AxisLanes;

verus! {

/// Parallel iterator wrapper around one sequential, exactly sized and
/// splittable iterator.
pub struct Parallel<I> {
    iter: I,
}

/// Parallel producer wrapper: one contiguous part of the wrapped iterator's
/// range, which a scheduler may split further or drain in order.
pub struct ParallelProducer<I>(I);

impl<I> Parallel<I> {
    /// The wrapped sequential iterator.
    pub closed spec fn inner(&self) -> I {
        self.iter
    }

    /// Wraps a sequential iterator; total, with no error case.
    pub fn from(iter: I) -> (r: Self)
        ensures
            r.inner() == iter,
    {
        Parallel { iter }
    }

    /// Gives back the wrapped sequential iterator.
    pub fn into_inner(self) -> (r: I)
        ensures
            r == self.inner(),
    {
        self.iter
    }
}

impl<I> ParallelProducer<I> {
    /// The wrapped sequential iterator.
    pub closed spec fn inner(&self) -> I {
        self.0
    }

}

impl Parallel<AxisLanes> {
    /// The number of lanes the parallel iterator yields.
    pub fn len(&self) -> (r: usize)
        requires
            self.inner().wf(),
        ensures
            r == self.inner()@.len(),
    {
        self.iter.len()
    }

    /// An upper bound on the number of lanes: the iterator is exactly sized,
    /// so the bound is the exact count.
    pub fn upper_bound(&self) -> (r: usize)
        requires
            self.inner().wf(),
        ensures
            r == self.inner()@.len(),
    {
        self.iter.len()
    }

    /// Hands the wrapped iterator over as a producer of the same lanes, the
    /// one point where the sequential state becomes splittable work.
    pub fn with_producer(self) -> (r: ParallelProducer<AxisLanes>)
        requires
            self.inner().wf(),
        ensures
            r.inner().wf(),
            r.inner()@ == self.inner()@,
    {
        ParallelProducer(self.iter)
    }
}

impl ParallelProducer<AxisLanes> {
    /// Yields the next lane, in order, once the producer is drained sequentially.
    pub fn next(&mut self) -> (r: Option<usize>)
        requires
            old(self).inner().wf(),
        ensures
            final(self).inner().wf(),
            old(self).inner()@.len() == 0 ==> r is None && final(self).inner()@ == old(
                self,
            ).inner()@,
            old(self).inner()@.len() > 0 ==> r == Some(old(self).inner()@[0])
                && final(self).inner()@ == old(self).inner()@.skip(1),
    {
        self.0.next()
    }

    /// The exact number of lanes left, as lower and upper bound.
    pub fn size_hint(&self) -> (r: (usize, Option<usize>))
        requires
            self.inner().wf(),
        ensures
            r.0 == self.inner()@.len(),
            r.1 == Some(r.0),
    {
        let n = self.0.len();
        (n, Some(n))
    }

    /// Scheduling cost of a part of `len` lanes: linear, one unit per lane.
    pub fn cost(&self, len: usize) -> (r: usize)
        ensures
            r == len,
    {
        len
    }

    /// Splits into the next `i` lanes and the rest; the producer is used up.
    pub fn split_at(self, i: usize) -> (r: (Self, Self))
        requires
            self.inner().wf(),
            i <= self.inner()@.len(),
        ensures
            r.0.inner().wf(),
            r.1.inner().wf(),
            r.0.inner()@ == self.inner()@.take(i as int),
            r.1.inner()@ == self.inner()@.skip(i as int),
    {
        let (a, b) = self.0.split_at(i);
        (ParallelProducer(a), ParallelProducer(b))
    }

    /// Drains the producer sequentially, collecting the lanes in the order
    /// they come.
    pub fn drain(self) -> (r: Vec<usize>)
        requires
            self.inner().wf(),
        ensures
            r@ == self.inner()@,
    {
        let mut p = self;
        let mut out: Vec<usize> = Vec::new();
        while p.0.len() > 0
            invariant
                p.inner().wf(),
                out@ + p.inner()@ == self.inner()@,
            decreases p.inner()@.len(),
        {
            let ghost before = p.inner()@;
            let x = p.next();
            match x {
                Some(v) => {
                    out.push(v);
                    assert(out@ + p.inner()@ =~= self.inner()@) by {
                        assert(before =~= seq![v] + before.skip(1));
                    }
                },
                None => {},
            }
        }
        assert(out@ =~= self.inner()@);
        out
    }
}

} // verus!
