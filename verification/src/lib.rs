/*!
A draining operation on `Vec` that stops at the first element failing a
predicate.

`drain_while` removes the longest prefix of a vector whose elements all
satisfy a caller-supplied predicate and hands the removed elements back
through a [`DrainWhile`] value, which yields them one at a time in their
original order. The elements after that prefix keep their relative order
and stay in the vector.

The canonical strategy here is the eager scan: the prefix is determined
first, testing each element at most once (at most one more call than the
number of matching elements), and the whole prefix is removed from the
vector before `drain_while` returns. The removal therefore does not depend
on how much of the returned [`DrainWhile`] is consumed: dropping it early,
or never pulling an element, changes nothing about the vector.
*/
use vstd::prelude::*;

pub mod laws;

verus! {

/// Holds of one possible outcome of a drain at cut point `end`: every
/// element before `end` was accepted by a call of `pred`, the element at
/// `end` (if any) was rejected by a call of `pred`, `produced` is the
/// prefix up to `end` and `remaining` the rest.
pub open spec fn drained_at<T, P: Fn(&T) -> bool>(
    pred: P,
    orig: Seq<T>,
    produced: Seq<T>,
    remaining: Seq<T>,
    end: int,
) -> bool {
    &&& 0 <= end <= orig.len()
    &&& forall|i: int| #![trigger orig[i]] 0 <= i < end ==> call_ensures(pred, (&orig[i],), true)
    &&& end < orig.len() ==> call_ensures(pred, (&orig[end],), false)
    &&& produced == orig.subrange(0, end)
    &&& remaining == orig.subrange(end, orig.len() as int)
}

/// What `drain_while` guarantees: some cut point `end` marks the longest
/// prefix the predicate accepted, the produced elements are exactly that
/// prefix in order, and the vector keeps exactly the rest in order.
pub open spec fn drain_while_post<T, P: Fn(&T) -> bool>(
    pred: P,
    orig: Seq<T>,
    produced: Seq<T>,
    remaining: Seq<T>,
) -> bool {
    exists|end: int| drained_at(pred, orig, produced, remaining, end)
}

/// The elements removed by [`DrainWhileable::drain_while`], pulled one at a
/// time in their original order via [`DrainWhile::next`].
///
/// The matched prefix is already removed from the vector when this value is
/// created, so consuming it partially, or not at all, leaves the vector in
/// the same state as consuming it fully.
pub struct DrainWhile<T> {
    elems: Vec<T>,
}

impl<T> View for DrainWhile<T> {
    type V = Seq<T>;

    closed spec fn view(&self) -> Seq<T> {
        self.elems@
    }
}

impl<T> DrainWhile<T> {
    /// Yields the next removed element, front to back, or `None` once all
    /// removed elements have been handed out.
    pub fn next(&mut self) -> (r: Option<T>)
        ensures
            old(self)@.len() == 0 ==> r is None && final(self)@ == old(self)@,
            old(self)@.len() > 0 ==> r == Some(old(self)@[0]) && final(self)@ == old(self)@.skip(
                1,
            ),
    {
        if self.elems.is_empty() {
            None
        } else {
            let x = self.elems.remove(0);
            proof {
                assert(self.elems@ =~= old(self).elems@.skip(1));
            }
            Some(x)
        }
    }
}

/// Extends a sequence type with [`drain_while`](DrainWhileable::drain_while).
pub trait DrainWhileable<T>: View<V = Seq<T>> {
    /// Removes the longest prefix whose elements all satisfy `pred` and
    /// returns it as a [`DrainWhile`], leaving the rest in place.
    ///
    /// Scans left to right, testing each element at most once, and stops at
    /// the first element a call of `pred` rejects (so after the prefix, at
    /// most one further element is tested). The prefix is removed before
    /// this returns, however much of the result is later consumed.
    fn drain_while<P: Fn(&T) -> bool>(&mut self, pred: P) -> (r: DrainWhile<T>)
        requires
            forall|i: int|
                #![trigger old(self)@[i]]
                0 <= i < old(self)@.len() ==> call_requires(pred, (&old(self)@[i],)),
        ensures
            drain_while_post(pred, old(self)@, r@, final(self)@),
    ;
}

impl<T> DrainWhileable<T> for Vec<T> {
    fn drain_while<P: Fn(&T) -> bool>(&mut self, pred: P) -> (r: DrainWhile<T>) {
        let ghost orig: Seq<T> = self@;
        // Find the cut point: the first index whose element the predicate
        // rejects, or the length if it accepts them all.
        let mut end: usize = 0;
        loop
            invariant
                end <= orig.len(),
                self@ == orig,
                forall|i: int|
                    #![trigger orig[i]]
                    0 <= i < orig.len() ==> call_requires(pred, (&orig[i],)),
                forall|i: int|
                    #![trigger orig[i]]
                    0 <= i < end ==> call_ensures(pred, (&orig[i],), true),
            ensures
                end <= orig.len(),
                self@ == orig,
                forall|i: int|
                    #![trigger orig[i]]
                    0 <= i < end ==> call_ensures(pred, (&orig[i],), true),
                end < orig.len() ==> call_ensures(pred, (&orig[end as int],), false),
            decreases orig.len() - end,
        {
            if end >= self.len() {
                break;
            }
            if !pred(&self[end]) {
                break;
            }
            end = end + 1;
        }
        // Move the prefix out, front to back; each removal shifts the tail
        // down, so the vector ends up holding exactly the rest.
        let mut taken: Vec<T> = Vec::new();
        let mut k: usize = 0;
        while k < end
            invariant
                k <= end <= orig.len(),
                taken@ == orig.subrange(0, k as int),
                self@ == orig.subrange(k as int, orig.len() as int),
            decreases end - k,
        {
            let x = self.remove(0);
            taken.push(x);
            k = k + 1;
            proof {
                assert(taken@ =~= orig.subrange(0, k as int));
                assert(self@ =~= orig.subrange(k as int, orig.len() as int));
            }
        }
        proof {
            assert(drained_at(pred, orig, taken@, self@, end as int));
        }
        DrainWhile { elems: taken }
    }
}

} // verus!
