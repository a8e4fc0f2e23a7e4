//! Laws relating the outcome of a drain to the longest matching prefix.
use vstd::prelude::*;

verus! {

use crate::drain_while_post;
use crate::drained_at;

/// `end` is the length of the longest prefix of `s` whose elements all
/// satisfy `p`: everything before `end` satisfies `p`, and the element at
/// `end`, if there is one, does not.
pub open spec fn longest_prefix_ends_at<T>(s: Seq<T>, p: spec_fn(T) -> bool, end: int) -> bool {
    &&& 0 <= end <= s.len()
    &&& forall|i: int| 0 <= i < end ==> p(#[trigger] s[i])
    &&& end < s.len() ==> !p(s[end])
}

/// The executable predicate `pred` decides the spec predicate `p`: any
/// value a call of `pred` can return is the value of `p` on the argument.
pub open spec fn decides<T, P: Fn(&T) -> bool>(pred: P, p: spec_fn(T) -> bool) -> bool {
    forall|x: T, b: bool| #[trigger] call_ensures(pred, (&x,), b) ==> b == p(x)
}

/// A sequence has only one longest matching prefix.
pub proof fn lemma_prefix_end_unique<T>(s: Seq<T>, p: spec_fn(T) -> bool, e1: int, e2: int)
    requires
        longest_prefix_ends_at(s, p, e1),
        longest_prefix_ends_at(s, p, e2),
    ensures
        e1 == e2,
{
    if e1 < e2 {
        assert(p(s[e1]));
    }
    if e2 < e1 {
        assert(p(s[e2]));
    }
}

/// Law: a drain never loses, duplicates or reorders elements — the produced
/// prefix followed by what remains is the original sequence, whatever the
/// predicate did.
pub proof fn lemma_drain_while_splits<T, P: Fn(&T) -> bool>(
    pred: P,
    orig: Seq<T>,
    produced: Seq<T>,
    remaining: Seq<T>,
)
    requires
        drain_while_post(pred, orig, produced, remaining),
    ensures
        produced + remaining == orig,
        produced.len() + remaining.len() == orig.len(),
        produced == orig.subrange(0, produced.len() as int),
        remaining == orig.subrange(produced.len() as int, orig.len() as int),
{
    let w = choose|e: int| drained_at(pred, orig, produced, remaining, e);
    assert(produced + remaining =~= orig);
}

/// Law: when the predicate decides `p`, a drain splits the sequence exactly
/// at the longest `p`-satisfying prefix — the produced elements are that
/// prefix in original order, and the sequence keeps the rest in original
/// order.
pub proof fn lemma_drain_while_exact<T, P: Fn(&T) -> bool>(
    pred: P,
    p: spec_fn(T) -> bool,
    orig: Seq<T>,
    produced: Seq<T>,
    remaining: Seq<T>,
    end: int,
)
    requires
        drain_while_post(pred, orig, produced, remaining),
        decides(pred, p),
        longest_prefix_ends_at(orig, p, end),
    ensures
        produced == orig.subrange(0, end),
        remaining == orig.subrange(end, orig.len() as int),
{
    let w = choose|e: int| drained_at(pred, orig, produced, remaining, e);
    assert forall|i: int| 0 <= i < w implies p(#[trigger] orig[i]) by {
        assert(call_ensures(pred, (&orig[i],), true));
    }
    assert(longest_prefix_ends_at(orig, p, w));
    lemma_prefix_end_unique(orig, p, w, end);
}

/// Law: on an empty sequence, or one whose first element no call of the
/// predicate can accept, a drain produces nothing and leaves the sequence
/// unchanged.
pub proof fn lemma_drain_while_no_match<T, P: Fn(&T) -> bool>(
    pred: P,
    orig: Seq<T>,
    produced: Seq<T>,
    remaining: Seq<T>,
)
    requires
        drain_while_post(pred, orig, produced, remaining),
        orig.len() > 0 ==> !call_ensures(pred, (&orig[0],), true),
    ensures
        produced == Seq::<T>::empty(),
        remaining == orig,
{
    let w = choose|e: int| drained_at(pred, orig, produced, remaining, e);
    assert(w == 0);
    assert(produced =~= Seq::<T>::empty());
    assert(remaining =~= orig);
}

/// Law: when no call of the predicate can reject an element, a drain
/// produces the whole sequence in order and leaves it empty.
pub proof fn lemma_drain_while_full_match<T, P: Fn(&T) -> bool>(
    pred: P,
    orig: Seq<T>,
    produced: Seq<T>,
    remaining: Seq<T>,
)
    requires
        drain_while_post(pred, orig, produced, remaining),
        forall|x: T| !call_ensures(pred, (&x,), false),
    ensures
        produced == orig,
        remaining == Seq::<T>::empty(),
{
    let w = choose|e: int| drained_at(pred, orig, produced, remaining, e);
    assert(!call_ensures(pred, (&orig[w],), false));
    assert(w == orig.len());
    assert(produced =~= orig);
    assert(remaining =~= Seq::<T>::empty());
}

/// Law: when the predicate rejects some element before the end, the
/// unmatched suffix stays, headed by the first rejected element — unlike
/// draining the whole sequence and keeping the matching prefix of the
/// drained elements, which would leave the sequence empty.
pub proof fn lemma_drain_while_keeps_suffix<T, P: Fn(&T) -> bool>(
    pred: P,
    p: spec_fn(T) -> bool,
    orig: Seq<T>,
    produced: Seq<T>,
    remaining: Seq<T>,
    end: int,
)
    requires
        drain_while_post(pred, orig, produced, remaining),
        decides(pred, p),
        longest_prefix_ends_at(orig, p, end),
        end < orig.len(),
    ensures
        remaining.len() > 0,
        remaining[0] == orig[end],
        !p(remaining[0]),
        remaining != Seq::<T>::empty(),
{
    lemma_drain_while_exact(pred, p, orig, produced, remaining, end);
    assert(remaining.len() == orig.len() - end);
}

} // verus!
