//! Order-preserving selection of the elements of a sequence.

use vstd::prelude::*;

verus! {

/// The elements of `s` that satisfy `p`, in their order.
pub open spec fn keep<T>(s: Seq<T>, p: spec_fn(T) -> bool) -> Seq<T>
    decreases s.len(),
{
    if s.len() == 0 {
        Seq::empty()
    } else {
        let r = keep(s.drop_last(), p);
        if p(s.last()) {
            r.push(s.last())
        } else {
            r
        }
    }
}

/// Appending one element extends the selection by that element when it is kept.
pub proof fn lemma_keep_push<T>(s: Seq<T>, p: spec_fn(T) -> bool, x: T)
    ensures
        keep(s.push(x), p) == (if p(x) { keep(s, p).push(x) } else { keep(s, p) }),
{
    assert(s.push(x).drop_last() =~= s);
}

/// Selecting from the first `i + 1` elements, from the selection of the first `i`.
pub proof fn lemma_keep_take<T>(s: Seq<T>, p: spec_fn(T) -> bool, i: int)
    requires
        0 <= i < s.len(),
    ensures
        keep(s.take(i + 1), p) == (if p(s[i]) { keep(s.take(i), p).push(s[i]) } else { keep(s.take(i), p) }),
{
    assert(s.take(i + 1) =~= s.take(i).push(s[i]));
    lemma_keep_push(s.take(i), p, s[i]);
}

/// Every selected element satisfies `p` and occurs in `s`; an element of `s`
/// that satisfies `p` is selected.
pub proof fn lemma_keep_members<T>(s: Seq<T>, p: spec_fn(T) -> bool)
    ensures
        forall|i: int| 0 <= i < keep(s, p).len() ==> p(#[trigger] keep(s, p)[i]) && s.contains(keep(s, p)[i]),
        forall|x: T| s.contains(x) && p(x) ==> #[trigger] keep(s, p).contains(x),
        keep(s, p).len() <= s.len(),
    decreases s.len(),
{
    if s.len() > 0 {
        let t = s.drop_last();
        lemma_keep_members(t, p);
        let r = keep(t, p);
        let last = s.last();
        assert(s[s.len() - 1] == last);
        assert forall|i: int| 0 <= i < keep(s, p).len() implies p(#[trigger] keep(s, p)[i]) && s.contains(keep(s, p)[i]) by {
            if i < r.len() {
                assert(keep(s, p)[i] == r[i]);
                assert(p(r[i]) && t.contains(r[i]));
                let j = choose|j: int| 0 <= j < t.len() && t[j] == r[i];
                assert(s[j] == t[j]);
            } else {
                assert(p(last));
                assert(keep(s, p)[i] == last);
            }
        }
        assert forall|x: T| s.contains(x) && p(x) implies #[trigger] keep(s, p).contains(x) by {
            let j = choose|j: int| 0 <= j < s.len() && s[j] == x;
            if j < s.len() - 1 {
                assert(t[j] == x);
                assert(t.contains(x));
                assert(r.contains(x));
                let k = choose|k: int| 0 <= k < r.len() && r[k] == x;
                if p(last) {
                    assert(keep(s, p) == r.push(last));
                    assert(keep(s, p)[k] == x);
                } else {
                    assert(keep(s, p) == r);
                }
            } else {
                assert(x == last);
                assert(keep(s, p) == r.push(last));
                assert(keep(s, p)[keep(s, p).len() - 1] == x);
            }
        }
    }
}


/// Selecting from two sequences one after the other is selecting from each.
pub proof fn lemma_keep_concat<T>(a: Seq<T>, b: Seq<T>, p: spec_fn(T) -> bool)
    ensures
        keep(a + b, p) == keep(a, p) + keep(b, p),
    decreases b.len(),
{
    if b.len() == 0 {
        assert(a + b =~= a);
        assert(keep(a, p) + keep(b, p) =~= keep(a, p));
    } else {
        lemma_keep_concat(a, b.drop_last(), p);
        assert((a + b).drop_last() =~= a + b.drop_last());
        assert((a + b).last() == b.last());
        if p(b.last()) {
            assert(keep(a, p) + keep(b, p) =~= (keep(a, p) + keep(b.drop_last(), p)).push(b.last()));
        }
    }
}

/// Nothing is selected from a sequence none of whose elements satisfies `p`.
pub proof fn lemma_keep_none<T>(s: Seq<T>, p: spec_fn(T) -> bool)
    requires
        forall|i: int| 0 <= i < s.len() ==> !p(#[trigger] s[i]),
    ensures
        keep(s, p) == Seq::<T>::empty(),
    decreases s.len(),
{
    if s.len() > 0 {
        assert(s.last() == s[s.len() - 1]);
        lemma_keep_none(s.drop_last(), p);
    }
}

} // verus!
