//! Small facts about sequences that several rules lean on.
use vstd::prelude::*;

verus! {

/// The place of the first element that satisfies `p`, if any.
pub open spec fn first_index<T>(s: Seq<T>, p: spec_fn(T) -> bool) -> Option<int>
    decreases s.len(),
{
    if s.len() == 0 {
        None
    } else if p(s[0]) {
        Some(0)
    } else {
        match first_index(s.drop_first(), p) {
            Some(k) => Some(k + 1),
            None => None,
        }
    }
}

/// The first place found by a scan from the front is what `first_index` names.
pub proof fn lemma_first_index_found<T>(s: Seq<T>, p: spec_fn(T) -> bool, i: int)
    requires
        0 <= i < s.len(),
        p(s[i]),
        forall|j: int| 0 <= j < i ==> !p(#[trigger] s[j]),
    ensures
        first_index(s, p) == Some(i),
    decreases i,
{
    if i > 0 {
        assert(!p(s[0]));
        let t = s.drop_first();
        assert forall|j: int| 0 <= j < i - 1 implies !p(#[trigger] t[j]) by {
            assert(t[j] == s[j + 1]);
        }
        lemma_first_index_found(t, p, i - 1);
    }
}

/// With no element satisfying `p`, there is no first one.
pub proof fn lemma_first_index_none<T>(s: Seq<T>, p: spec_fn(T) -> bool)
    requires
        forall|j: int| 0 <= j < s.len() ==> !p(#[trigger] s[j]),
    ensures
        first_index(s, p) is None,
    decreases s.len(),
{
    if s.len() > 0 {
        let t = s.drop_first();
        assert forall|j: int| 0 <= j < t.len() implies !p(#[trigger] t[j]) by {
            assert(t[j] == s[j + 1]);
        }
        lemma_first_index_none(t, p);
    }
}

/// What `first_index` names does satisfy `p`, and nothing before it does.
pub proof fn lemma_first_index_spec<T>(s: Seq<T>, p: spec_fn(T) -> bool)
    ensures
        first_index(s, p) matches Some(i) ==> 0 <= i < s.len() && p(s[i]) && forall|j: int|
            0 <= j < i ==> !p(#[trigger] s[j]),
        first_index(s, p) is None ==> forall|j: int| 0 <= j < s.len() ==> !p(#[trigger] s[j]),
    decreases s.len(),
{
    if s.len() > 0 && !p(s[0]) {
        let t = s.drop_first();
        lemma_first_index_spec(t, p);
        assert forall|j: int| 1 <= j < s.len() implies #[trigger] s[j] == t[j - 1] by {}
    }
}

/// The elements that satisfy `p`, in order.
pub open spec fn keep<T>(s: Seq<T>, p: spec_fn(T) -> bool) -> Seq<T>
    decreases s.len(),
{
    if s.len() == 0 {
        seq![]
    } else {
        let k = keep(s.drop_last(), p);
        if p(s.last()) {
            k.push(s.last())
        } else {
            k
        }
    }
}

/// An element is kept exactly when it is there and satisfies `p`.
pub proof fn lemma_keep<T>(s: Seq<T>, p: spec_fn(T) -> bool)
    ensures
        forall|x: T| #[trigger] keep(s, p).contains(x) <==> (s.contains(x) && p(x)),
        keep(s, p).len() <= s.len(),
    decreases s.len(),
{
    if s.len() > 0 {
        let d = s.drop_last();
        lemma_keep(d, p);
        let k = keep(d, p);
        assert forall|x: T| #[trigger] keep(s, p).contains(x) <==> (s.contains(x) && p(x)) by {
            if keep(s, p).contains(x) {
                if p(s.last()) {
                    let i = choose|i: int| 0 <= i < keep(s, p).len() && keep(s, p)[i] == x;
                    if i < k.len() {
                        assert(k[i] == x);
                        assert(k.contains(x));
                        let j = choose|j: int| 0 <= j < d.len() && d[j] == x;
                        assert(s[j] == x);
                    } else {
                        assert(s[s.len() - 1] == x);
                    }
                } else {
                    assert(k.contains(x));
                    let j = choose|j: int| 0 <= j < d.len() && d[j] == x;
                    assert(s[j] == x);
                }
            }
            if s.contains(x) && p(x) {
                let j = choose|j: int| 0 <= j < s.len() && s[j] == x;
                if j < s.len() - 1 {
                    assert(d[j] == x);
                    assert(d.contains(x));
                    assert(k.contains(x));
                    let i = choose|i: int| 0 <= i < k.len() && k[i] == x;
                    assert(keep(s, p)[i] == x);
                } else {
                    assert(keep(s, p)[keep(s, p).len() - 1] == x);
                }
            }
        }
    }
}

} // verus!
