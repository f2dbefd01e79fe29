//! First-match search over configuration lists.
use vstd::prelude::*;

verus! {

/// Index of the first element of `s` that satisfies `p`, or -1 when none does.
pub open spec fn first_index<T>(s: Seq<T>, p: spec_fn(T) -> bool) -> int
    decreases s.len(),
{
    if s.len() == 0 {
        -1
    } else if first_index(s.drop_last(), p) >= 0 {
        first_index(s.drop_last(), p)
    } else if p(s.last()) {
        s.len() - 1
    } else {
        -1
    }
}

/// `first_index` is the least index whose element satisfies `p`.
pub proof fn lemma_first_index<T>(s: Seq<T>, p: spec_fn(T) -> bool)
    ensures
        first_index(s, p) == -1 ==> forall|i: int| 0 <= i < s.len() ==> !p(#[trigger] s[i]),
        first_index(s, p) != -1 ==> {
            let f = first_index(s, p);
            &&& 0 <= f < s.len()
            &&& p(s[f])
            &&& forall|i: int| 0 <= i < f ==> !p(#[trigger] s[i])
        },
    decreases s.len(),
{
    if s.len() > 0 {
        let prefix = s.drop_last();
        lemma_first_index(prefix, p);
        assert forall|i: int| 0 <= i < prefix.len() implies s[i] == #[trigger] prefix[i] by {}
        let fp = first_index(prefix, p);
        if fp >= 0 {
            assert forall|i: int| 0 <= i < fp implies !p(#[trigger] s[i]) by {
                assert(s[i] == prefix[i]);
            }
        } else if p(s.last()) {
            assert forall|i: int| 0 <= i < s.len() - 1 implies !p(#[trigger] s[i]) by {
                assert(s[i] == prefix[i]);
            }
        } else {
            assert forall|i: int| 0 <= i < s.len() implies !p(#[trigger] s[i]) by {
                if i < s.len() - 1 {
                    assert(s[i] == prefix[i]);
                }
            }
        }
    }
}

/// The least satisfying index, when known, is `first_index`.
pub proof fn lemma_first_index_is<T>(s: Seq<T>, p: spec_fn(T) -> bool, f: int)
    requires
        f == -1 ==> forall|i: int| 0 <= i < s.len() ==> !p(#[trigger] s[i]),
        f != -1 ==> 0 <= f < s.len() && p(s[f]) && forall|i: int| 0 <= i < f ==> !p(#[trigger] s[i]),
    ensures
        first_index(s, p) == f,
{
    lemma_first_index(s, p);
    let g = first_index(s, p);
    if g != f {
        if g == -1 {
            assert(!p(s[f]));
        } else if f == -1 {
            assert(!p(s[g]));
        } else if g < f {
            assert(!p(s[g]));
        } else {
            assert(!p(s[f]));
        }
    }
}

} // verus!
