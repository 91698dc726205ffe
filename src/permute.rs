use vstd::prelude::*;

verus! {

/// `s` with the elements at positions `a` and `b` exchanged.
pub open spec fn swapped<T>(s: Seq<T>, a: int, b: int) -> Seq<T> {
    Seq::new(
        s.len(),
        |k: int|
            if k == b {
                s[a]
            } else if k == a {
                s[b]
            } else {
                s[k]
            },
    )
}

/// `b` holds exactly the elements of `a`, each as often, in some order.
pub open spec fn is_rearrangement<T>(a: Seq<T>, b: Seq<T>) -> bool {
    &&& a.len() == b.len()
    &&& a.to_multiset() == b.to_multiset()
}

/// An exchange of two positions neither creates nor loses an element.
pub proof fn lemma_swapped_rearranges<T>(s: Seq<T>, a: int, b: int)
    requires
        0 <= a < s.len(),
        0 <= b < s.len(),
    ensures
        is_rearrangement(s, swapped(s, a, b)),
{
    broadcast use
        vstd::seq_lib::to_multiset_update,
        vstd::seq_lib::to_multiset_contains,
        vstd::multiset::group_multiset_axioms,
    ;

    let m = s.to_multiset();
    let s1 = s.update(a, s[b]);
    let m1 = m.insert(s[b]).remove(s[a]);
    assert(m.contains(s[a])) by {
        assert(s.contains(s[a]));
    }
    assert(s1.to_multiset() == m1);
    assert(swapped(s, a, b) =~= s1.update(b, s[a]));
    assert(swapped(s, a, b).to_multiset() == m1.insert(s[a]).remove(s1[b]));
    assert(swapped(s, a, b).to_multiset() =~= m);
}

/// Exchanges the elements at positions `a` and `b` of `data`.
pub(crate) fn swap_at<T>(data: &mut [T], a: usize, b: usize)
    requires
        a < old(data)@.len(),
        b < old(data)@.len(),
    ensures
        final(data)@ == swapped(old(data)@, a as int, b as int),
        is_rearrangement(old(data)@, final(data)@),
{
    proof {
        lemma_swapped_rearranges(data@, a as int, b as int);
    }
    if a == b {
        assert(swapped(data@, a as int, b as int) =~= data@);
        return ;
    }
    let (lo, hi) = if a < b {
        (a, b)
    } else {
        (b, a)
    };
    let (left, right) = data.split_at_mut(hi);
    let (_, at_lo) = left.split_at_mut(lo);
    let x = at_lo.first_mut().unwrap();
    let y = right.first_mut().unwrap();
    std::mem::swap(x, y);
    assert(data@ =~= swapped(old(data)@, a as int, b as int));
}

} // verus!
