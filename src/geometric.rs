use vstd::prelude::*;

use crate::permute::{is_rearrangement, swap_at};

verus! {

/// `s` in the opposite order.
pub open spec fn reversed<T>(s: Seq<T>) -> Seq<T> {
    Seq::new(s.len(), |k: int| s[s.len() - 1 - k])
}

/// `s` with its first `amount` elements, taken modulo its length, moved to
/// the end; an empty `s` stays as it is.
pub open spec fn rotated_left<T>(s: Seq<T>, amount: nat) -> Seq<T> {
    if s.len() == 0 {
        s
    } else {
        let a = (amount % s.len()) as int;
        s.subrange(a, s.len() as int) + s.subrange(0, a)
    }
}

/// `s` cut into a first run of a quarter of its length plus the remainder,
/// then three runs of a quarter each, with the last run moved in front of the
/// two middle ones.
pub open spec fn middle_removed<T>(s: Seq<T>) -> Seq<T> {
    let n = s.len() as int;
    let q = n / 4;
    let r = n % 4;
    s.subrange(0, q + r) + s.subrange(3 * q + r, n) + s.subrange(q + r, 2 * q + r) + s.subrange(
        2 * q + r,
        3 * q + r,
    )
}

/// `s` with the positions `lo .. hi` in the opposite order.
pub open spec fn range_reversed<T>(s: Seq<T>, lo: int, hi: int) -> Seq<T> {
    Seq::new(
        s.len(),
        |k: int|
            if lo <= k < hi {
                s[lo + hi - 1 - k]
            } else {
                s[k]
            },
    )
}

/// `s` with the runs of `len` elements at `a` and at `b` exchanged.
pub open spec fn ranges_exchanged<T>(s: Seq<T>, a: int, b: int, len: int) -> Seq<T> {
    Seq::new(
        s.len(),
        |k: int|
            if a <= k < a + len {
                s[k - a + b]
            } else if b <= k < b + len {
                s[k - b + a]
            } else {
                s[k]
            },
    )
}

/// Reversing a sequence twice gives it back unchanged.
pub proof fn lemma_reverse_involution<T>(s: Seq<T>)
    ensures
        reversed(reversed(s)) == s,
{
    assert(reversed(reversed(s)) =~= s);
}

/// Rotating by the full length leaves a sequence unchanged.
pub proof fn lemma_put_back_full_length<T>(s: Seq<T>)
    ensures
        rotated_left(s, s.len()) == s,
{
    if s.len() > 0 {
        assert(rotated_left(s, s.len()) =~= s);
    }
}

/// Rotating by `amount` and then by the length less `amount` modulo the
/// length gives the sequence back unchanged.
pub proof fn lemma_put_back_undone<T>(s: Seq<T>, amount: nat)
    ensures
        rotated_left(rotated_left(s, amount), (s.len() - amount % s.len()) as nat) == s,
{
    let n = s.len();
    if n > 0 {
        let a = amount % n;
        let back = (n - a) as nat;
        let once = rotated_left(s, amount);
        if a == 0 {
            assert(back % n == 0) by {
                vstd::arithmetic::div_mod::lemma_mod_self_0(n as int);
            }
        } else {
            assert(back % n == back) by {
                vstd::arithmetic::div_mod::lemma_small_mod(back, n);
            }
        }
        assert(rotated_left(once, back) =~= s);
    }
}

/// Reverses the positions `lo .. hi` of `data` in place.
fn reverse_range<T>(data: &mut [T], lo: usize, hi: usize)
    requires
        lo <= hi <= old(data)@.len(),
    ensures
        final(data)@ == range_reversed(old(data)@, lo as int, hi as int),
        is_rearrangement(old(data)@, final(data)@),
{
    let half = (hi - lo) / 2;
    let mut t: usize = 0;
    while t < half
        invariant
            lo <= hi <= data@.len(),
            data@.len() == old(data)@.len(),
            half == (hi - lo) / 2,
            t <= half,
            forall|k: int|
                0 <= k < data@.len() ==> #[trigger] data@[k] == if (lo <= k < lo + t || hi - t
                    <= k < hi) {
                    old(data)@[lo + hi - 1 - k]
                } else {
                    old(data)@[k]
                },
            is_rearrangement(old(data)@, data@),
        decreases half - t,
    {
        swap_at(data, lo + t, hi - 1 - t);
        t += 1;
    }
    assert(data@ =~= range_reversed(old(data)@, lo as int, hi as int));
}

/// Exchanges, element by element, the runs of `len` positions of `data` that
/// start at `a` and at `b`.
fn swap_ranges<T>(data: &mut [T], a: usize, b: usize, len: usize)
    requires
        a + len <= b,
        b + len <= old(data)@.len(),
    ensures
        final(data)@ == ranges_exchanged(old(data)@, a as int, b as int, len as int),
        is_rearrangement(old(data)@, final(data)@),
{
    let n = data.len();
    let mut t: usize = 0;
    while t < len
        invariant
            a + len <= b,
            b + len <= n,
            n == data@.len(),
            data@.len() == old(data)@.len(),
            t <= len,
            forall|k: int|
                0 <= k < data@.len() ==> #[trigger] data@[k] == if a <= k < a + t {
                    old(data)@[k - a + b]
                } else if b <= k < b + t {
                    old(data)@[k - b + a]
                } else {
                    old(data)@[k]
                },
            is_rearrangement(old(data)@, data@),
        decreases len - t,
    {
        swap_at(data, a + t, b + t);
        t += 1;
    }
    assert(data@ =~= ranges_exchanged(old(data)@, a as int, b as int, len as int));
}

/// Reverses `data` in place: each position `i` of the first half is
/// exchanged with position `len - 1 - i`.
pub fn reverse<T>(data: &mut [T])
    ensures
        final(data)@ == reversed(old(data)@),
        is_rearrangement(old(data)@, final(data)@),
{
    let n = data.len();
    reverse_range(data, 0, n);
    assert(data@ =~= reversed(old(data)@));
}

/// Rotates `data` left by `amount` places, taken modulo its length: the first
/// `amount % len` elements move to the end, both parts keeping their order.
pub fn put_back<T>(data: &mut [T], amount: usize)
    ensures
        final(data)@ == rotated_left(old(data)@, amount as nat),
        is_rearrangement(old(data)@, final(data)@),
{
    let n = data.len();
    if n == 0 {
        return ;
    }
    let a = amount % n;
    reverse_range(data, 0, a);
    reverse_range(data, a, n);
    reverse_range(data, 0, n);
    assert(data@ =~= rotated_left(old(data)@, amount as nat));
}

/// Cuts `data` into a first run of a quarter of its length plus the
/// remainder and three runs of a quarter each, and moves the last run in
/// front of the two middle ones; the first run stays in place.
pub fn remove_middle<T>(data: &mut [T])
    ensures
        final(data)@ == middle_removed(old(data)@),
        is_rearrangement(old(data)@, final(data)@),
{
    let n = data.len();
    let quarter = n / 4;
    let remainder = n - quarter * 4;
    swap_ranges(data, quarter + remainder, quarter * 2 + remainder, quarter);
    swap_ranges(data, quarter + remainder, quarter * 3 + remainder, quarter);
    assert(data@ =~= middle_removed(old(data)@));
}

} // verus!
