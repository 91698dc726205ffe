use vstd::prelude::*;

use crate::permute::{is_rearrangement, swap_at, swapped};

verus! {

/// Where logical slot `k` currently lies, given the recorded moves `moved`:
/// a slot that was never recorded has not moved.
pub open spec fn resolve(moved: Map<int, int>, k: int) -> int {
    if moved.dom().contains(k) {
        moved[k]
    } else {
        k
    }
}

/// Half of `n`, rounded up: where the bottom half of the deck begins.
pub open spec fn half_up(n: nat) -> nat {
    n / 2 + n % 2
}

/// The interleave from write position `i` and read position `j` on, with the
/// moves recorded so far in `moved`. Each step sends the element of logical
/// slot `j` to position `i`, then that of slot `middle + j` to `i + 1`, and
/// stops as soon as a slot resolves to a position outside the sequence.
pub open spec fn riffle_from<T>(s: Seq<T>, moved: Map<int, int>, i: int, j: int, middle: int) -> Seq<
    T,
>
    decreases s.len() + 1 - i,
{
    if i >= s.len() {
        s
    } else {
        let a = resolve(moved, j);
        if a >= s.len() {
            s
        } else {
            let s1 = swapped(s, i, a);
            let m1 = moved.insert(i, a);
            let b = resolve(m1, middle + j);
            if b >= s.len() {
                s1
            } else {
                riffle_from(swapped(s1, i + 1, b), m1.insert(i + 1, b), i + 2, j + 1, middle)
            }
        }
    }
}

/// The whole interleave of `s`, starting with no recorded moves.
pub open spec fn riffled<T>(s: Seq<T>) -> Seq<T> {
    riffle_from(s, Map::empty(), 0, 0, half_up(s.len()) as int)
}

/// The record of moves made during one interleave, kept as one slot per
/// position of the sequence; slots that never moved hold their own index.
struct LazyPermutationMap {
    slots: Vec<usize>,
    moved: Ghost<Map<int, int>>,
}

impl LazyPermutationMap {
    spec fn view(&self) -> Map<int, int> {
        self.moved@
    }

    spec fn size(&self) -> nat {
        self.slots@.len()
    }

    spec fn wf(&self) -> bool {
        &&& forall|k: int| #[trigger]
            self.moved@.dom().contains(k) ==> 0 <= k < self.slots@.len() && 0 <= self.moved@[k]
                < self.slots@.len()
        &&& forall|k: int|
            0 <= k < self.slots@.len() ==> #[trigger] self.slots@[k] as int == resolve(
                self.moved@,
                k,
            )
    }

    /// A record over `n` positions in which nothing has moved.
    fn identity(n: usize) -> (r: Self)
        ensures
            r.wf(),
            r.size() == n,
            r.view() == Map::<int, int>::empty(),
    {
        let mut slots: Vec<usize> = Vec::with_capacity(n);
        let mut k: usize = 0;
        while k < n
            invariant
                k <= n,
                slots@.len() == k,
                forall|x: int| 0 <= x < k ==> #[trigger] slots@[x] as int == x,
            decreases n - k,
        {
            slots.push(k);
            k += 1;
        }
        LazyPermutationMap { slots, moved: Ghost(Map::empty()) }
    }

    /// Where logical slot `k` currently lies.
    fn get(&self, k: usize) -> (r: usize)
        requires
            self.wf(),
        ensures
            r as int == resolve(self.view(), k as int),
    {
        if k < self.slots.len() {
            self.slots[k]
        } else {
            k
        }
    }

    /// Records that logical slot `k` now lies at position `at`.
    fn set(&mut self, k: usize, at: usize)
        requires
            old(self).wf(),
            k < old(self).size(),
            at < old(self).size(),
        ensures
            final(self).wf(),
            final(self).size() == old(self).size(),
            final(self).view() == old(self).view().insert(k as int, at as int),
    {
        self.slots.set(k, at);
        self.moved = Ghost(self.moved@.insert(k as int, at as int));
    }
}

/// Interleaves the top half of `data` with its bottom half in place, the
/// bottom half starting at half the length rounded up. The interleave stops
/// early, leaving the rest as the swaps so far left it, where a slot to read
/// lies past the end.
pub fn riffle<T>(data: &mut [T])
    ensures
        final(data)@ == riffled(old(data)@),
        is_rearrangement(old(data)@, final(data)@),
{
    let n = data.len();
    let middle = n / 2 + n % 2;
    let mut lookup = LazyPermutationMap::identity(n);
    let mut i: usize = 0;
    let mut j: usize = 0;
    while i < n
        invariant
            n == data@.len(),
            n == old(data)@.len(),
            middle as int == half_up(n as nat),
            i == 2 * j,
            i <= n,
            lookup.wf(),
            lookup.size() == n,
            riffle_from(data@, lookup.view(), i as int, j as int, middle as int) == riffled(
                old(data)@,
            ),
            is_rearrangement(old(data)@, data@),
        decreases n - i,
    {
        let found = lookup.get(j);
        if found >= n {
            return ;
        }
        swap_at(data, i, found);
        lookup.set(i, found);
        let found = lookup.get(middle + j);
        if found >= n {
            return ;
        }
        swap_at(data, i + 1, found);
        lookup.set(i + 1, found);
        i += 2;
        j += 1;
    }
}

} // verus!
