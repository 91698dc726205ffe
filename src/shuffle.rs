use vstd::prelude::*;

use crate::permute::{is_rearrangement, swap_at, swapped};

verus! {

/// `s` after positions `0 .. count` were, in ascending order, each exchanged
/// with the position drawn for it in `draws`.
pub open spec fn swapped_in_turn<T>(s: Seq<T>, draws: Seq<usize>, count: nat) -> Seq<T>
    decreases count,
{
    if count == 0 {
        s
    } else {
        let i = count - 1;
        swapped(swapped_in_turn(s, draws, i as nat), i, draws[i] as int)
    }
}

/// Shuffles `data` in place: each position `i`, in ascending order, is
/// exchanged with position `draws[i]`, a draw from the whole range
/// `0 .. len` of positions.
pub fn random<T>(data: &mut [T], draws: &[usize])
    requires
        draws@.len() == old(data)@.len(),
        forall|k: int| 0 <= k < draws@.len() ==> #[trigger] draws@[k] < old(data)@.len(),
    ensures
        final(data)@ == swapped_in_turn(old(data)@, draws@, old(data)@.len()),
        is_rearrangement(old(data)@, final(data)@),
{
    let n = data.len();
    let mut i: usize = 0;
    while i < n
        invariant
            n == data@.len(),
            n == old(data)@.len(),
            n == draws@.len(),
            forall|k: int| 0 <= k < draws@.len() ==> #[trigger] draws@[k] < n,
            i <= n,
            data@ == swapped_in_turn(old(data)@, draws@, i as nat),
            is_rearrangement(old(data)@, data@),
        decreases n - i,
    {
        swap_at(data, i, draws[i]);
        i += 1;
    }
}

} // verus!
