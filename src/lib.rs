//! In-place permutations of a slice that model handling a deck of cards:
//! a perfect interleave, a cut, a reversal, a quarter swap and a shuffle
//! driven by drawn indices.
mod geometric;
mod permute;
mod riffle;
mod shuffle;

pub use geometric::{
    lemma_put_back_full_length,
    lemma_put_back_undone,
    lemma_reverse_involution,
    middle_removed,
    put_back,
    remove_middle,
    reverse,
    reversed,
    rotated_left,
};
pub use permute::{is_rearrangement, lemma_swapped_rearranges, swapped};
pub use riffle::{half_up, resolve, riffle, riffle_from, riffled};
pub use shuffle::{random, swapped_in_turn};
