//! The five structural edits a gene's marker sequence can undergo.
//!
//! A `Mutation` value records one edit together with the slots it touches,
//! so that what an edit did to a sequence can be stated exactly:
//! `mutation_applies` relates the sequence before, the sequence after, and
//! the edit.

use vstd::prelude::*;

use crate::marker::Marker;

verus! {

/// One structural edit of a gene's marker sequence. Slot 0 is the influence
/// slot; the edits that pick a second slot keep it out of that choice.
#[derive(Clone, Copy, Debug, PartialEq, Eq, Structural)]
pub enum Mutation {
    /// Sets the marker at `target` to the zero value.
    Delete { target: usize },
    /// Copies the value at `target` into `dup_target`, a non-influence slot;
    /// a no-op when the two coincide.
    Duplication { target: usize, dup_target: usize },
    /// Replaces the marker at `target` with a freshly supplied value.
    New { target: usize, bits: u32 },
    /// Swaps the values at `target` and `swap_target`, a non-influence slot;
    /// a no-op when the two coincide.
    Reversal { target: usize, swap_target: usize },
    /// Reorders the whole marker sequence, influence slot included.
    Shift,
}

/// Whether an edit's slots lie inside a sequence of the given length.
pub open spec fn mutation_in_range(m: Mutation, len: nat) -> bool {
    match m {
        Mutation::Delete { target } => target < len,
        Mutation::Duplication { target, dup_target } => target < len && 1 <= dup_target < len,
        Mutation::New { target, bits } => target < len,
        Mutation::Reversal { target, swap_target } => target < len && 1 <= swap_target < len,
        Mutation::Shift => true,
    }
}

/// Whether `after` is exactly what the edit `m` makes of `before`: one slot
/// zeroed, one value copied, one value replaced, two values swapped, or the
/// whole sequence reordered with every marker kept.
pub open spec fn mutation_applies(before: Seq<Marker>, after: Seq<Marker>, m: Mutation) -> bool {
    &&& after.len() == before.len()
    &&& match m {
        Mutation::Delete { target } => after == before.update(
            target as int,
            Marker { bits: 0 },
        ),
        Mutation::Duplication { target, dup_target } => after == before.update(
            dup_target as int,
            before[target as int],
        ),
        Mutation::New { target, bits } => after == before.update(
            target as int,
            Marker { bits },
        ),
        Mutation::Reversal { target, swap_target } => after == before.update(
            swap_target as int,
            before[target as int],
        ).update(target as int, before[swap_target as int]),
        Mutation::Shift => after.to_multiset() == before.to_multiset(),
    }
}

} // verus!
