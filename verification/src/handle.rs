//! Application-facing handles to owned entities.
//!
//! An action handle is an index into the owning set's arena, handed out at
//! creation.  Single ownership stays with the arena, so a stale or foreign
//! handle can be rejected by bounds rather than corrupting memory.

use vstd::prelude::*;

verus! {

/// A handle to an action: the index of the action in the arena of the
/// `ActionSet` that created it.
#[derive(Copy, Clone, PartialEq, Eq, Hash, Debug, Structural)]
pub struct Handle {
    pub idx: usize,
}

} // verus!
