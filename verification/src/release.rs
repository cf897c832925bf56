//! The verdict of the packaged release self-check.

use vstd::prelude::*;

verus! {

/// What the release self-check established: where its scratch graph was
/// written, how much of the packaged legacy graph it imported, and the
/// revision after its move, undo and redo.
#[derive(Clone, Debug, PartialEq, Eq)]
pub struct ReleaseCheck {
    pub database: String,
    pub imported_events: usize,
    pub imported_bridges: usize,
    pub final_revision: u64,
}

/// One requirement of the self-check: met, or failed with `message`.
pub fn ensure(condition: bool, message: &'static str) -> (r: Result<(), String>)
    ensures
        condition ==> r is Ok,
        !condition ==> (r matches Err(m) && m@ == message@),
{
    if condition {
        Ok(())
    } else {
        Err(message.to_owned())
    }
}

} // verus!
