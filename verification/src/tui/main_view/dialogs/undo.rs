//! Undo confirmation dialog.
use vstd::prelude::*;

verus! {

/// Asks whether to undo the last commit, showing its message.
pub struct UndoState {
    pub message: String,
}

impl UndoState {
    pub fn new(message: String) -> (r: Self)
        ensures
            r.message == message,
    {
        UndoState { message }
    }
}

} // verus!
