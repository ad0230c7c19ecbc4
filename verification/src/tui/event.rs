//! Outcome of one key press in the onboarding selector.
use vstd::prelude::*;

verus! {

/// What the onboarding loop does after a key press.
#[derive(Debug, Clone, Copy, PartialEq, Eq, Structural)]
pub enum Action {
    Continue,
    Finalize,
    Quit,
}

} // verus!
