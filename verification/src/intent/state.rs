use vstd::prelude::*;

verus! {

/// What the user is taken to be doing.
#[derive(Debug, Clone, Copy, PartialEq, Eq, Structural)]
pub enum Intent {
    Coding,
    Debugging,
    Reading,
    Idle,
}

} // verus!
