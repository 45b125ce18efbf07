use vstd::prelude::*;

verus! {

/// The ways an operation of this library can fail.
#[derive(Clone, Copy, Debug, PartialEq, Eq, Structural)]
pub enum Error {
    /// A file or rank outside `[0, 7]` was given to a coordinate conversion.
    OutOfBounds,
    /// A move that is not legal in the current state was given to `apply`.
    IllegalMove,
    /// `undo` was called on a state whose history is empty or does not match its board.
    CorruptState,
}

} // verus!
