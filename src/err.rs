use vstd::prelude::*;

verus! {

/// Why a move was rejected. The board is left unchanged in both cases.
#[derive(Debug, Clone, Copy, PartialEq, Eq, Structural)]
pub enum Error {
    /// The chosen cell already holds a mark.
    AlreadyPopulated,
    /// Nobody is on turn: the game has ended.
    NoActiveTurn,
}

pub type Result<T> = core::result::Result<T, Error>;

} // verus!
