use vstd::prelude::*;

use crate::board::{center_of, Board};
use crate::bot::{choose_from, Bot};
use crate::moves::CellKind;
use crate::vec2::Vec2;

verus! {

/// Plays a cell chosen uniformly at random among the empty ones.
pub struct PureRng();

impl PureRng {
    pub fn new() -> (r: PureRng) {
        PureRng()
    }

    /// A random empty cell, or the middle cell when none is empty.
    pub fn choose_move(&self, board: &Board) -> (r: Vec2)
        requires
            board.wf(),
        ensures
            board.game().contains(r),
            board.game().has_kind(CellKind::Empty) ==> board.game().is_kind(
                CellKind::Empty,
                r.x as int,
                r.y as int,
            ) && board.game().cells_of(CellKind::Empty).contains(r),
            !board.game().has_kind(CellKind::Empty) ==> r == center_of(
                board.game().width,
                board.game().height,
            ),
    {
        let empty = board.cells_of(CellKind::Empty);
        proof {
            board.game().lemma_cells_of_nonempty(CellKind::Empty);
        }
        match choose_from(&empty) {
            Some(p) => {
                proof {
                    board.game().lemma_cells_of_member(CellKind::Empty, p);
                }
                p
            },
            None => board.center_cell(),
        }
    }
}

impl Bot for PureRng {
    fn play(&mut self, board: &Board, last: Option<Vec2>) -> (r: Vec2)
        ensures
            board.game().contains(r),
            board.game().has_kind(CellKind::Empty) ==> board.game().is_kind(
                CellKind::Empty,
                r.x as int,
                r.y as int,
            ) && board.game().cells_of(CellKind::Empty).contains(r),
            !board.game().has_kind(CellKind::Empty) ==> r == center_of(
                board.game().width,
                board.game().height,
            ),
    {
        self.choose_move(board)
    }
}

} // verus!
