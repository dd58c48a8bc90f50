use vstd::prelude::*;

use crate::board::{center_of, Board};
use crate::bot::{choose_from, Bot};
use crate::moves::CellKind;
use crate::vec2::Vec2;

verus! {

/// Plays a random empty cell next to a mark.
pub struct SmartRng();

impl SmartRng {
    pub fn new() -> (r: SmartRng) {
        SmartRng()
    }

    /// A random empty cell next to a mark, or the middle cell when there is
    /// none (as on a board without marks).
    pub fn choose_move(&self, board: &Board) -> (r: Vec2)
        requires
            board.wf(),
        ensures
            board.game().contains(r),
            board.game().has_kind(CellKind::Frontier) ==> board.game().is_kind(
                CellKind::Frontier,
                r.x as int,
                r.y as int,
            ) && board.game().cells_of(CellKind::Frontier).contains(r),
            !board.game().has_kind(CellKind::Frontier) ==> r == center_of(
                board.game().width,
                board.game().height,
            ),
    {
        let empty = board.cells_of(CellKind::Frontier);
        proof {
            board.game().lemma_cells_of_nonempty(CellKind::Frontier);
        }
        match choose_from(&empty) {
            Some(p) => {
                proof {
                    board.game().lemma_cells_of_member(CellKind::Frontier, p);
                }
                p
            },
            None => board.center_cell(),
        }
    }
}

impl Bot for SmartRng {
    fn play(&mut self, board: &Board, last: Option<Vec2>) -> (r: Vec2)
        ensures
            board.game().contains(r),
            board.game().has_kind(CellKind::Frontier) ==> board.game().is_kind(
                CellKind::Frontier,
                r.x as int,
                r.y as int,
            ) && board.game().cells_of(CellKind::Frontier).contains(r),
            !board.game().has_kind(CellKind::Frontier) ==> r == center_of(
                board.game().width,
                board.game().height,
            ),
    {
        self.choose_move(board)
    }
}

} // verus!
