use vstd::prelude::*;

use crate::board::{center_of, lemma_row_major_in_range, lemma_row_major_injective, row_major, Board, Game};
use crate::moves::CellKind;
use crate::bot::{random_below, Bot};
use crate::suit::Suit;
use crate::vec2::Vec2;

verus! {

/// The cell after (x, y) in scan order, wrapping from the last cell to the
/// first.
pub open spec fn advance(g: Game, x: int, y: int) -> (int, int) {
    if x + 1 < g.width {
        (x + 1, y)
    } else if y + 1 < g.height {
        (0, y + 1)
    } else {
        (0, 0)
    }
}

/// The first empty cell among the `left` cells from (x, y) on in scan
/// order, wrapping around.
pub open spec fn next_empty(g: Game, x: int, y: int, left: int) -> Option<(int, int)>
    decreases left,
{
    if left <= 0 {
        None
    } else if g.cell(x, y) == Suit::Empty {
        Some((x, y))
    } else {
        let (a, b) = advance(g, x, y);
        next_empty(g, a, b, left - 1)
    }
}

/// How many steps of `advance` lead from cell number `i` to cell number
/// `j`, on a board of `n` cells.
pub open spec fn cyclic_distance(i: int, j: int, n: int) -> int {
    if j >= i {
        j - i
    } else {
        j - i + n
    }
}

/// `advance` goes to the next cell number, and from the last to the first.
proof fn lemma_advance(g: Game, x: int, y: int)
    requires
        g.valid(),
        g.in_bounds(x, y),
    ensures
        g.in_bounds(advance(g, x, y).0, advance(g, x, y).1),
        row_major(advance(g, x, y).0, advance(g, x, y).1, g.width) == if row_major(x, y, g.width)
            + 1 < g.width * g.height {
            row_major(x, y, g.width) + 1
        } else {
            0
        },
{
    let w = g.width;
    let h = g.height;
    if x + 1 < w {
        assert(y * w + x + 1 < w * h) by (nonlinear_arith)
            requires
                0 <= x,
                x + 1 < w,
                0 <= y < h,
        ;
    } else if y + 1 < h {
        assert((y + 1) * w == y * w + x + 1 && y * w + x + 1 < w * h) by (nonlinear_arith)
            requires
                x == w - 1,
                0 <= y,
                y + 1 < h,
                w >= 1,
        ;
    } else {
        assert(y * w + x + 1 == w * h) by (nonlinear_arith)
            requires
                x == w - 1,
                y == h - 1,
        ;
        assert(0 * w == 0);
        assert(row_major(0, 0, w) == 0);
    }
}

/// The scan finds only empty cells, and when it finds none, each of the
/// `left` cells it looked at is taken.
pub proof fn lemma_next_empty(g: Game, x: int, y: int, left: int)
    requires
        g.valid(),
        g.in_bounds(x, y),
    ensures
        next_empty(g, x, y, left) matches Some((a, b)) ==> g.in_bounds(a, b) && g.cell(a, b)
            == Suit::Empty,
        next_empty(g, x, y, left) is None ==> forall|a: int, b: int|
            g.in_bounds(a, b) && cyclic_distance(
                row_major(x, y, g.width),
                row_major(a, b, g.width),
                g.width * g.height,
            ) < left ==> #[trigger] g.cell(a, b) != Suit::Empty,
    decreases left,
{
    let n = g.width * g.height;
    let i = row_major(x, y, g.width);
    lemma_row_major_in_range(x, y, g.width, g.height);
    if left <= 0 {
        assert forall|a: int, b: int|
            g.in_bounds(a, b) && cyclic_distance(i, row_major(a, b, g.width), n) < left implies #[trigger] g.cell(
            a,
            b,
        ) != Suit::Empty by {
            lemma_row_major_in_range(a, b, g.width, g.height);
        }
    }
    if left > 0 && g.cell(x, y) != Suit::Empty {
        let (nx, ny) = advance(g, x, y);
        lemma_advance(g, x, y);
        lemma_next_empty(g, nx, ny, left - 1);
        let i2 = row_major(nx, ny, g.width);
        assert forall|a: int, b: int|
            g.in_bounds(a, b) && cyclic_distance(i, row_major(a, b, g.width), n) < left
                && next_empty(g, x, y, left) is None implies #[trigger] g.cell(a, b)
            != Suit::Empty by {
            let j = row_major(a, b, g.width);
            lemma_row_major_in_range(a, b, g.width, g.height);
            if j == i {
                lemma_row_major_injective(a, b, x, y, g.width);
            } else {
                assert(cyclic_distance(i2, j, n) == cyclic_distance(i, j, n) - 1);
            }
        }
    }
}

/// Looking at every cell, the scan finds an empty one when there is one.
pub proof fn lemma_scan_finds_empty(g: Game, x: int, y: int)
    requires
        g.valid(),
        g.in_bounds(x, y),
        g.has_kind(CellKind::Empty),
    ensures
        next_empty(g, x, y, g.width * g.height) is Some,
{
    lemma_next_empty(g, x, y, g.width * g.height);
    let (a, b) = choose|a: int, b: int| g.in_bounds(a, b) && #[trigger] g.is_kind(CellKind::Empty, a, b);
    lemma_row_major_in_range(a, b, g.width, g.height);
    lemma_row_major_in_range(x, y, g.width, g.height);
    assert(g.cell(a, b) == Suit::Empty);
}

/// Plays the first empty cell from a random cell on, in scan order.
pub struct BiasRng();

impl BiasRng {
    /// `r` is what `first_empty_from` gives from `start`.
    pub open spec fn scan_result(g: Game, start: Vec2, r: Vec2) -> bool {
        match next_empty(g, start.x as int, start.y as int, g.width * g.height) {
            Some((a, b)) => r.x == a && r.y == b,
            None => r == center_of(g.width, g.height),
        }
    }

    pub fn new() -> (r: BiasRng) {
        BiasRng()
    }

    /// The first empty cell at or after `start` in scan order, wrapping
    /// around the board; the middle cell when the board is full.
    pub fn first_empty_from(board: &Board, start: Vec2) -> (r: Vec2)
        requires
            board.wf(),
            board.game().contains(start),
        ensures
            board.game().contains(r),
            next_empty(
                board.game(),
                start.x as int,
                start.y as int,
                board.game().width * board.game().height,
            ) matches Some((a, b)) ==> r.x == a && r.y == b,
            next_empty(
                board.game(),
                start.x as int,
                start.y as int,
                board.game().width * board.game().height,
            ) is None ==> r == center_of(board.game().width, board.game().height),
            board.game().has_kind(CellKind::Empty) ==> board.game().is_kind(
                CellKind::Empty,
                r.x as int,
                r.y as int,
            ),
    {
        proof {
            lemma_next_empty(
                board.game(),
                start.x as int,
                start.y as int,
                board.game().width * board.game().height,
            );
            if board.game().has_kind(CellKind::Empty) {
                lemma_scan_finds_empty(board.game(), start.x as int, start.y as int);
            }
        }
        let g = Ghost(board.game());
        let size = board.size();
        let n = size.x * size.y;
        let mut pos = start;
        let mut left = n;
        while left > 0
            invariant
                board.wf(),
                g@ == board.game(),
                size.x == g@.width,
                size.y == g@.height,
                g@.contains(pos),
                n as int == g@.width * g@.height,
                left <= n,
                next_empty(g@, start.x as int, start.y as int, n as int) == next_empty(
                    g@,
                    pos.x as int,
                    pos.y as int,
                    left as int,
                ),
            decreases left,
        {
            if board.at(pos) == Suit::Empty {
                return pos;
            }
            pos = if pos.x + 1 < size.x {
                Vec2::new(pos.x + 1, pos.y)
            } else if pos.y + 1 < size.y {
                Vec2::new(0, pos.y + 1)
            } else {
                Vec2::new(0, 0)
            };
            left -= 1;
        }
        board.center_cell()
    }

    /// The first empty cell from a random cell on (see `first_empty_from`).
    pub fn choose_move(&self, board: &Board) -> (r: Vec2)
        requires
            board.wf(),
        ensures
            board.game().contains(r),
            board.game().has_kind(CellKind::Empty) ==> board.game().is_kind(
                CellKind::Empty,
                r.x as int,
                r.y as int,
            ),
            exists|start: Vec2|
                board.game().contains(start) && #[trigger] Self::scan_result(
                    board.game(),
                    start,
                    r,
                ),
    {
        let size = board.size();
        let start = Vec2::new(random_below(size.x), random_below(size.y));
        let r = Self::first_empty_from(board, start);
        assert(Self::scan_result(board.game(), start, r));
        r
    }
}

impl Bot for BiasRng {
    fn play(&mut self, board: &Board, last: Option<Vec2>) -> (r: Vec2)
        ensures
            board.game().contains(r),
            board.game().has_kind(CellKind::Empty) ==> board.game().is_kind(
                CellKind::Empty,
                r.x as int,
                r.y as int,
            ),
            exists|start: Vec2|
                board.game().contains(start) && #[trigger] Self::scan_result(
                    board.game(),
                    start,
                    r,
                ),
    {
        self.choose_move(board)
    }
}

} // verus!
