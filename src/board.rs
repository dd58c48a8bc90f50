use vstd::prelude::*;

use crate::err::{Error, Result};
use crate::slice_2d::Slice2d;
use crate::suit::Suit;
use crate::vec2::Vec2;

verus! {

/// What decides the course of a game: the cells in row-major order, the
/// dimensions, the number of marks in a row that wins, and who is on turn.
pub ghost struct Game {
    pub cells: Seq<Suit>,
    pub width: int,
    pub height: int,
    pub win_len: int,
    pub turn: Suit,
}

/// Everything a `Board` holds: the game, the cursor, the last move (for a
/// single undo) and the winning line found by the last `check_win`.
pub ghost struct BoardView {
    pub game: Game,
    pub selected: Vec2,
    pub last: Option<Vec2>,
    pub win_pos: Option<(Vec2, Vec2<isize>)>,
}

pub open spec fn max_of(a: int, b: int) -> int {
    if a >= b { a } else { b }
}

/// The default cell: the middle of the board, rounded towards the origin.
pub open spec fn center_of(width: int, height: int) -> Vec2 {
    Vec2 { x: ((width - 1) / 2) as usize, y: ((height - 1) / 2) as usize }
}

pub open spec fn row_major(x: int, y: int, width: int) -> int {
    y * width + x
}

pub proof fn lemma_row_major_in_range(x: int, y: int, w: int, h: int)
    requires
        0 <= x < w,
        0 <= y < h,
    ensures
        0 <= row_major(x, y, w) < w * h,
{
    assert(0 <= y * w + x < w * h) by (nonlinear_arith)
        requires
            0 <= x < w,
            0 <= y < h,
    ;
}

pub proof fn lemma_row_major_injective(x1: int, y1: int, x2: int, y2: int, w: int)
    requires
        0 <= x1 < w,
        0 <= x2 < w,
        0 <= y1,
        0 <= y2,
        row_major(x1, y1, w) == row_major(x2, y2, w),
    ensures
        x1 == x2,
        y1 == y2,
{
    assert(y1 == y2) by (nonlinear_arith)
        requires
            0 <= x1 < w,
            0 <= x2 < w,
            0 <= y1,
            0 <= y2,
            y1 * w + x1 == y2 * w + x2,
    ;
}

impl Game {
    pub open spec fn in_bounds(self, x: int, y: int) -> bool {
        0 <= x < self.width && 0 <= y < self.height
    }

    pub open spec fn contains(self, p: Vec2) -> bool {
        self.in_bounds(p.x as int, p.y as int)
    }

    pub open spec fn cell(self, x: int, y: int) -> Suit {
        self.cells[row_major(x, y, self.width)]
    }

    pub open spec fn at(self, p: Vec2) -> Suit {
        self.cell(p.x as int, p.y as int)
    }

    /// Dimensions and win length as a game needs them, one mark per cell.
    pub open spec fn valid(self) -> bool {
        &&& self.width >= 1
        &&& self.height >= 1
        &&& self.width <= usize::MAX
        &&& self.height <= usize::MAX
        &&& self.width * self.height <= usize::MAX
        &&& self.cells.len() == self.width * self.height
        &&& 1 <= self.win_len <= max_of(self.width, self.height)
    }

    pub open spec fn is_full(self) -> bool {
        forall|x: int, y: int| self.in_bounds(x, y) ==> self.cell(x, y) != Suit::Empty
    }

    /// The same game with `s` in the cell at `p`.
    pub open spec fn with_cell(self, p: Vec2, s: Suit) -> Game {
        Game { cells: self.cells.update(row_major(p.x as int, p.y as int, self.width), s), ..self }
    }

    /// The mark on turn is placed at `p`, and the other player is on turn.
    pub open spec fn played(self, p: Vec2) -> Game {
        Game { turn: self.turn.opposite(), ..self.with_cell(p, self.turn) }
    }

    /// The cell at `p` is emptied and `mover` is on turn again.
    pub open spec fn retracted(self, p: Vec2, mover: Suit) -> Game {
        Game { turn: mover, ..self.with_cell(p, Suit::Empty) }
    }

    /// Writing one cell leaves every other cell as it was.
    pub proof fn lemma_with_cell(self, p: Vec2, s: Suit)
        requires
            self.valid(),
            self.contains(p),
        ensures
            forall|x: int, y: int|
                self.in_bounds(x, y) && (x != p.x || y != p.y) ==> #[trigger] self.with_cell(p, s).cell(x, y)
                    == self.cell(x, y),
            self.with_cell(p, s).at(p) == s,
    {
        let w = self.width;
        let h = self.height;
        lemma_row_major_in_range(p.x as int, p.y as int, w, h);
        assert forall|x: int, y: int|
            self.in_bounds(x, y) && (x != p.x || y != p.y) implies #[trigger] self.with_cell(p, s).cell(x, y)
                == self.cell(x, y) by {
            lemma_row_major_in_range(x, y, w, h);
            if row_major(x, y, w) == row_major(p.x as int, p.y as int, w) {
                lemma_row_major_injective(x, y, p.x as int, p.y as int, w);
            }
        }
    }
}

/// A legal move taken back at once leaves the cells and the player on turn
/// as they were, with no move left to take back. When no earlier move was
/// waiting to be taken back, the whole board is as it was before the move.
pub proof fn lemma_undo_restores(b: BoardView, p: Vec2)
    requires
        b.wf(),
        b.game.contains(p),
        b.game.turn != Suit::Empty,
        b.game.at(p) == Suit::Empty,
    ensures
        b.played(p).undone().game == b.game,
        b.played(p).undone().selected == b.selected,
        b.played(p).undone().win_pos == b.win_pos,
        b.played(p).undone().last is None,
        b.last is None ==> b.played(p).undone() == b,
{
    let i = row_major(p.x as int, p.y as int, b.game.width);
    lemma_row_major_in_range(p.x as int, p.y as int, b.game.width, b.game.height);
    assert(b.game.cells.update(i, b.game.turn).update(i, Suit::Empty) =~= b.game.cells);
}

/// The board after trying `moves` in order, where `apply_move` refuses a
/// move (a taken cell, nobody on turn) it is skipped.
pub open spec fn after_moves(b: BoardView, moves: Seq<Vec2>) -> BoardView
    decreases moves.len(),
{
    if moves.len() == 0 {
        b
    } else {
        let p = moves[0];
        let next = if b.game.turn != Suit::Empty && b.game.at(p) == Suit::Empty {
            b.played(p)
        } else {
            b
        };
        after_moves(next, moves.drop_first())
    }
}

/// Whatever moves are played, each cell holds exactly one mark: the board
/// stays well formed with its dimensions, and a cell once taken keeps its
/// mark, so no cell is ever claimed by both players.
pub proof fn lemma_one_mark_per_cell(b: BoardView, moves: Seq<Vec2>)
    requires
        b.wf(),
        forall|i: int| 0 <= i < moves.len() ==> b.game.contains(#[trigger] moves[i]),
    ensures
        after_moves(b, moves).wf(),
        after_moves(b, moves).game.width == b.game.width,
        after_moves(b, moves).game.height == b.game.height,
        forall|x: int, y: int|
            b.game.in_bounds(x, y) && b.game.cell(x, y) != Suit::Empty ==> #[trigger] after_moves(
                b,
                moves,
            ).game.cell(x, y) == b.game.cell(x, y),
    decreases moves.len(),
{
    if moves.len() > 0 {
        let p = moves[0];
        let next = if b.game.turn != Suit::Empty && b.game.at(p) == Suit::Empty {
            b.played(p)
        } else {
            b
        };
        b.game.lemma_with_cell(p, b.game.turn);
        lemma_row_major_in_range(p.x as int, p.y as int, b.game.width, b.game.height);
        assert(next.wf());
        let rest = moves.drop_first();
        assert forall|i: int| 0 <= i < rest.len() implies next.game.contains(#[trigger] rest[i]) by {
            assert(rest[i] == moves[i + 1]);
        }
        lemma_one_mark_per_cell(next, rest);
        assert(after_moves(b, moves) == after_moves(next, rest));
        assert forall|x: int, y: int|
            b.game.in_bounds(x, y) && b.game.cell(x, y) != Suit::Empty implies #[trigger] after_moves(
            b,
            moves,
        ).game.cell(x, y) == b.game.cell(x, y) by {
            if b.game.turn != Suit::Empty && b.game.at(p) == Suit::Empty {
                assert(next.game.cell(x, y) == b.game.with_cell(p, b.game.turn).cell(x, y));
            }
            assert(next.game.cell(x, y) == b.game.cell(x, y));
            assert(next.game.in_bounds(x, y));
        }
    }
}

impl BoardView {
    pub open spec fn wf(self) -> bool {
        &&& self.game.valid()
        &&& self.game.contains(self.selected)
        &&& self.last matches Some(p) ==> self.game.contains(p) && self.game.at(p) != Suit::Empty
    }

    pub open spec fn played(self, p: Vec2) -> BoardView {
        BoardView { game: self.game.played(p), last: Some(p), ..self }
    }

    /// The last move taken back, if there is one to take back.
    pub open spec fn undone(self) -> BoardView {
        match self.last {
            Some(p) => BoardView {
                game: self.game.retracted(p, self.game.turn.opposite()),
                last: None,
                ..self
            },
            None => self,
        }
    }
}

/// What a board shows: a line of `win_len` equal marks (its mark, first
/// cell and direction), a full board with no such line, or neither.
#[derive(Debug, Clone, Copy, PartialEq, Eq, Structural)]
pub enum Outcome {
    InProgress,
    Draw,
    Win(Suit, Vec2, Vec2<isize>),
}

/// `v` moved `k` steps along one axis of a direction whose component is `d`
/// (-1, 0 or 1).
pub open spec fn step(v: int, k: int, d: int) -> int {
    if d > 0 {
        v + k
    } else if d < 0 {
        v - k
    } else {
        v
    }
}

/// The four directions a line is looked for in, in the order they are
/// tried: right, down, down-right, down-left.
pub open spec fn dir_x(d: int) -> int {
    if d == 0 || d == 2 {
        1
    } else if d == 1 {
        0
    } else {
        -1
    }
}

pub open spec fn dir_y(d: int) -> int {
    if d == 0 {
        0
    } else {
        1
    }
}

pub open spec fn direction(d: int) -> Vec2<isize> {
    Vec2 { x: dir_x(d) as isize, y: dir_y(d) as isize }
}

impl Game {
    /// The `win_len` cells from (x, y) in direction (dx, dy) all lie on the
    /// board.
    pub open spec fn line_fits(self, x: int, y: int, dx: int, dy: int) -> bool {
        &&& self.in_bounds(x, y)
        &&& self.in_bounds(step(x, self.win_len - 1, dx), step(y, self.win_len - 1, dy))
    }

    /// A winning line starts at (x, y) in direction (dx, dy): `win_len` cells
    /// on the board, all holding the same mark, which is not `Empty`.
    pub open spec fn is_line(self, x: int, y: int, dx: int, dy: int) -> bool {
        &&& self.line_fits(x, y, dx, dy)
        &&& self.cell(x, y) != Suit::Empty
        &&& forall|k: int|
            0 <= k < self.win_len ==> #[trigger] self.cell(step(x, k, dx), step(y, k, dy))
                == self.cell(x, y)
    }

    pub open spec fn is_line_dir(self, x: int, y: int, d: int) -> bool {
        self.is_line(x, y, dir_x(d), dir_y(d))
    }

    /// The first winning line at or after (x, y) and direction number `d`,
    /// scanning cells row by row, left to right, and each cell's
    /// directions in order.
    pub open spec fn first_line(self, x: int, y: int, d: int) -> Option<(int, int, int)>
        decreases self.height - y, self.width - x, 4 - d,
        when 0 <= x <= self.width && 0 <= y <= self.height && 0 <= d <= 4
    {
        if y >= self.height {
            None
        } else if x >= self.width {
            self.first_line(0, y + 1, 0)
        } else if d >= 4 {
            self.first_line(x + 1, y, 0)
        } else if self.is_line_dir(x, y, d) {
            Some((x, y, d))
        } else {
            self.first_line(x, y, d + 1)
        }
    }

    pub open spec fn outcome(self) -> Outcome {
        match self.first_line(0, 0, 0) {
            Some((x, y, d)) => Outcome::Win(
                self.cell(x, y),
                Vec2 { x: x as usize, y: y as usize },
                direction(d),
            ),
            None => if self.is_full() {
                Outcome::Draw
            } else {
                Outcome::InProgress
            },
        }
    }

    /// Some winning line lies on the board.
    pub open spec fn has_line(self) -> bool {
        exists|x: int, y: int, d: int| 0 <= d < 4 && #[trigger] self.is_line_dir(x, y, d)
    }

    /// Some winning line of `s` lies on the board.
    pub open spec fn has_line_of(self, s: Suit) -> bool {
        exists|x: int, y: int, d: int|
            0 <= d < 4 && #[trigger] self.is_line_dir(x, y, d) && self.cell(x, y) == s
    }

    /// (a, b, e) comes at or after (x, y, d) in the scan order.
    pub open spec fn scanned_after(x: int, y: int, d: int, a: int, b: int, e: int) -> bool {
        b > y || (b == y && (a > x || (a == x && e >= d)))
    }

    pub proof fn lemma_first_line(self, x: int, y: int, d: int)
        requires
            self.valid(),
            0 <= x <= self.width,
            0 <= y <= self.height,
            0 <= d <= 4,
        ensures
            self.first_line(x, y, d) matches Some((a, b, e)) ==> 0 <= e < 4 && self.in_bounds(a, b)
                && self.is_line_dir(a, b, e),
            self.first_line(x, y, d) is None ==> forall|a: int, b: int, e: int|
                0 <= e < 4 && self.in_bounds(a, b) && Self::scanned_after(x, y, d, a, b, e)
                    ==> !#[trigger] self.is_line_dir(a, b, e),
        decreases self.height - y, self.width - x, 4 - d,
    {
        if y >= self.height {
        } else if x >= self.width {
            self.lemma_first_line(0, y + 1, 0);
        } else if d >= 4 {
            self.lemma_first_line(x + 1, y, 0);
        } else if self.is_line_dir(x, y, d) {
        } else {
            self.lemma_first_line(x, y, d + 1);
        }
    }
}

/// Winning lines are reported exactly: the outcome is a win just when some
/// line of `win_len` equal marks lies on the board, the line it names is
/// one, and when all such lines are of one mark, the win is that mark's.
/// Without a line, a full board is a draw and any other board is still in
/// progress.
pub proof fn lemma_outcome_exact(g: Game)
    requires
        g.valid(),
    ensures
        g.has_line() <==> g.outcome() is Win,
        g.outcome() matches Outcome::Win(s, p, v) ==> g.is_line(
            p.x as int,
            p.y as int,
            v.x as int,
            v.y as int,
        ) && g.at(p) == s,
        forall|s: Suit|
            s != Suit::Empty && #[trigger] g.has_line_of(s) && !g.has_line_of(s.opposite())
                ==> g.outcome() is Win && g.outcome()->Win_0 == s,
        !g.has_line() ==> (g.outcome() == Outcome::Draw <==> g.is_full()),
        !g.has_line() ==> (g.outcome() == Outcome::InProgress <==> !g.is_full()),
{
    g.lemma_first_line(0, 0, 0);
    if g.has_line() {
        let (x, y, d) = choose|x: int, y: int, d: int| 0 <= d < 4 && #[trigger] g.is_line_dir(x, y, d);
        assert(g.in_bounds(x, y));
        assert(Game::scanned_after(0, 0, 0, x, y, d));
    }
    if let Some((x, y, d)) = g.first_line(0, 0, 0) {
        assert(g.is_line_dir(x, y, d));
        assert(g.has_line());
        assert(x <= g.width * g.height && y <= g.width * g.height) by (nonlinear_arith)
            requires
                0 <= x < g.width,
                0 <= y < g.height,
                g.width >= 1,
                g.height >= 1,
        ;
    }
}

/// A board of a connect-N game.
pub struct Board {
    board: Vec<Suit>,
    size: Vec2,
    on_turn: Suit,
    win_len: usize,
    selected: Vec2,
    last: Option<Vec2>,
    win_pos: Option<(Vec2, Vec2<isize>)>,
}

impl View for Board {
    type V = BoardView;

    closed spec fn view(&self) -> BoardView {
        BoardView {
            game: Game {
                cells: self.board@,
                width: self.size.x as int,
                height: self.size.y as int,
                win_len: self.win_len as int,
                turn: self.on_turn,
            },
            selected: self.selected,
            last: self.last,
            win_pos: self.win_pos,
        }
    }
}

impl Board {
    pub open spec fn wf(&self) -> bool {
        self@.wf()
    }

    pub open spec fn game(&self) -> Game {
        self@.game
    }

    /// A board of `size` with all cells empty and `Cross` on turn.
    pub fn new(size: Vec2, win_len: usize) -> (r: Board)
        requires
            size.x >= 1,
            size.y >= 1,
            size.x * size.y <= usize::MAX,
            1 <= win_len <= max_of(size.x as int, size.y as int),
        ensures
            r.wf(),
            r.game().width == size.x,
            r.game().height == size.y,
            r.game().win_len == win_len,
            r.game().turn == Suit::Cross,
            forall|x: int, y: int| r.game().in_bounds(x, y) ==> r.game().cell(x, y) == Suit::Empty,
            r@.selected == center_of(size.x as int, size.y as int),
            r@.last is None,
            r@.win_pos is None,
    {
        let n = size.x * size.y;
        let mut board: Vec<Suit> = Vec::new();
        while board.len() < n
            invariant
                board.len() <= n,
                forall|i: int| 0 <= i < board.len() ==> board[i] == Suit::Empty,
            decreases n - board.len(),
        {
            board.push(Suit::Empty);
        }
        let r = Board {
            board,
            size,
            on_turn: Suit::Cross,
            win_len,
            selected: Vec2::new((size.x - 1) / 2, (size.y - 1) / 2),
            last: None,
            win_pos: None,
        };
        assert forall|x: int, y: int| r.game().in_bounds(x, y) implies r.game().cell(x, y)
            == Suit::Empty by {
            lemma_row_major_in_range(x, y, size.x as int, size.y as int);
        }
        r
    }

    /// The row-major index of an in-bounds cell.
    fn index_of(&self, pos: Vec2) -> (r: usize)
        requires
            self.wf(),
            self.game().contains(pos),
        ensures
            r == row_major(pos.x as int, pos.y as int, self.game().width),
            r < self.board@.len(),
    {
        let _n = self.board.len();
        proof {
            lemma_row_major_in_range(pos.x as int, pos.y as int, self.size.x as int, self.size.y as int);
        }
        pos.y * self.size.x + pos.x
    }

    /// The mark in the cell at `pos`.
    pub fn at(&self, pos: Vec2) -> (r: Suit)
        requires
            self.wf(),
            self.game().contains(pos),
        ensures
            r == self.game().at(pos),
    {
        let i = self.index_of(pos);
        self.board[i]
    }

    pub fn size(&self) -> (r: Vec2)
        ensures
            r.x == self.game().width,
            r.y == self.game().height,
    {
        self.size
    }

    pub fn on_turn(&self) -> (r: Suit)
        ensures
            r == self.game().turn,
    {
        self.on_turn
    }

    pub fn win_len(&self) -> (r: usize)
        ensures
            r == self.game().win_len,
    {
        self.win_len
    }

    pub fn selected(&self) -> (r: Vec2)
        ensures
            r == self@.selected,
    {
        self.selected
    }

    /// The winning line recorded by the last `check_win`: its first cell and
    /// its direction.
    pub fn win_pos(&self) -> (r: Option<(Vec2, Vec2<isize>)>)
        ensures
            r == self@.win_pos,
    {
        self.win_pos
    }

    /// Nobody is on turn any more: the board can only be looked at.
    pub fn inspect_mode(&mut self)
        requires
            old(self).wf(),
        ensures
            final(self).wf(),
            final(self)@ == (BoardView {
                game: Game { turn: Suit::Empty, ..old(self)@.game },
                ..old(self)@
            }),
    {
        self.on_turn = Suit::Empty;
    }

    /// Moves the cursor to `selected`, clamped into the board.
    pub fn set_selected(&mut self, selected: Vec2)
        requires
            old(self).wf(),
        ensures
            final(self).wf(),
            final(self)@ == (BoardView {
                selected: Vec2 {
                    x: if selected.x < old(self).game().width {
                        selected.x
                    } else {
                        (old(self).game().width - 1) as usize
                    },
                    y: if selected.y < old(self).game().height {
                        selected.y
                    } else {
                        (old(self).game().height - 1) as usize
                    },
                },
                ..old(self)@
            }),
    {
        let x = if selected.x < self.size.x {
            selected.x
        } else {
            self.size.x - 1
        };
        let y = if selected.y < self.size.y {
            selected.y
        } else {
            self.size.y - 1
        };
        self.selected = Vec2::new(x, y);
    }

    proof fn lemma_update_keeps_others(&self, pos: Vec2, s: Suit)
        requires
            self.wf(),
            self.game().contains(pos),
        ensures
            self.board@.update(row_major(pos.x as int, pos.y as int, self.size.x as int), s)
                == self.game().with_cell(pos, s).cells,
            forall|x: int, y: int|
                self.game().in_bounds(x, y) && (x != pos.x || y != pos.y) ==> #[trigger] self.game().with_cell(pos, s).cell(x, y)
                    == self.game().cell(x, y),
            self.game().with_cell(pos, s).at(pos) == s,
    {
        self.game().lemma_with_cell(pos, s);
    }

    /// Places the mark on turn at `pos` and passes the turn to the other
    /// player. Refused, with the board unchanged, when nobody is on turn or
    /// the cell is taken.
    pub fn apply_move(&mut self, pos: Vec2) -> (r: Result<()>)
        requires
            old(self).wf(),
            old(self).game().contains(pos),
        ensures
            final(self).wf(),
            old(self).game().turn == Suit::Empty ==> r == Err::<(), Error>(Error::NoActiveTurn)
                && final(self)@ == old(self)@,
            old(self).game().turn != Suit::Empty && old(self).game().at(pos) != Suit::Empty ==> r
                == Err::<(), Error>(Error::AlreadyPopulated) && final(self)@ == old(self)@,
            old(self).game().turn != Suit::Empty && old(self).game().at(pos) == Suit::Empty ==> r
                == Ok::<(), Error>(()) && final(self)@ == old(self)@.played(pos),
    {
        if self.on_turn == Suit::Empty {
            return Err(Error::NoActiveTurn);
        }
        let i = self.index_of(pos);
        if self.board[i] != Suit::Empty {
            return Err(Error::AlreadyPopulated);
        }
        proof {
            self.lemma_update_keeps_others(pos, self.on_turn);
        }
        let turn = self.on_turn;
        self.board.set(i, turn);
        self.last = Some(pos);
        self.on_turn = turn.oposite();
        Ok(())
    }

    /// Plays the mark on turn at the selected cell (see `apply_move`).
    pub fn play(&mut self) -> (r: Result<()>)
        requires
            old(self).wf(),
        ensures
            final(self).wf(),
            old(self).game().turn == Suit::Empty ==> r == Err::<(), Error>(Error::NoActiveTurn)
                && final(self)@ == old(self)@,
            old(self).game().turn != Suit::Empty && old(self).game().at(old(self)@.selected)
                != Suit::Empty ==> r == Err::<(), Error>(Error::AlreadyPopulated) && final(self)@
                == old(self)@,
            old(self).game().turn != Suit::Empty && old(self).game().at(old(self)@.selected)
                == Suit::Empty ==> r == Ok::<(), Error>(()) && final(self)@ == old(self)@.played(
                old(self)@.selected,
            ),
    {
        let sel = self.selected;
        self.apply_move(sel)
    }

    /// Whether a winning line starts at the non-empty cell (x, y) in
    /// direction number `d`.
    fn line_at(&self, x: usize, y: usize, d: usize) -> (r: bool)
        requires
            self.wf(),
            self.game().in_bounds(x as int, y as int),
            d < 4,
            self.game().cell(x as int, y as int) != Suit::Empty,
        ensures
            r == self.game().is_line_dir(x as int, y as int, d as int),
    {
        let g = Ghost(self.game());
        let l = self.win_len;
        let fits_x = if d == 1 {
            true
        } else if d == 3 {
            x >= l - 1
        } else {
            l - 1 < self.size.x - x
        };
        let fits_y = if d == 0 {
            true
        } else {
            l - 1 < self.size.y - y
        };
        if !(fits_x && fits_y) {
            return false;
        }
        let s = self.at(Vec2::new(x, y));
        let mut k: usize = 1;
        while k < l
            invariant
                self.wf(),
                g@ == self.game(),
                1 <= k <= l,
                l == g@.win_len,
                d < 4,
                s == g@.cell(x as int, y as int),
                g@.line_fits(x as int, y as int, dir_x(d as int), dir_y(d as int)),
                forall|j: int|
                    0 <= j < k ==> #[trigger] g@.cell(
                        step(x as int, j, dir_x(d as int)),
                        step(y as int, j, dir_y(d as int)),
                    ) == s,
            decreases l - k,
        {
            let px = if d == 1 {
                x
            } else if d == 3 {
                x - k
            } else {
                x + k
            };
            let py = if d == 0 {
                y
            } else {
                y + k
            };
            assert(px == step(x as int, k as int, dir_x(d as int)));
            assert(py == step(y as int, k as int, dir_y(d as int)));
            if self.at(Vec2::new(px, py)) != s {
                return false;
            }
            k += 1;
        }
        true
    }

    /// What the board shows: the first winning line in scan order (cells
    /// row by row, left to right; at each cell the directions right, down,
    /// down-right, down-left), else a draw when every cell is taken, else a
    /// game in progress. The board is not changed.
    pub fn evaluate(&self) -> (r: Outcome)
        requires
            self.wf(),
        ensures
            r == self.game().outcome(),
    {
        let g = Ghost(self.game());
        let w = self.size.x;
        let h = self.size.y;
        let mut full = true;
        let mut y: usize = 0;
        while y < h
            invariant
                self.wf(),
                g@ == self.game(),
                w == g@.width,
                h == g@.height,
                0 <= y <= h,
                g@.first_line(0, 0, 0) == g@.first_line(0, y as int, 0),
                full == (forall|a: int, b: int|
                    0 <= a < w && 0 <= b < y ==> #[trigger] g@.cell(a, b) != Suit::Empty),
            decreases h - y,
        {
            let mut x: usize = 0;
            while x < w
                invariant
                    self.wf(),
                    g@ == self.game(),
                    w == g@.width,
                    h == g@.height,
                    0 <= x <= w,
                    0 <= y < h,
                    g@.first_line(0, 0, 0) == g@.first_line(x as int, y as int, 0),
                    full == (forall|a: int, b: int|
                        0 <= a < w && 0 <= b <= y && (b < y || a < x) ==> #[trigger] g@.cell(a, b)
                            != Suit::Empty),
                decreases w - x,
            {
                let s = self.at(Vec2::new(x, y));
                if s == Suit::Empty {
                    full = false;
                    assert(!g@.is_line_dir(x as int, y as int, 0));
                    assert(!g@.is_line_dir(x as int, y as int, 1));
                    assert(!g@.is_line_dir(x as int, y as int, 2));
                    assert(!g@.is_line_dir(x as int, y as int, 3));
                    assert(g@.first_line(x as int, y as int, 0) == g@.first_line(x as int, y as int, 1));
                    assert(g@.first_line(x as int, y as int, 1) == g@.first_line(x as int, y as int, 2));
                    assert(g@.first_line(x as int, y as int, 2) == g@.first_line(x as int, y as int, 3));
                    assert(g@.first_line(x as int, y as int, 3) == g@.first_line(x as int, y as int, 4));
                } else {
                    let mut d: usize = 0;
                    while d < 4
                        invariant
                            self.wf(),
                            g@ == self.game(),
                            w == g@.width,
                            h == g@.height,
                            0 <= x < w,
                            0 <= y < h,
                            d <= 4,
                            s == g@.cell(x as int, y as int),
                            s != Suit::Empty,
                            g@.first_line(0, 0, 0) == g@.first_line(x as int, y as int, d as int),
                        decreases 4 - d,
                    {
                        if self.line_at(x, y, d) {
                            let dir = if d == 0 {
                                Vec2::new(1isize, 0isize)
                            } else if d == 1 {
                                Vec2::new(0isize, 1isize)
                            } else if d == 2 {
                                Vec2::new(1isize, 1isize)
                            } else {
                                Vec2::new(-1isize, 1isize)
                            };
                            return Outcome::Win(s, Vec2::new(x, y), dir);
                        }
                        d += 1;
                    }
                }
                assert(g@.first_line(x as int, y as int, 4) == g@.first_line(x as int + 1, y as int, 0));
                x += 1;
            }
            assert(g@.first_line(w as int, y as int, 0) == g@.first_line(0, y as int + 1, 0));
            y += 1;
        }
        assert(g@.first_line(0, h as int, 0) is None);
        if full {
            Outcome::Draw
        } else {
            Outcome::InProgress
        }
    }

    /// Evaluates the board and records a winning line in `win_pos`. Returns
    /// the winner's mark on a win, `None` on a draw and `Some(Suit::Empty)`
    /// while the game is in progress.
    pub fn check_win(&mut self) -> (r: Option<Suit>)
        requires
            old(self).wf(),
        ensures
            final(self).wf(),
            old(self).game().outcome() matches Outcome::Win(s, p, v) ==> r == Some(s)
                && final(self)@ == (BoardView { win_pos: Some((p, v)), ..old(self)@ }),
            old(self).game().outcome() == Outcome::Draw ==> r is None && final(self)@ == old(self)@,
            old(self).game().outcome() == Outcome::InProgress ==> r == Some(Suit::Empty)
                && final(self)@ == old(self)@,
    {
        match self.evaluate() {
            Outcome::Win(s, p, v) => {
                self.win_pos = Some((p, v));
                Some(s)
            },
            Outcome::Draw => None,
            Outcome::InProgress => Some(Suit::Empty),
        }
    }

    /// Empties the cell at `pos` and gives the turn to `mover`, taking back
    /// a move made while looking ahead.
    pub(crate) fn retract(&mut self, pos: Vec2, mover: Suit)
        requires
            old(self).wf(),
            old(self).game().contains(pos),
        ensures
            final(self).wf(),
            final(self)@ == (BoardView {
                game: old(self).game().retracted(pos, mover),
                last: None,
                ..old(self)@
            }),
    {
        let i = self.index_of(pos);
        proof {
            self.lemma_update_keeps_others(pos, Suit::Empty);
        }
        self.board.set(i, Suit::Empty);
        self.on_turn = mover;
        self.last = None;
    }

    /// A copy of the board.
    pub fn duplicate(&self) -> (r: Board)
        ensures
            r@ == self@,
    {
        let n = self.board.len();
        let mut board: Vec<Suit> = Vec::new();
        let mut i: usize = 0;
        while i < n
            invariant
                0 <= i <= n,
                n == self.board@.len(),
                board@ == self.board@.subrange(0, i as int),
            decreases n - i,
        {
            board.push(self.board[i]);
            i += 1;
            assert(board@ =~= self.board@.subrange(0, i as int));
        }
        assert(board@ =~= self.board@);
        Board {
            board,
            size: self.size,
            on_turn: self.on_turn,
            win_len: self.win_len,
            selected: self.selected,
            last: self.last,
            win_pos: self.win_pos,
        }
    }

    /// The middle cell, rounded towards the origin: where a policy plays
    /// when it has nothing better.
    pub fn center_cell(&self) -> (r: Vec2)
        requires
            self.wf(),
        ensures
            r == center_of(self.game().width, self.game().height),
            self.game().contains(r),
    {
        Vec2::new((self.size.x - 1) / 2, (self.size.y - 1) / 2)
    }

    /// The cells from `start` up to `end` (exclusive) as a rectangle of the
    /// board.
    pub fn slice(&self, start: Vec2, end: Vec2) -> (r: Slice2d<'_, Suit>)
        requires
            self.wf(),
            start.x <= end.x <= self.game().width,
            start.y <= end.y <= self.game().height,
        ensures
            r.wf(),
            r.cells() == self.game().cells,
            r.whole().x == self.game().width,
            r.whole().y == self.game().height,
            r.first() == start,
            r.extent().x == end.x - start.x,
            r.extent().y == end.y - start.y,
    {
        Slice2d::new(
            self.board.as_slice(),
            self.size,
            start,
            Vec2::new(end.x - start.x, end.y - start.y),
        )
    }

    /// Plays the mark on turn at the selected cell (see `play`), then looks
    /// at the board (see `evaluate`). When the game is over, the winning
    /// line is recorded and nobody is on turn any more.
    pub fn play_turn(&mut self) -> (r: (Result<()>, Outcome))
        requires
            old(self).wf(),
        ensures
            final(self).wf(),
            ({
                let sel = old(self)@.selected;
                let legal = old(self).game().turn != Suit::Empty && old(self).game().at(sel)
                    == Suit::Empty;
                let after = if legal {
                    old(self)@.played(sel)
                } else {
                    old(self)@
                };
                let over = BoardView { game: Game { turn: Suit::Empty, ..after.game }, ..after };
                &&& old(self).game().turn == Suit::Empty ==> r.0 == Err::<(), Error>(
                    Error::NoActiveTurn,
                )
                &&& old(self).game().turn != Suit::Empty && !legal ==> r.0 == Err::<(), Error>(
                    Error::AlreadyPopulated,
                )
                &&& legal ==> r.0 == Ok::<(), Error>(())
                &&& r.1 == after.game.outcome()
                &&& r.1 == Outcome::InProgress ==> final(self)@ == after
                &&& r.1 == Outcome::Draw ==> final(self)@ == over
                &&& r.1 matches Outcome::Win(_, p, v) ==> final(self)@ == (BoardView {
                    win_pos: Some((p, v)),
                    ..over
                })
            }),
    {
        let res = self.play();
        let outcome = self.evaluate();
        match outcome {
            Outcome::Win(_, p, v) => {
                self.win_pos = Some((p, v));
                self.on_turn = Suit::Empty;
            },
            Outcome::Draw => {
                self.on_turn = Suit::Empty;
            },
            Outcome::InProgress => {},
        }
        (res, outcome)
    }

    /// Takes back the last move, if it has not been taken back yet: its cell
    /// is emptied and the turn passes back. Only one move can be taken back.
    pub fn undo(&mut self)
        requires
            old(self).wf(),
        ensures
            final(self).wf(),
            final(self)@ == old(self)@.undone(),
    {
        if let Some(last) = self.last {
            let i = self.index_of(last);
            proof {
                self.lemma_update_keeps_others(last, Suit::Empty);
            }
            self.board.set(i, Suit::Empty);
            self.on_turn = self.on_turn.oposite();
            self.last = None;
        }
    }

    /// Empties every cell and gives the turn to `Cross`; forgets the last
    /// move and the winning line.
    pub fn reset(&mut self)
        requires
            old(self).wf(),
        ensures
            final(self).wf(),
            final(self).game().width == old(self).game().width,
            final(self).game().height == old(self).game().height,
            final(self).game().win_len == old(self).game().win_len,
            final(self).game().turn == Suit::Cross,
            forall|x: int, y: int|
                final(self).game().in_bounds(x, y) ==> final(self).game().cell(x, y) == Suit::Empty,
            final(self)@.selected == old(self)@.selected,
            final(self)@.last is None,
            final(self)@.win_pos is None,
    {
        let n = self.board.len();
        let mut i: usize = 0;
        while i < n
            invariant
                0 <= i <= n,
                n == self.board@.len(),
                self.size == old(self).size,
                self.win_len == old(self).win_len,
                self.selected == old(self).selected,
                forall|j: int| 0 <= j < i ==> self.board@[j] == Suit::Empty,
            decreases n - i,
        {
            self.board.set(i, Suit::Empty);
            i += 1;
        }
        self.on_turn = Suit::Cross;
        self.last = None;
        self.win_pos = None;
        proof {
            let w = self.size.x as int;
            let h = self.size.y as int;
            assert forall|x: int, y: int| self.game().in_bounds(x, y) implies self.game().cell(
                x,
                y,
            ) == Suit::Empty by {
                lemma_row_major_in_range(x, y, w, h);
            }
        }
    }
}

} // verus!
