use vstd::prelude::*;

use crate::board::{center_of, Board, Game, Outcome};
use crate::bot::{choose_from, Bot};
use crate::moves::CellKind;
use crate::suit::Suit;
use crate::vec2::Vec2;

verus! {

/// `base` to the power `exp`.
pub open spec fn power(base: int, exp: int) -> int
    decreases exp,
{
    if exp <= 0 {
        1
    } else {
        base * power(base, exp - 1)
    }
}

/// A power of a positive base is positive and grows with the exponent.
pub proof fn lemma_power_grows(base: int, exp: int)
    requires
        base >= 1,
        exp >= 0,
    ensures
        power(base, exp) >= 1,
        exp >= 1 ==> power(base, exp) >= power(base, exp - 1),
    decreases exp,
{
    if exp >= 1 {
        lemma_power_grows(base, exp - 1);
        let p = power(base, exp - 1);
        assert(base * p >= p) by (nonlinear_arith)
            requires
                base >= 1,
                p >= 1,
        ;
    }
}

/// The score that stands for "no move ranked yet": below every score a
/// search can give.
pub open spec fn unranked() -> int {
    isize::MIN as int
}

/// The running best after a candidate move `c` of `me`, whose search of
/// the replies ended in `sub` (the mark that wins, or `Empty`) with score
/// `w` seen from `me`. Outcomes rank
/// "`me` wins" over "draw" over "`me` loses", and within one outcome the
/// score `w` decides; a tie in both adds `c` to the best moves. Once a win
/// is held, draws and losses are ignored whatever their score.
pub open spec fn ranked(
    me: Suit,
    best: (Suit, int, Seq<Vec2>),
    sub: Suit,
    w: int,
    c: Vec2,
) -> (Suit, int, Seq<Vec2>) {
    let (outcome, score, moves) = best;
    let tie_or_better = if w > score {
        (outcome, w, seq![c])
    } else if w == score {
        (outcome, score, moves.push(c))
    } else {
        best
    };
    if sub == me {
        if outcome == me {
            tie_or_better
        } else {
            (me, w, seq![c])
        }
    } else if sub == Suit::Empty {
        if outcome == me {
            best
        } else if outcome == Suit::Empty {
            tie_or_better
        } else {
            (Suit::Empty, w, seq![c])
        }
    } else if outcome == me.opposite() {
        tie_or_better
    } else {
        best
    }
}

/// Negamax search of `depth` plies from the side of the player on turn.
/// The result is the outcome that player can reach (its own mark for a
/// win, `Empty` for a draw or when the depth runs out, the opponent's mark
/// for a loss), the sum of the scores of the moves looked at (each the
/// negated score of the reply), and the best moves.
pub open spec fn search(g: Game, depth: int) -> (Suit, int, Seq<Vec2>)
    decreases depth, 1int, 0int,
{
    let me = g.turn;
    match g.outcome() {
        Outcome::Win(s, _, _) => if s == me {
            (s, 1, seq![])
        } else {
            (s, -1, seq![])
        },
        Outcome::Draw => (Suit::Empty, 0, seq![]),
        Outcome::InProgress => {
            let cands = g.cells_of(CellKind::Viable);
            if depth <= 0 || cands.len() == 0 {
                (Suit::Empty, 0, seq![])
            } else {
                let r = search_from(g, depth, cands, 0, (me.opposite(), unranked(), seq![], 0));
                (r.0, r.3, r.2)
            }
        },
    }
}

/// The search over the candidates `cands` from the `i`-th on, with `acc`
/// the running best outcome, its score, the best moves and the sum of the
/// scores so far. A move that wins ends the search at this ply.
pub open spec fn search_from(
    g: Game,
    depth: int,
    cands: Seq<Vec2>,
    i: int,
    acc: (Suit, int, Seq<Vec2>, int),
) -> (Suit, int, Seq<Vec2>, int)
    decreases depth, 0int, cands.len() - i,
{
    if i < 0 || i >= cands.len() || depth <= 0 {
        acc
    } else {
        let c = cands[i];
        let sub = search(g.played(c), depth - 1);
        let w = -sub.1;
        let best = ranked(g.turn, (acc.0, acc.1, acc.2), sub.0, w, c);
        let next = (best.0, best.1, best.2, acc.3 + w);
        if sub.0 == g.turn {
            next
        } else {
            search_from(g, depth, cands, i + 1, next)
        }
    }
}

/// The number of cells of a game, which bounds the number of candidate
/// moves at each ply.
pub open spec fn cell_count(g: Game) -> int {
    g.width * g.height
}

/// The search of `depth` plies on `board`, as `search` states it. The
/// board is the same when it returns. The scores are summed exactly, so
/// `depth` is bounded by what an `isize` can hold.
pub fn get_score(board: &mut Board, depth: usize) -> (r: (Suit, isize, Vec<Vec2>))
    requires
        old(board).wf(),
        power(cell_count(old(board).game()), depth as int) <= isize::MAX,
    ensures
        final(board).wf(),
        final(board).game() == old(board).game(),
        (r.0, r.1 as int, r.2@) == search(old(board).game(), depth as int),
        -power(cell_count(old(board).game()), depth as int) <= r.1 <= power(
            cell_count(old(board).game()),
            depth as int,
        ),
    decreases depth,
{
    let ghost g = board.game();
    let ghost n_cells = cell_count(g);
    proof {
        assert(n_cells >= 1) by (nonlinear_arith)
            requires
                g.width >= 1,
                g.height >= 1,
                n_cells == g.width * g.height,
        ;
        lemma_power_grows(n_cells, depth as int);
    }
    let me = board.on_turn();
    match board.evaluate() {
        Outcome::Win(s, _, _) => {
            if s == me {
                return (s, 1, Vec::new());
            } else {
                return (s, -1, Vec::new());
            }
        },
        Outcome::Draw => {
            return (Suit::Empty, 0, Vec::new());
        },
        Outcome::InProgress => {},
    }
    let cands = board.viable_moves();
    if depth == 0 || cands.len() == 0 {
        return (Suit::Empty, 0, Vec::new());
    }
    let ghost sub_bound = power(n_cells, depth - 1);
    proof {
        lemma_power_grows(n_cells, depth - 1);
    }
    let ghost target = search_from(g, depth as int, cands@, 0, (me.opposite(), unranked(), seq![], 0));
    let n = cands.len();
    let mut total: isize = 0;
    let mut best = me.oposite();
    let mut best_w: isize = isize::MIN;
    let mut moves: Vec<Vec2> = Vec::new();
    let mut done = false;
    let mut i: usize = 0;
    while i < n && !done
        invariant
            board.wf(),
            board.game() == g,
            g.turn == me,
            cands@ == g.cells_of(CellKind::Viable),
            n == cands@.len(),
            n <= n_cells,
            n_cells == cell_count(g),
            depth >= 1,
            0 <= i <= n,
            n_cells >= 1,
            sub_bound == power(n_cells, depth - 1),
            1 <= sub_bound,
            n_cells * sub_bound == power(n_cells, depth as int),
            power(n_cells, depth as int) <= isize::MAX,
            -(i * sub_bound) <= total <= i * sub_bound,
            best_w == unranked() || -sub_bound <= best_w <= sub_bound,
            target == search_from(g, depth as int, cands@, 0, (me.opposite(), unranked(), seq![], 0)),
            done ==> (best, best_w as int, moves@, total as int) == target,
            !done ==> search_from(g, depth as int, cands@, i as int, (best, best_w as int, moves@, total as int)) == target,
        decreases n - i,
    {
        let c = cands[i];
        proof {
            assert(cands@.contains(c)) by {
                assert(cands@[i as int] == c);
            }
            lemma_viable_is_empty(g, c, cands@, i as int);
        }
        let _ = board.apply_move(c);
        proof {
            if me == Suit::Empty {
                lemma_play_without_turn(g, c);
            }
            assert(board.game() == g.played(c));
        }
        proof {
            assert(cell_count(board.game()) == n_cells);
            assert(sub_bound <= n_cells * sub_bound) by (nonlinear_arith)
                requires
                    n_cells >= 1,
                    sub_bound >= 1,
            ;
        }
        let sub = get_score(board, depth - 1);
        proof {
            lemma_play_retract(g, c);
        }
        board.retract(c, me);
        let w = -sub.1;
        let ghost acc_before = (best, best_w as int, moves@, total as int);
        proof {
            assert((i + 1) * sub_bound == i * sub_bound + sub_bound) by (nonlinear_arith);
            assert((i + 1) * sub_bound <= n_cells * sub_bound) by (nonlinear_arith)
                requires
                    i + 1 <= n_cells,
                    sub_bound >= 1,
            ;
        }
        total = total + w;
        if sub.0 == me {
            if best == me {
                if w > best_w {
                    best_w = w;
                    moves = Vec::new();
                    moves.push(c);
                } else if w == best_w {
                    moves.push(c);
                }
            } else {
                best = me;
                best_w = w;
                moves = Vec::new();
                moves.push(c);
            }
        } else if sub.0 == Suit::Empty {
            if best == me {
            } else if best == Suit::Empty {
                if w > best_w {
                    best_w = w;
                    moves = Vec::new();
                    moves.push(c);
                } else if w == best_w {
                    moves.push(c);
                }
            } else {
                best = Suit::Empty;
                best_w = w;
                moves = Vec::new();
                moves.push(c);
            }
        } else if best == me.oposite() {
            if w > best_w {
                best_w = w;
                moves = Vec::new();
                moves.push(c);
            } else if w == best_w {
                moves.push(c);
            }
        }
        proof {
            let r = ranked(me, (acc_before.0, acc_before.1, acc_before.2), sub.0, w as int, c);
            assert(moves@ =~= r.2);
            assert((best, best_w as int, moves@) == r);
        }
        if sub.0 == me {
            done = true;
        }
        i += 1;
    }
    proof {
        assert(i * sub_bound <= n_cells * sub_bound) by (nonlinear_arith)
            requires
                i <= n_cells,
                sub_bound >= 1,
        ;
    }
    (best, total, moves)
}

/// A candidate move is an empty cell of the board.
proof fn lemma_viable_is_empty(g: Game, c: Vec2, cands: Seq<Vec2>, i: int)
    requires
        g.valid(),
        cands == g.cells_of(CellKind::Viable),
        0 <= i < cands.len(),
        cands[i] == c,
    ensures
        g.contains(c),
        g.at(c) == Suit::Empty,
{
    assert(g.width <= usize::MAX && g.height <= usize::MAX) by (nonlinear_arith)
        requires
            g.width >= 1,
            g.height >= 1,
            g.width * g.height <= usize::MAX,
    ;
    crate::moves::lemma_cells_where_sound(
        g.width,
        g.height,
        g.kind_pred(CellKind::Viable),
        0,
        0,
    );
    assert(g.kind_pred(CellKind::Viable)(c.x as int, c.y as int));
}

/// With nobody on turn, placing a mark on an empty cell changes nothing.
proof fn lemma_play_without_turn(g: Game, c: Vec2)
    requires
        g.valid(),
        g.contains(c),
        g.at(c) == Suit::Empty,
        g.turn == Suit::Empty,
    ensures
        g.played(c) == g,
{
    let i = crate::board::row_major(c.x as int, c.y as int, g.width);
    crate::board::lemma_row_major_in_range(c.x as int, c.y as int, g.width, g.height);
    assert(g.cells.update(i, Suit::Empty) =~= g.cells);
}

/// A move on an empty cell, taken back, leaves the game as it was.
proof fn lemma_play_retract(g: Game, c: Vec2)
    requires
        g.valid(),
        g.contains(c),
        g.at(c) == Suit::Empty,
    ensures
        g.played(c).retracted(c, g.turn) == g,
{
    let i = crate::board::row_major(c.x as int, c.y as int, g.width);
    crate::board::lemma_row_major_in_range(c.x as int, c.y as int, g.width, g.height);
    assert(g.cells.update(i, g.turn).update(i, Suit::Empty) =~= g.cells);
}


/// The deepest search of at most `depth` plies whose summed scores surely
/// fit an `isize` on a board of `cells` cells.
pub open spec fn capped_depth(cells: int, depth: int) -> int
    decreases depth,
{
    if depth <= 0 || power(cells, depth) <= isize::MAX {
        depth
    } else {
        capped_depth(cells, depth - 1)
    }
}

/// A power of a positive base grows with the exponent.
pub proof fn lemma_power_monotone(base: int, i: int, j: int)
    requires
        base >= 1,
        0 <= i <= j,
    ensures
        power(base, i) <= power(base, j),
    decreases j - i,
{
    if i < j {
        lemma_power_monotone(base, i, j - 1);
        lemma_power_grows(base, j);
    }
}

/// Whether `cells` to the power `depth` is at most `isize::MAX`.
fn score_fits(cells: usize, depth: usize) -> (r: bool)
    requires
        cells >= 1,
    ensures
        r == (power(cells as int, depth as int) <= isize::MAX),
{
    let limit: usize = isize::MAX as usize;
    let mut acc: usize = 1;
    let mut i: usize = 0;
    while i < depth
        invariant
            cells >= 1,
            i <= depth,
            limit == isize::MAX,
            acc == power(cells as int, i as int),
            acc <= limit,
        decreases depth - i,
    {
        if acc > limit / cells {
            proof {
                assert(acc * cells > limit) by (nonlinear_arith)
                    requires
                        acc > limit / cells,
                        cells >= 1,
                ;
                assert(power(cells as int, i + 1) == cells * acc);
                lemma_power_monotone(cells as int, i + 1, depth as int);
            }
            return false;
        }
        proof {
            assert(acc * cells <= limit) by (nonlinear_arith)
                requires
                    acc <= limit / cells,
                    cells >= 1,
            ;
        }
        acc = acc * cells;
        i += 1;
    }
    true
}

/// Searches ahead a fixed number of plies and plays one of the best moves.
pub struct Brute {
    win_len: usize,
    depth: usize,
}

impl Brute {
    pub closed spec fn search_depth(&self) -> int {
        self.depth as int
    }

    /// A player searching `depth` plies ahead.
    pub fn new(win_len: usize, depth: usize) -> (r: Brute)
        ensures
            r.search_depth() == depth,
    {
        Brute { win_len, depth }
    }

    /// `depth`, or less where the summed scores of so deep a search could
    /// overflow on a board of `cells` cells.
    fn capped(cells: usize, depth: usize) -> (r: usize)
        requires
            cells >= 1,
        ensures
            r == capped_depth(cells as int, depth as int),
            power(cells as int, r as int) <= isize::MAX,
    {
        let mut d = depth;
        loop
            invariant
                cells >= 1,
                d <= depth,
                capped_depth(cells as int, depth as int) == capped_depth(cells as int, d as int),
            decreases d,
        {
            if d == 0 || score_fits(cells, d) {
                return d;
            }
            d -= 1;
        }
    }

    /// One of the best moves that the search finds (chosen at random among
    /// them), or the middle cell when it finds none, as on a board without
    /// marks. The search goes `depth` plies deep, less only where its summed
    /// scores could overflow.
    pub fn choose_move(&self, board: &Board) -> (r: Vec2)
        requires
            board.wf(),
        ensures
            board.game().contains(r),
            ({
                let moves = search(
                    board.game(),
                    capped_depth(cell_count(board.game()), self.search_depth()),
                ).2;
                &&& moves.len() == 0 ==> r == center_of(board.game().width, board.game().height)
                &&& moves.len() > 0 ==> moves.contains(r)
            }),
    {
        let ghost g = board.game();
        let size = board.size();
        proof {
            assert(size.x * size.y >= 1) by (nonlinear_arith)
                requires
                    size.x >= 1,
                    size.y >= 1,
            ;
        }
        let depth = Self::capped(size.x * size.y, self.depth);
        let mut work = board.duplicate();
        let (_, _, moves) = get_score(&mut work, depth);
        match choose_from(&moves) {
            Some(p) => {
                proof {
                    lemma_search_moves(g, depth as int);
                    let k = choose|k: int| 0 <= k < moves@.len() && moves@[k] == p;
                    assert(moves@ == search(g, depth as int).2);
                    assert(search(g, depth as int).2[k] == p);
                    g.lemma_cells_of_member(CellKind::Viable, p);
                }
                p
            },
            None => board.center_cell(),
        }
    }
}

impl Bot for Brute {
    fn play(&mut self, board: &Board, last: Option<Vec2>) -> (r: Vec2)
        ensures
            board.game().contains(r),
            ({
                let moves = search(
                    board.game(),
                    capped_depth(cell_count(board.game()), old(self).search_depth()),
                ).2;
                &&& moves.len() == 0 ==> r == center_of(board.game().width, board.game().height)
                &&& moves.len() > 0 ==> moves.contains(r)
            }),
    {
        self.choose_move(board)
    }
}

/// Every best move a search gives is one of its candidate moves.
pub proof fn lemma_search_moves(g: Game, depth: int)
    requires
        g.valid(),
    ensures
        forall|k: int|
            0 <= k < search(g, depth).2.len() ==> g.cells_of(CellKind::Viable).contains(
                #[trigger] search(g, depth).2[k],
            ),
{
    let cands = g.cells_of(CellKind::Viable);
    if g.outcome() == Outcome::InProgress && depth > 0 && cands.len() > 0 {
        let init = (g.turn.opposite(), unranked(), seq![], 0);
        lemma_search_from_moves(g, depth, cands, 0, init);
        assert(search(g, depth).2 == search_from(g, depth, cands, 0, init).2);
    }
}

proof fn lemma_search_from_moves(
    g: Game,
    depth: int,
    cands: Seq<Vec2>,
    i: int,
    acc: (Suit, int, Seq<Vec2>, int),
)
    requires
        forall|k: int| 0 <= k < acc.2.len() ==> cands.contains(#[trigger] acc.2[k]),
    ensures
        forall|k: int|
            0 <= k < search_from(g, depth, cands, i, acc).2.len() ==> cands.contains(
                #[trigger] search_from(g, depth, cands, i, acc).2[k],
            ),
    decreases cands.len() - i,
{
    if 0 <= i < cands.len() && depth > 0 {
        let c = cands[i];
        assert(cands.contains(c));
        let sub = search(g.played(c), depth - 1);
        let w = -sub.1;
        let best = ranked(g.turn, (acc.0, acc.1, acc.2), sub.0, w, c);
        let next = (best.0, best.1, best.2, acc.3 + w);
        assert forall|k: int| 0 <= k < next.2.len() implies cands.contains(#[trigger] next.2[k]) by {
            if k < acc.2.len() && next.2[k] == acc.2[k] {
            } else {
                assert(next.2[k] == c);
            }
        }
        assert(search_from(g, depth, cands, i, acc) == if sub.0 == g.turn {
            next
        } else {
            search_from(g, depth, cands, i + 1, next)
        });
        if sub.0 != g.turn {
            lemma_search_from_moves(g, depth, cands, i + 1, next);
        }
    }
}

} // verus!
