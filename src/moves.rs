use vstd::prelude::*;

use crate::board::{Board, Game};
use crate::suit::Suit;
use crate::vec2::Vec2;

verus! {

/// (a, b) is one of the up to eight cells around (x, y).
pub open spec fn adjacent(x: int, y: int, a: int, b: int) -> bool {
    &&& (a != x || b != y)
    &&& x - 1 <= a <= x + 1
    &&& y - 1 <= b <= y + 1
}

/// The cells (a, b) of a `width` x `height` board for which `pred` holds,
/// in scan order (row by row, left to right), starting at (x, y).
pub open spec fn cells_where(
    width: int,
    height: int,
    pred: spec_fn(int, int) -> bool,
    x: int,
    y: int,
) -> Seq<Vec2>
    decreases height - y, width - x,
    when 0 <= x <= width && 0 <= y <= height
{
    if y >= height {
        Seq::empty()
    } else if x >= width {
        cells_where(width, height, pred, 0, y + 1)
    } else if pred(x, y) {
        seq![Vec2 { x: x as usize, y: y as usize }] + cells_where(width, height, pred, x + 1, y)
    } else {
        cells_where(width, height, pred, x + 1, y)
    }
}

/// No more cells are listed from (x, y) on than the board has left there.
pub proof fn lemma_cells_where_len(
    width: int,
    height: int,
    pred: spec_fn(int, int) -> bool,
    x: int,
    y: int,
)
    requires
        0 <= x <= width,
        0 <= y <= height,
    ensures
        cells_where(width, height, pred, x, y).len() <= if y < height {
            (height - y) * width - x
        } else {
            0
        },
    decreases height - y, width - x,
{
    if y >= height {
    } else if x >= width {
        lemma_cells_where_len(width, height, pred, 0, y + 1);
        assert((height - y) * width - x == (height - (y + 1)) * width) by (nonlinear_arith)
            requires
                x == width,
        ;
    } else {
        lemma_cells_where_len(width, height, pred, x + 1, y);
        assert((height - y) * width >= width) by (nonlinear_arith)
            requires
                y < height,
                0 <= x < width,
        ;
    }
}

/// Every cell listed satisfies `pred` and lies on the board.
pub proof fn lemma_cells_where_sound(
    width: int,
    height: int,
    pred: spec_fn(int, int) -> bool,
    x: int,
    y: int,
)
    requires
        0 <= x <= width <= usize::MAX,
        0 <= y <= height <= usize::MAX,
    ensures
        forall|k: int|
            #![trigger cells_where(width, height, pred, x, y)[k]]
            0 <= k < cells_where(width, height, pred, x, y).len() ==> pred(
                cells_where(width, height, pred, x, y)[k].x as int,
                cells_where(width, height, pred, x, y)[k].y as int,
            ) && cells_where(width, height, pred, x, y)[k].x < width && cells_where(
                width,
                height,
                pred,
                x,
                y,
            )[k].y < height,
    decreases height - y, width - x,
{
    let all = cells_where(width, height, pred, x, y);
    if y >= height {
    } else if x >= width {
        lemma_cells_where_sound(width, height, pred, 0, y + 1);
        assert(all == cells_where(width, height, pred, 0, y + 1));
    } else {
        lemma_cells_where_sound(width, height, pred, x + 1, y);
        let rest = cells_where(width, height, pred, x + 1, y);
        if pred(x, y) {
            let head = Vec2 { x: x as usize, y: y as usize };
            assert(all == seq![head] + rest);
            assert(all[0] == head);
            assert forall|k: int| 0 < k < all.len() implies all[k] == rest[k - 1] by {}
        } else {
            assert(all == rest);
        }
    }
}

/// Every cell at or after (x, y) in scan order for which `pred` holds is
/// listed.
pub proof fn lemma_cells_where_complete(
    width: int,
    height: int,
    pred: spec_fn(int, int) -> bool,
    x: int,
    y: int,
    a: int,
    b: int,
)
    requires
        0 <= x <= width <= usize::MAX,
        0 <= y <= height <= usize::MAX,
        0 <= a < width,
        0 <= b < height,
        b > y || (b == y && a >= x),
        pred(a, b),
    ensures
        cells_where(width, height, pred, x, y).contains(Vec2 { x: a as usize, y: b as usize }),
    decreases height - y, width - x,
{
    let all = cells_where(width, height, pred, x, y);
    let target = Vec2 { x: a as usize, y: b as usize };
    if x >= width {
        lemma_cells_where_complete(width, height, pred, 0, y + 1, a, b);
        assert(all == cells_where(width, height, pred, 0, y + 1));
    } else {
        let rest = cells_where(width, height, pred, x + 1, y);
        if a == x && b == y {
            assert(all == seq![target] + rest);
            assert(all[0] == target);
        } else {
            lemma_cells_where_complete(width, height, pred, x + 1, y, a, b);
            let k = choose|k: int| 0 <= k < rest.len() && rest[k] == target;
            if pred(x, y) {
                let head = Vec2 { x: x as usize, y: y as usize };
                assert(all == seq![head] + rest);
                assert(all[k + 1] == target);
            } else {
                assert(all == rest);
            }
        }
    }
}

/// Which cells a scan collects.
#[derive(Debug, Clone, Copy, PartialEq, Eq, Structural)]
pub enum CellKind {
    /// Every empty cell.
    Empty,
    /// Empty cells next to a mark: the first ring around the marks.
    Frontier,
    /// Empty cells of the first ring or next to it: the candidate moves
    /// of the search.
    Viable,
}

impl Game {
    /// Some cell around (x, y) holds a mark.
    pub open spec fn touches_mark(self, x: int, y: int) -> bool {
        exists|a: int, b: int|
            adjacent(x, y, a, b) && self.in_bounds(a, b) && #[trigger] self.cell(a, b) != Suit::Empty
    }

    /// An empty cell next to a mark.
    pub open spec fn is_frontier(self, x: int, y: int) -> bool {
        &&& self.in_bounds(x, y)
        &&& self.cell(x, y) == Suit::Empty
        &&& self.touches_mark(x, y)
    }

    /// An empty cell that is on the frontier or next to a frontier cell.
    pub open spec fn is_viable(self, x: int, y: int) -> bool {
        &&& self.in_bounds(x, y)
        &&& self.cell(x, y) == Suit::Empty
        &&& (self.is_frontier(x, y) || exists|a: int, b: int|
            adjacent(x, y, a, b) && #[trigger] self.is_frontier(a, b))
    }

    pub open spec fn is_kind(self, kind: CellKind, x: int, y: int) -> bool {
        match kind {
            CellKind::Empty => self.in_bounds(x, y) && self.cell(x, y) == Suit::Empty,
            CellKind::Frontier => self.is_frontier(x, y),
            CellKind::Viable => self.is_viable(x, y),
        }
    }

    pub open spec fn kind_pred(self, kind: CellKind) -> spec_fn(int, int) -> bool {
        |x: int, y: int| self.is_kind(kind, x, y)
    }

    /// The cells of `kind`, in scan order.
    pub open spec fn cells_of(self, kind: CellKind) -> Seq<Vec2> {
        cells_where(self.width, self.height, self.kind_pred(kind), 0, 0)
    }
}

impl Game {
    /// Some cell of the board is of `kind`.
    pub open spec fn has_kind(self, kind: CellKind) -> bool {
        exists|x: int, y: int| self.in_bounds(x, y) && #[trigger] self.is_kind(kind, x, y)
    }

    /// The cells of `kind` are listed just when the board has one.
    pub proof fn lemma_cells_of_nonempty(self, kind: CellKind)
        requires
            self.valid(),
        ensures
            self.has_kind(kind) <==> self.cells_of(kind).len() > 0,
    {
        if self.has_kind(kind) {
            let (a, b) = choose|x: int, y: int| self.in_bounds(x, y) && #[trigger] self.is_kind(kind, x, y);
            assert(self.kind_pred(kind)(a, b));
            lemma_cells_where_complete(self.width, self.height, self.kind_pred(kind), 0, 0, a, b);
        }
        if self.cells_of(kind).len() > 0 {
            let p = self.cells_of(kind)[0];
            assert(self.cells_of(kind).contains(p));
            self.lemma_cells_of_member(kind, p);
        }
    }

    /// A listed cell lies on the board and is of the kind asked for.
    pub proof fn lemma_cells_of_member(self, kind: CellKind, p: Vec2)
        requires
            self.valid(),
            self.cells_of(kind).contains(p),
        ensures
            self.contains(p),
            self.is_kind(kind, p.x as int, p.y as int),
    {
        assert(self.width <= usize::MAX && self.height <= usize::MAX) by (nonlinear_arith)
            requires
                self.width >= 1,
                self.height >= 1,
                self.width * self.height <= usize::MAX,
        ;
        lemma_cells_where_sound(self.width, self.height, self.kind_pred(kind), 0, 0);
        let k = choose|k: int| 0 <= k < self.cells_of(kind).len() && self.cells_of(kind)[k] == p;
        assert(self.kind_pred(kind)(p.x as int, p.y as int));
    }
}

impl Board {
    /// The lowest and highest coordinate within one step of `v` on an axis
    /// of length `len`.
    fn window(v: usize, len: usize) -> (r: (usize, usize))
        requires
            v < len,
        ensures
            r.0 <= v <= r.1 < len,
            r.0 as int == if v > 0 { v - 1 } else { 0 },
            r.1 as int == if v + 1 < len { v + 1 } else { len - 1 },
    {
        let lo = if v > 0 {
            v - 1
        } else {
            0
        };
        let hi = if v + 1 < len {
            v + 1
        } else {
            len - 1
        };
        (lo, hi)
    }

    /// Whether some cell around (x, y) holds a mark.
    pub fn touches_mark(&self, x: usize, y: usize) -> (r: bool)
        requires
            self.wf(),
            self.game().in_bounds(x as int, y as int),
        ensures
            r == self.game().touches_mark(x as int, y as int),
    {
        let g = Ghost(self.game());
        let size = self.size();
        let (a0, a1) = Self::window(x, size.x);
        let (b0, b1) = Self::window(y, size.y);
        let mut b = b0;
        while b <= b1
            invariant
                self.wf(),
                g@ == self.game(),
                g@.in_bounds(x as int, y as int),
                b0 <= b <= b1 + 1,
                a0 <= x <= a1 < g@.width,
                b0 <= y <= b1 < g@.height,
                x <= a0 + 1,
                a1 <= x + 1,
                y <= b0 + 1,
                b1 <= y + 1,
                size.x == g@.width,
                size.y == g@.height,
                forall|p: int, q: int|
                    a0 <= p <= a1 && b0 <= q < b && adjacent(x as int, y as int, p, q) ==> #[trigger] g@.cell(
                        p,
                        q,
                    ) == Suit::Empty,
            decreases b1 + 1 - b,
        {
            let mut a = a0;
            while a <= a1
                invariant
                    self.wf(),
                    g@ == self.game(),
                    a0 <= a <= a1 + 1,
                    a0 <= x <= a1 < g@.width,
                    b0 <= b <= b1 < g@.height,
                    x <= a0 + 1,
                    a1 <= x + 1,
                    y <= b0 + 1,
                    b1 <= y + 1,
                    size.x == g@.width,
                    size.y == g@.height,
                    forall|p: int, q: int|
                        a0 <= p <= a1 && b0 <= q <= b && (q < b || p < a) && adjacent(
                            x as int,
                            y as int,
                            p,
                            q,
                        ) ==> #[trigger] g@.cell(p, q) == Suit::Empty,
                decreases a1 + 1 - a,
            {
                if (a != x || b != y) && self.at(Vec2::new(a, b)) != Suit::Empty {
                    assert(adjacent(x as int, y as int, a as int, b as int));
                    assert(g@.cell(a as int, b as int) != Suit::Empty);
                    return true;
                }
                a += 1;
            }
            b += 1;
        }
        false
    }

    /// Whether (x, y) is empty and some cell around it is empty and next to
    /// a mark.
    fn near_frontier(&self, x: usize, y: usize) -> (r: bool)
        requires
            self.wf(),
            self.game().in_bounds(x as int, y as int),
        ensures
            r == exists|a: int, b: int|
                adjacent(x as int, y as int, a, b) && #[trigger] self.game().is_frontier(a, b),
    {
        let g = Ghost(self.game());
        let size = self.size();
        let (a0, a1) = Self::window(x, size.x);
        let (b0, b1) = Self::window(y, size.y);
        let mut b = b0;
        while b <= b1
            invariant
                self.wf(),
                g@ == self.game(),
                g@.in_bounds(x as int, y as int),
                b0 <= b <= b1 + 1,
                a0 <= x <= a1 < g@.width,
                b0 <= y <= b1 < g@.height,
                x <= a0 + 1,
                a1 <= x + 1,
                y <= b0 + 1,
                b1 <= y + 1,
                size.x == g@.width,
                size.y == g@.height,
                a0 as int == if x > 0 { x - 1 } else { 0 },
                b0 as int == if y > 0 { y - 1 } else { 0 },
                a1 as int == if x + 1 < g@.width { x + 1 } else { g@.width - 1 },
                b1 as int == if y + 1 < g@.height { y + 1 } else { g@.height - 1 },
                forall|p: int, q: int|
                    a0 <= p <= a1 && b0 <= q < b && adjacent(x as int, y as int, p, q)
                        ==> !#[trigger] g@.is_frontier(p, q),
            decreases b1 + 1 - b,
        {
            let mut a = a0;
            while a <= a1
                invariant
                    self.wf(),
                    g@ == self.game(),
                    a0 <= a <= a1 + 1,
                    a0 <= x <= a1 < g@.width,
                    b0 <= b <= b1 < g@.height,
                    x <= a0 + 1,
                    a1 <= x + 1,
                    y <= b0 + 1,
                    b1 <= y + 1,
                    size.x == g@.width,
                    size.y == g@.height,
                    forall|p: int, q: int|
                        a0 <= p <= a1 && b0 <= q <= b && (q < b || p < a) && adjacent(
                            x as int,
                            y as int,
                            p,
                            q,
                        ) ==> !#[trigger] g@.is_frontier(p, q),
                decreases a1 + 1 - a,
            {
                if (a != x || b != y) && self.at(Vec2::new(a, b)) == Suit::Empty
                    && self.touches_mark(a, b) {
                    assert(adjacent(x as int, y as int, a as int, b as int));
                    assert(g@.is_frontier(a as int, b as int));
                    return true;
                }
                a += 1;
            }
            b += 1;
        }
        assert forall|p: int, q: int| adjacent(x as int, y as int, p, q) implies !#[trigger] g@.is_frontier(
            p,
            q,
        ) by {
            if g@.is_frontier(p, q) {
                assert(a0 <= p <= a1 && b0 <= q <= b1);
            }
        }
        false
    }

    /// Whether the cell at (x, y) is of `kind`.
    fn is_kind_at(&self, kind: CellKind, x: usize, y: usize) -> (r: bool)
        requires
            self.wf(),
            self.game().in_bounds(x as int, y as int),
        ensures
            r == self.game().is_kind(kind, x as int, y as int),
    {
        if self.at(Vec2::new(x, y)) != Suit::Empty {
            return false;
        }
        match kind {
            CellKind::Empty => true,
            CellKind::Frontier => self.touches_mark(x, y),
            CellKind::Viable => self.touches_mark(x, y) || self.near_frontier(x, y),
        }
    }

    /// The cells of `kind`, in scan order (row by row, left to right).
    pub fn cells_of(&self, kind: CellKind) -> (r: Vec<Vec2>)
        requires
            self.wf(),
        ensures
            r@ == self.game().cells_of(kind),
            r@.len() <= self.game().width * self.game().height,
    {
        let g = Ghost(self.game());
        let pred = Ghost(g@.kind_pred(kind));
        let size = self.size();
        let w = size.x;
        let h = size.y;
        let mut r: Vec<Vec2> = Vec::new();
        let mut y: usize = 0;
        while y < h
            invariant
                self.wf(),
                g@ == self.game(),
                pred@ == g@.kind_pred(kind),
                w == g@.width,
                h == g@.height,
                0 <= y <= h,
                r@ + cells_where(w as int, h as int, pred@, 0, y as int) == g@.cells_of(kind),
            decreases h - y,
        {
            let mut x: usize = 0;
            while x < w
                invariant
                    self.wf(),
                    g@ == self.game(),
                    pred@ == g@.kind_pred(kind),
                    w == g@.width,
                    h == g@.height,
                    0 <= x <= w,
                    0 <= y < h,
                    r@ + cells_where(w as int, h as int, pred@, x as int, y as int) == g@.cells_of(
                        kind,
                    ),
                decreases w - x,
            {
                let ghost rest = cells_where(w as int, h as int, pred@, x as int + 1, y as int);
                if self.is_kind_at(kind, x, y) {
                    let p = Vec2::new(x, y);
                    assert(r@.push(p) + rest =~= r@ + (seq![p] + rest));
                    r.push(p);
                }
                x += 1;
            }
            assert(cells_where(w as int, h as int, pred@, w as int, y as int) == cells_where(
                w as int,
                h as int,
                pred@,
                0,
                y as int + 1,
            ));
            y += 1;
        }
        assert(r@ =~= g@.cells_of(kind));
        proof {
            lemma_cells_where_len(w as int, h as int, pred@, 0, 0);
            assert(h * w == w * h) by (nonlinear_arith);
        }
        r
    }

    /// The candidate moves of the search: every empty cell next to a mark,
    /// and every empty cell next to one of those, in scan order. Empty on a
    /// board without marks.
    pub fn viable_moves(&self) -> (r: Vec<Vec2>)
        requires
            self.wf(),
        ensures
            r@ == self.game().cells_of(CellKind::Viable),
            r@.len() <= self.game().width * self.game().height,
    {
        self.cells_of(CellKind::Viable)
    }
}

} // verus!
