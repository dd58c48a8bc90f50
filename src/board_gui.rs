use vstd::prelude::*;

use crate::board::{Board, BoardView, Game};
use crate::suit::Suit;
use crate::vec2::{clamp_int, Vec2};

verus! {

/// Where the view of a board too large for the screen starts; `None` to
/// center it on the cursor when next drawn.
pub struct GuiState {
    view_pos: Option<Vec2>,
}

impl GuiState {
    pub closed spec fn view(&self) -> Option<Vec2> {
        self.view_pos
    }

    pub fn new() -> (r: GuiState)
        ensures
            r.view() is None,
    {
        GuiState { view_pos: None }
    }

    /// Scrolls the view by `off`, stopping at 0 and at `usize::MAX`; a view
    /// to be centered stays so.
    pub fn scroll_by(&mut self, off: Vec2<isize>)
        ensures
            old(self).view() is None ==> final(self).view() is None,
            old(self).view() matches Some(p) ==> final(self).view() == Some(
                Vec2::<usize> {
                    x: clamp_int(p.x + off.x, 0, usize::MAX as int) as usize,
                    y: clamp_int(p.y + off.y, 0, usize::MAX as int) as usize,
                },
            ),
    {
        if let Some(mut pos) = self.view_pos {
            self.view_pos = Some(pos.saturating_add_signed(off));
        }
    }

    /// The view is centered when next drawn.
    pub fn center(&mut self)
        ensures
            final(self).view() is None,
    {
        self.view_pos = None;
    }

    pub fn view_pos(&self) -> (r: Option<Vec2>)
        ensures
            r == self.view(),
    {
        self.view_pos
    }

    pub fn set_view_pos(&mut self, pos: Option<Vec2>)
        ensures
            final(self).view() == pos,
    {
        self.view_pos = pos;
    }
}

impl Board {
    /// Where something of size `required` starts when centered in
    /// `available` (at 0 where it does not fit).
    pub fn center(available: Vec2, required: Vec2) -> (r: Vec2)
        ensures
            r.x == clamp_int(available.x - required.x, 0, usize::MAX as int) / 2,
            r.y == clamp_int(available.y - required.y, 0, usize::MAX as int) / 2,
    {
        let free = available.saturating_sub(required);
        Vec2::new(free.x / 2, free.y / 2)
    }
}

/// How many cells of `len` fit in `space` screen cells on one axis, when a
/// cell takes `cell` screen cells and `margin` are kept free.
pub open spec fn view_len(space: int, margin: int, cell: int, len: int) -> int {
    let fit = clamp_int(space - margin, 0, usize::MAX as int) / cell;
    if fit <= len {
        fit
    } else {
        len
    }
}

/// Where a window of `size` cells on an axis of `len` ends: it starts at
/// `view` (or before the cursor `sel` if that is earlier), stays on the
/// axis, and is pushed on until it shows the cursor.
pub open spec fn window_end(view: int, sel: int, len: int, size: int) -> int {
    let near = if view <= sel {
        view
    } else {
        sel
    };
    let fitted = if near + size <= len {
        near + size
    } else {
        len
    };
    if fitted >= sel + 1 {
        fitted
    } else {
        sel + 1
    }
}

/// The end of the window on one axis (see `window_end`).
fn window_axis(view: usize, sel: usize, len: usize, size: usize) -> (r: usize)
    requires
        sel < len,
        1 <= size <= len,
    ensures
        r == window_end(view as int, sel as int, len as int, size as int),
        size <= r <= len,
        r - size <= sel < r,
{
    let near = if view <= sel {
        view
    } else {
        sel
    };
    let fitted = if near > len - size {
        len
    } else {
        near + size
    };
    if fitted >= sel + 1 {
        fitted
    } else {
        sel + 1
    }
}

impl Board {
    /// The cells of the board shown when it does not fit in `space` screen
    /// cells (four columns and two rows per cell, with a margin of five
    /// columns and four rows): from the first corner up to the second,
    /// exclusive. Starts at `view_pos`, or centered when it is `None`, and
    /// always shows the cursor. `None` when not even one cell fits.
    pub fn view_window(&self, view_pos: Option<Vec2>, space: Vec2) -> (r: Option<(Vec2, Vec2)>)
        requires
            self.wf(),
        ensures
            ({
                let g = self.game();
                let vx = view_len(space.x as int, 5, 4, g.width);
                let vy = view_len(space.y as int, 4, 2, g.height);
                let sel = self@.selected;
                let start = match view_pos {
                    Some(p) => p,
                    None => Vec2 {
                        x: ((g.width - vx) / 2) as usize,
                        y: ((g.height - vy) / 2) as usize,
                    },
                };
                &&& (vx < 1 || vy < 1) <==> r is None
                &&& r matches Some((tl, br)) ==> {
                    &&& br.x == window_end(start.x as int, sel.x as int, g.width, vx)
                    &&& br.y == window_end(start.y as int, sel.y as int, g.height, vy)
                    &&& tl.x == br.x - vx
                    &&& tl.y == br.y - vy
                    &&& br.x <= g.width
                    &&& br.y <= g.height
                    &&& tl.x <= sel.x < br.x
                    &&& tl.y <= sel.y < br.y
                }
            }),
    {
        let size = self.size();
        let sel = self.selected();
        let free = space.saturating_sub(Vec2::new(5, 4));
        let vx = if free.x / 4 <= size.x {
            free.x / 4
        } else {
            size.x
        };
        let vy = if free.y / 2 <= size.y {
            free.y / 2
        } else {
            size.y
        };
        if vx < 1 || vy < 1 {
            return None;
        }
        let start = match view_pos {
            Some(p) => p,
            None => Vec2::new((size.x - vx) / 2, (size.y - vy) / 2),
        };
        let bx = window_axis(start.x, sel.x, size.x, vx);
        let by = window_axis(start.y, sel.y, size.y, vy);
        Some((Vec2::new(bx - vx, by - vy), Vec2::new(bx, by)))
    }
}

/// How far `v` can still go along an axis of length `len` in the direction
/// of `d`.
pub open spec fn room(v: int, d: int, len: int) -> int {
    if d > 0 {
        len - v
    } else if d < 0 {
        v
    } else {
        0
    }
}

/// Where a step by (dx, dy) from (x, y) lands, each coordinate kept within
/// the range of `usize`.
pub open spec fn step_to(x: int, y: int, dx: int, dy: int) -> (int, int) {
    (clamp_int(x + dx, 0, usize::MAX as int), clamp_int(y + dy, 0, usize::MAX as int))
}

/// From (x, y), steps by (dx, dy) while the cell is empty (when `empty`)
/// or taken (when not), stopping before leaving the board or when a step
/// goes nowhere. (On a game that is not valid it stays put.)
pub open spec fn slide(g: Game, x: int, y: int, dx: int, dy: int, empty: bool) -> (int, int)
    decreases room(x, dx, g.width) + room(y, dy, g.height),
{
    if !g.valid() || !g.in_bounds(x, y) || (g.cell(x, y) == Suit::Empty) != empty {
        (x, y)
    } else {
        let (nx, ny) = step_to(x, y, dx, dy);
        if (nx == x && ny == y) || nx >= g.width || ny >= g.height {
            (x, y)
        } else {
            slide(g, nx, ny, dx, dy, empty)
        }
    }
}

impl Board {
    /// Where `slide` ends from `from`.
    fn slide_from(&self, from: Vec2, dir: Vec2<isize>, empty: bool) -> (r: Vec2)
        requires
            self.wf(),
            self.game().contains(from),
        ensures
            self.game().contains(r),
            (r.x as int, r.y as int) == slide(
                self.game(),
                from.x as int,
                from.y as int,
                dir.x as int,
                dir.y as int,
                empty,
            ),
    {
        let g = Ghost(self.game());
        let size = self.size();
        let mut pos = from;
        let ghost target = slide(g@, from.x as int, from.y as int, dir.x as int, dir.y as int, empty);
        while (self.at(pos) == Suit::Empty) == empty
            invariant
                self.wf(),
                g@ == self.game(),
                size.x == g@.width,
                size.y == g@.height,
                g@.contains(pos),
                slide(g@, pos.x as int, pos.y as int, dir.x as int, dir.y as int, empty) == target,
                target == slide(g@, from.x as int, from.y as int, dir.x as int, dir.y as int, empty),
            decreases room(pos.x as int, dir.x as int, g@.width) + room(
                pos.y as int,
                dir.y as int,
                g@.height,
            ),
        {
            let next = pos.saturating_add_signed(dir);
            assert((next.x as int, next.y as int) == step_to(
                pos.x as int,
                pos.y as int,
                dir.x as int,
                dir.y as int,
            ));
            if next == pos || next.ge_or(size) {
                assert(slide(g@, pos.x as int, pos.y as int, dir.x as int, dir.y as int, empty) == (
                    pos.x as int,
                    pos.y as int,
                ));
                return pos;
            }
            pos = next;
        }
        pos
    }

    /// Moves the cursor along `dir` past the next run of taken cells, to
    /// the first empty cell after it, stopping at the edge of the board.
    pub fn shift_selected(&mut self, dir: Vec2<isize>)
        requires
            old(self).wf(),
        ensures
            final(self).wf(),
            ({
                let g = old(self).game();
                let sel = old(self)@.selected;
                let (ax, ay) = slide(g, sel.x as int, sel.y as int, dir.x as int, dir.y as int, true);
                let (bx, by) = slide(g, ax, ay, dir.x as int, dir.y as int, false);
                final(self)@ == (BoardView {
                    selected: Vec2 { x: bx as usize, y: by as usize },
                    ..old(self)@
                })
            }),
    {
        let sel = self.selected();
        let first_taken = self.slide_from(sel, dir, true);
        let after = self.slide_from(first_taken, dir, false);
        self.set_selected(after);
    }
}

} // verus!
