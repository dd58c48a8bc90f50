use vstd::prelude::*;

use crate::board::{max_of, Board};
use crate::suit::Suit;
use crate::vec2::{clamp_int, Vec2};

verus! {

/// The board size used when none is given.
pub const DEFAULT_SIZE: usize = 15;

/// The longest win length used when none is given.
pub const DEFAULT_WIN_LEN: usize = 5;

/// Cells of `cell` screen characters that fit in `space` characters with
/// `margin` kept free, at least one.
pub open spec fn fit_cells(space: int, margin: int, cell: int) -> int {
    let n = clamp_int(space - margin, 0, usize::MAX as int) / cell;
    if n >= 1 {
        n
    } else {
        1
    }
}

/// The settings given on the command line.
pub struct Args {
    help: bool,
    size: Option<Vec2>,
    win_len: Option<usize>,
    use_color: Option<bool>,
}

impl Args {
    pub closed spec fn help_asked(&self) -> bool {
        self.help
    }

    pub closed spec fn size_given(&self) -> Option<Vec2> {
        self.size
    }

    pub closed spec fn win_len_given(&self) -> Option<usize> {
        self.win_len
    }

    pub closed spec fn color_given(&self) -> Option<bool> {
        self.use_color
    }

    /// The board size: as given, else 15 by 15.
    pub open spec fn board_size(&self) -> Vec2 {
        match self.size_given() {
            Some(s) => s,
            None => Vec2 { x: DEFAULT_SIZE, y: DEFAULT_SIZE },
        }
    }

    /// The win length: as given, else the larger board dimension, but at
    /// most 5.
    pub open spec fn win_len_spec(&self) -> int {
        match self.win_len_given() {
            Some(w) => w as int,
            None => {
                let m = max_of(self.board_size().x as int, self.board_size().y as int);
                if m <= DEFAULT_WIN_LEN {
                    m
                } else {
                    DEFAULT_WIN_LEN as int
                }
            },
        }
    }

    /// Nothing given.
    pub fn new() -> (r: Args)
        ensures
            !r.help_asked(),
            r.size_given() is None,
            r.win_len_given() is None,
            r.color_given() is None,
    {
        Args { help: false, size: None, win_len: None, use_color: None }
    }

    pub fn help(&self) -> (r: bool)
        ensures
            r == self.help_asked(),
    {
        self.help
    }

    /// The board size: as given, else 15 by 15.
    pub fn size(&self) -> (r: Vec2)
        ensures
            r == self.board_size(),
    {
        match self.size {
            Some(s) => s,
            None => Vec2::new(DEFAULT_SIZE, DEFAULT_SIZE),
        }
    }

    /// The win length: as given, else the larger board dimension, but at
    /// most 5.
    pub fn win_len(&self) -> (r: usize)
        ensures
            r == self.win_len_spec(),
    {
        match self.win_len {
            Some(w) => w,
            None => {
                let m = self.size().max();
                if m <= DEFAULT_WIN_LEN {
                    m
                } else {
                    DEFAULT_WIN_LEN
                }
            },
        }
    }

    /// Whether color was asked for (`Some(true)`), refused (`Some(false)`)
    /// or left to the terminal (`None`).
    pub fn use_color(&self) -> (r: Option<bool>)
        ensures
            r == self.color_given(),
    {
        self.use_color
    }

    /// Without a given size, takes the largest board that fits a screen of
    /// `screen` characters (four columns and two rows per cell, a column and
    /// two rows kept free), at least one cell each way. Nothing changes
    /// when a size was given or the screen size is unknown.
    pub fn finalize(&mut self, screen: Option<Vec2>)
        ensures
            final(self).help_asked() == old(self).help_asked(),
            final(self).win_len_given() == old(self).win_len_given(),
            final(self).color_given() == old(self).color_given(),
            old(self).size_given() is Some || screen is None ==> final(self).size_given()
                == old(self).size_given(),
            old(self).size_given() is None && screen is Some ==> final(self).size_given() == Some(
                Vec2::<usize> {
                    x: fit_cells(screen->Some_0.x as int, 1, 4) as usize,
                    y: fit_cells(screen->Some_0.y as int, 2, 2) as usize,
                },
            ),
    {
        if self.size.is_some() {
            return;
        }
        if let Some(s) = screen {
            let free = s.saturating_sub(Vec2::new(1, 2));
            let cells = free.cdiv(Vec2::new(4, 2)).cmax(Vec2::new(1, 1));
            self.size = Some(cells);
        }
    }

    /// The board these settings ask for: of `size()`, with `win_len()`.
    /// `None` when a dimension is 0, the board has more cells than a
    /// `usize` can count, or the win length is 0 or longer than the larger
    /// dimension.
    pub fn new_board(&self) -> (r: Option<Board>)
        ensures
            ({
                let s = self.board_size();
                let w = self.win_len_spec();
                let longest = max_of(s.x as int, s.y as int);
                &&& (s.x >= 1 && s.y >= 1 && s.x * s.y <= usize::MAX && 1 <= w <= longest)
                    <==> r is Some
                &&& r matches Some(b) ==> {
                    &&& b.wf()
                    &&& b.game().width == s.x
                    &&& b.game().height == s.y
                    &&& b.game().win_len == w
                    &&& b.game().turn == Suit::Cross
                    &&& forall|x: int, y: int|
                        b.game().in_bounds(x, y) ==> b.game().cell(x, y) == Suit::Empty
                }
            }),
    {
        let s = self.size();
        if s.x == 0 || s.y == 0 || s.x > usize::MAX / s.y {
            proof {
                if s.x >= 1 && s.y >= 1 {
                    assert(s.x * s.y > usize::MAX) by (nonlinear_arith)
                        requires
                            s.y >= 1,
                            s.x > usize::MAX / s.y,
                    ;
                }
            }
            return None;
        }
        proof {
            assert(s.x * s.y <= usize::MAX) by (nonlinear_arith)
                requires
                    s.y >= 1,
                    s.x <= usize::MAX / s.y,
            ;
        }
        let longest = s.max();
        let w = self.win_len();
        if w < 1 || w > longest {
            return None;
        }
        Some(Board::new(s, w))
    }

    /// Whether a board size was given.
    pub fn has_size(&self) -> (r: bool)
        ensures
            r == self.size_given() is Some,
    {
        self.size.is_some()
    }

    pub fn set_help(&mut self, help: bool)
        ensures
            final(self).help_asked() == help,
            final(self).size_given() == old(self).size_given(),
            final(self).win_len_given() == old(self).win_len_given(),
            final(self).color_given() == old(self).color_given(),
    {
        self.help = help;
    }

    pub fn set_size(&mut self, size: Option<Vec2>)
        ensures
            final(self).help_asked() == old(self).help_asked(),
            final(self).size_given() == size,
            final(self).win_len_given() == old(self).win_len_given(),
            final(self).color_given() == old(self).color_given(),
    {
        self.size = size;
    }

    pub fn set_win_len(&mut self, win_len: Option<usize>)
        ensures
            final(self).help_asked() == old(self).help_asked(),
            final(self).size_given() == old(self).size_given(),
            final(self).win_len_given() == win_len,
            final(self).color_given() == old(self).color_given(),
    {
        self.win_len = win_len;
    }

    pub fn set_use_color(&mut self, use_color: Option<bool>)
        ensures
            final(self).help_asked() == old(self).help_asked(),
            final(self).size_given() == old(self).size_given(),
            final(self).win_len_given() == old(self).win_len_given(),
            final(self).color_given() == use_color,
    {
        self.use_color = use_color;
    }
}

} // verus!
