use vstd::prelude::*;

use crate::vec2::Vec2;

verus! {

/// The positions of a rectangle, row by row and left to right in each
/// row: x runs over `start.x..end.x` and y over `start.y..end.y`.
pub struct Vec2Range {
    start: Vec2,
    x: usize,
    end: Vec2,
}

impl Vec2Range {
    /// The first column and the row to come.
    pub closed spec fn start(&self) -> Vec2 {
        self.start
    }

    pub closed spec fn end(&self) -> Vec2 {
        self.end
    }

    /// The column of the next position.
    pub closed spec fn column(&self) -> usize {
        self.x
    }

    /// The column lies from the first column up to the end, or stays at the
    /// first column when the rectangle has no columns.
    pub open spec fn wf(&self) -> bool {
        &&& self.start().x <= self.column()
        &&& (self.column() <= self.end().x || self.column() == self.start().x)
    }

    /// No position is left: the rows or the columns have run out.
    pub open spec fn exhausted(&self) -> bool {
        self.start().y >= self.end().y || self.start().x >= self.end().x
    }

    pub fn new(start: Vec2, end: Vec2) -> (r: Vec2Range)
        ensures
            r.wf(),
            r.start() == start,
            r.end() == end,
            r.column() == start.x,
    {
        Vec2Range { start, x: start.x, end }
    }

    /// The next position, or `None` once the rectangle is done (at once when
    /// it is empty).
    pub fn next(&mut self) -> (r: Option<Vec2>)
        ensures
            old(self).wf() ==> final(self).wf(),
            r is None ==> final(self).exhausted(),
            old(self).wf() && old(self).exhausted() ==> r is None && *final(self) == *old(self),
            final(self).end() == old(self).end(),
            final(self).start().x == old(self).start().x,
            old(self).column() >= old(self).end().x && old(self).column() == old(self).start().x
                ==> r is None && *final(self) == *old(self),
            ({
                let wraps = old(self).column() >= old(self).end().x && old(self).column()
                    != old(self).start().x;
                let row = if wraps {
                    old(self).start().y + 1
                } else {
                    old(self).start().y as int
                };
                let col = if wraps {
                    old(self).start().x
                } else {
                    old(self).column()
                };
                !(old(self).column() >= old(self).end().x && old(self).column()
                    == old(self).start().x) ==> if row >= old(self).end().y || col >= old(self).end().x {
                    r is None
                } else {
                    r == Some(Vec2 { x: col, y: row as usize }) && final(self).column() == col + 1
                        && final(self).start().y == row
                }
            }),
    {
        if self.x >= self.end.x {
            if self.x == self.start.x {
                return None;
            }
            if self.start.y >= self.end.y {
                return None;
            }
            self.x = self.start.x;
            self.start.y = self.start.y + 1;
        }
        if self.start.y >= self.end.y {
            return None;
        }
        if self.x >= self.end.x {
            return None;
        }
        self.x = self.x + 1;
        Some(Vec2::new(self.x - 1, self.start.y))
    }
}

} // verus!
