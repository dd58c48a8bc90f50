use vstd::prelude::*;

use crate::vec2_range::Vec2Range;

verus! {

/// A pair of coordinates: a cell position (`Vec2<usize>`) or a step
/// between cells (`Vec2<isize>`).
#[derive(Debug, Clone, Copy, PartialEq, Eq, Structural, Default)]
pub struct Vec2<T = usize> {
    pub x: T,
    pub y: T,
}

impl<T> Vec2<T> {
    pub fn new(x: T, y: T) -> (r: Self)
        ensures
            r.x == x,
            r.y == y,
    {
        Vec2 { x, y }
    }

    /// The coordinate number `i`: 0 for x, 1 for y.
    pub fn index(&self, i: usize) -> (r: &T)
        requires
            i < 2,
        ensures
            *r == if i == 0 {
                self.x
            } else {
                self.y
            },
    {
        if i == 0 {
            &self.x
        } else {
            &self.y
        }
    }

    /// The coordinate number `i` to be changed: 0 for x, 1 for y.
    pub fn index_mut(&mut self, i: usize) -> (r: &mut T)
        requires
            i < 2,
        ensures
            i == 0 ==> *r == old(self).x && *final(self) == (Vec2 { x: *final(r), y: old(self).y }),
            i == 1 ==> *r == old(self).y && *final(self) == (Vec2 { x: old(self).x, y: *final(r) }),
    {
        if i == 0 {
            &mut self.x
        } else {
            &mut self.y
        }
    }

    pub fn tuple(self) -> (r: (T, T))
        ensures
            r == (self.x, self.y),
    {
        (self.x, self.y)
    }
}

/// `v` kept within `lo..=hi`.
pub open spec fn clamp_int(v: int, lo: int, hi: int) -> int {
    if v < lo {
        lo
    } else if v > hi {
        hi
    } else {
        v
    }
}

impl Vec2<usize> {
    /// Some coordinate is greater than that of `rhs`.
    pub fn gt_or(&self, rhs: Vec2) -> (r: bool)
        ensures
            r == (self.x > rhs.x || self.y > rhs.y),
    {
        self.x > rhs.x || self.y > rhs.y
    }

    /// Both coordinates are at least those of `rhs`.
    pub fn ge_and(&self, rhs: Vec2) -> (r: bool)
        ensures
            r == (self.x >= rhs.x && self.y >= rhs.y),
    {
        self.x >= rhs.x && self.y >= rhs.y
    }

    /// Some coordinate is less than that of `rhs`.
    pub fn lt_or(&self, rhs: Vec2) -> (r: bool)
        ensures
            r == (self.x < rhs.x || self.y < rhs.y),
    {
        self.x < rhs.x || self.y < rhs.y
    }

    /// Both coordinates are less than those of `rhs`.
    pub fn lt_and(&self, rhs: Vec2) -> (r: bool)
        ensures
            r == (self.x < rhs.x && self.y < rhs.y),
    {
        self.x < rhs.x && self.y < rhs.y
    }

    /// Some coordinate is at least that of `rhs`.
    pub fn ge_or(&self, rhs: Vec2) -> (r: bool)
        ensures
            r == (self.x >= rhs.x || self.y >= rhs.y),
    {
        self.x >= rhs.x || self.y >= rhs.y
    }

    /// The coordinates multiplied one by one.
    pub fn cmul(self, rhs: Vec2) -> (r: Vec2)
        requires
            self.x * rhs.x <= usize::MAX,
            self.y * rhs.y <= usize::MAX,
        ensures
            r.x == self.x * rhs.x,
            r.y == self.y * rhs.y,
    {
        Vec2::new(self.x * rhs.x, self.y * rhs.y)
    }

    /// The coordinates divided one by one, rounding down.
    pub fn cdiv(self, rhs: Vec2) -> (r: Vec2)
        requires
            rhs.x > 0,
            rhs.y > 0,
        ensures
            r.x == self.x / rhs.x,
            r.y == self.y / rhs.y,
    {
        Vec2::new(self.x / rhs.x, self.y / rhs.y)
    }

    /// The larger coordinate.
    pub fn max(self) -> (r: usize)
        ensures
            r == if self.x >= self.y {
                self.x
            } else {
                self.y
            },
    {
        if self.x >= self.y {
            self.x
        } else {
            self.y
        }
    }

    /// The smaller coordinate.
    pub fn min(self) -> (r: usize)
        ensures
            r == if self.x <= self.y {
                self.x
            } else {
                self.y
            },
    {
        if self.x <= self.y {
            self.x
        } else {
            self.y
        }
    }

    /// The larger of the two in each coordinate.
    pub fn cmax(self, other: Vec2) -> (r: Vec2)
        ensures
            r.x == if self.x >= other.x {
                self.x
            } else {
                other.x
            },
            r.y == if self.y >= other.y {
                self.y
            } else {
                other.y
            },
    {
        let x = if self.x >= other.x {
            self.x
        } else {
            other.x
        };
        let y = if self.y >= other.y {
            self.y
        } else {
            other.y
        };
        Vec2::new(x, y)
    }

    /// The smaller of the two in each coordinate.
    pub fn cmin(self, other: Vec2) -> (r: Vec2)
        ensures
            r.x == if self.x <= other.x {
                self.x
            } else {
                other.x
            },
            r.y == if self.y <= other.y {
                self.y
            } else {
                other.y
            },
    {
        let x = if self.x <= other.x {
            self.x
        } else {
            other.x
        };
        let y = if self.y <= other.y {
            self.y
        } else {
            other.y
        };
        Vec2::new(x, y)
    }

    /// Adds a signed step, wrapping around at the ends of `usize`.
    pub fn wrapping_add_signed(&mut self, other: Vec2<isize>) -> (r: Vec2)
        ensures
            *final(self) == *old(self),
            r.x == old(self).x.wrapping_add_signed(other.x),
            r.y == old(self).y.wrapping_add_signed(other.y),
    {
        Vec2::new(self.x.wrapping_add_signed(other.x), self.y.wrapping_add_signed(other.y))
    }

    /// Adds a signed step, stopping at 0 and at `usize::MAX`.
    pub fn saturating_add_signed(&mut self, other: Vec2<isize>) -> (r: Vec2)
        ensures
            *final(self) == *old(self),
            r.x == clamp_int(old(self).x + other.x, 0, usize::MAX as int),
            r.y == clamp_int(old(self).y + other.y, 0, usize::MAX as int),
    {
        Vec2::new(saturating_step(self.x, other.x), saturating_step(self.y, other.y))
    }

    /// Each coordinate kept between those of `min` and `max`.
    pub fn clamp(&self, min: Vec2, max: Vec2) -> (r: Vec2)
        requires
            min.x <= max.x,
            min.y <= max.y,
        ensures
            r.x == clamp_int(self.x as int, min.x as int, max.x as int),
            r.y == clamp_int(self.y as int, min.y as int, max.y as int),
    {
        let x = if self.x < min.x {
            min.x
        } else if self.x > max.x {
            max.x
        } else {
            self.x
        };
        let y = if self.y < min.y {
            min.y
        } else if self.y > max.y {
            max.y
        } else {
            self.y
        };
        Vec2::new(x, y)
    }

    /// Subtracts `other`, stopping at 0.
    pub fn saturating_sub(&self, other: Vec2) -> (r: Vec2)
        ensures
            r.x == clamp_int(self.x - other.x, 0, usize::MAX as int),
            r.y == clamp_int(self.y - other.y, 0, usize::MAX as int),
    {
        let x = if self.x > other.x {
            self.x - other.x
        } else {
            0
        };
        let y = if self.y > other.y {
            self.y - other.y
        } else {
            0
        };
        Vec2::new(x, y)
    }

    /// The positions from `self` up to `other` (exclusive), row by row.
    pub fn to(self, other: Vec2) -> (r: Vec2Range)
        ensures
            r.start() == self,
            r.end() == other,
            r.column() == self.x,
            r.wf(),
    {
        Vec2Range::new(self, other)
    }

    /// The coordinates as `isize`.
    pub fn signed(self) -> (r: Vec2<isize>)
        ensures
            r.x == self.x as isize,
            r.y == self.y as isize,
    {
        Vec2::new(self.x as isize, self.y as isize)
    }

    /// The product of the coordinates.
    pub fn prod(self) -> (r: usize)
        requires
            self.x * self.y <= usize::MAX,
        ensures
            r == self.x * self.y,
    {
        self.x * self.y
    }
}

impl Vec2<isize> {
    /// The coordinates as `usize`.
    pub fn unsigned(self) -> (r: Vec2)
        ensures
            r.x == self.x as usize,
            r.y == self.y as usize,
    {
        Vec2::new(self.x as usize, self.y as usize)
    }
}

/// `v + d`, kept within the range of `usize`.
fn saturating_step(v: usize, d: isize) -> (r: usize)
    ensures
        r == clamp_int(v + d, 0, usize::MAX as int),
{
    if d >= 0 {
        let u = d as usize;
        if v > usize::MAX - u {
            usize::MAX
        } else {
            v + u
        }
    } else {
        let u = (-(d + 1)) as usize + 1;
        if v < u {
            0
        } else {
            v - u
        }
    }
}

} // verus!
