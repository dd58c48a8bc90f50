use vstd::prelude::*;

use crate::vec2::Vec2;

verus! {

/// A rectangular part of a grid stored row by row in a slice: `size`
/// cells from `start`, in a grid of `whole_size`.
#[derive(Clone, Copy)]
pub struct Slice2d<'a, T> {
    slice: &'a [T],
    whole_size: Vec2,
    start: Vec2,
    size: Vec2,
}

impl<'a, T> Slice2d<'a, T> {
    pub closed spec fn cells(&self) -> Seq<T> {
        self.slice@
    }

    pub closed spec fn whole(&self) -> Vec2 {
        self.whole_size
    }

    pub closed spec fn first(&self) -> Vec2 {
        self.start
    }

    pub closed spec fn extent(&self) -> Vec2 {
        self.size
    }

    /// The rectangle lies within the grid, and the slice holds the grid.
    pub open spec fn wf(&self) -> bool {
        &&& self.cells().len() == self.whole().x * self.whole().y
        &&& self.first().x + self.extent().x <= self.whole().x
        &&& self.first().y + self.extent().y <= self.whole().y
    }

    pub fn new(slice: &'a [T], whole_size: Vec2, start: Vec2, size: Vec2) -> (r: Self)
        ensures
            r.cells() == slice@,
            r.whole() == whole_size,
            r.first() == start,
            r.extent() == size,
    {
        Slice2d { slice, whole_size, start, size }
    }

    pub fn size(&self) -> (r: Vec2)
        ensures
            r == self.extent(),
    {
        self.size
    }

    pub fn start(&self) -> (r: Vec2)
        ensures
            r == self.first(),
    {
        self.start
    }

    /// The corner just past the rectangle.
    pub fn end(&self) -> (r: Vec2)
        requires
            self.wf(),
        ensures
            r.x == self.first().x + self.extent().x,
            r.y == self.first().y + self.extent().y,
    {
        Vec2::new(self.start.x + self.size.x, self.start.y + self.size.y)
    }

    /// `idx`, in coordinates of the whole grid, lies in the rectangle.
    pub fn contains(&self, idx: Vec2) -> (r: bool)
        requires
            self.wf(),
        ensures
            r == (self.first().x <= idx.x < self.first().x + self.extent().x && self.first().y
                <= idx.y < self.first().y + self.extent().y),
    {
        idx.ge_and(self.start()) && idx.lt_and(self.end())
    }

    /// The cell at `idx`, in coordinates relative to the rectangle.
    pub fn get(&self, idx: Vec2) -> (r: &T)
        requires
            self.wf(),
            idx.x < self.extent().x,
            idx.y < self.extent().y,
        ensures
            *r == self.cells()[(idx.y + self.first().y) * self.whole().x + idx.x
                + self.first().x],
    {
        let _n = self.slice.len();
        let y = idx.y + self.start.y;
        let x = idx.x + self.start.x;
        proof {
            let w = self.whole_size.x as int;
            let h = self.whole_size.y as int;
            assert(0 <= y * w + x < w * h) by (nonlinear_arith)
                requires
                    0 <= x < w,
                    0 <= y < h,
            ;
        }
        &self.slice[y * self.whole_size.x + x]
    }
}

} // verus!
