use vstd::prelude::*;
use vstd::string::StringExecFns;

use crate::append_str::AppendStr;
use crate::vec2::Vec2;

verus! {

/// `s` written `n` times.
pub open spec fn repeated(s: Seq<char>, n: int) -> Seq<char>
    decreases n,
{
    if n <= 0 {
        seq![]
    } else {
        repeated(s, n - 1) + s
    }
}

/// Text to be sent to a terminal at once, and the origin that cursor
/// positions are taken from.
pub struct DrawBuffer {
    buf: String,
    base: Vec2,
}

impl DrawBuffer {
    pub closed spec fn text(&self) -> Seq<char> {
        self.buf@
    }

    pub closed spec fn origin(&self) -> Vec2 {
        self.base
    }

    /// An empty buffer with its origin at (0, 0).
    pub fn new() -> (r: DrawBuffer)
        ensures
            r.text().len() == 0,
            r.origin().x == 0,
            r.origin().y == 0,
    {
        DrawBuffer { buf: String::new(), base: Vec2::new(0, 0) }
    }

    /// Moves the origin by `change`.
    pub fn add_base(&mut self, change: Vec2)
        requires
            old(self).origin().x + change.x <= usize::MAX,
            old(self).origin().y + change.y <= usize::MAX,
        ensures
            final(self).text() == old(self).text(),
            final(self).origin().x == old(self).origin().x + change.x,
            final(self).origin().y == old(self).origin().y + change.y,
    {
        self.base = Vec2::new(self.base.x + change.x, self.base.y + change.y);
    }

    pub fn set_base(&mut self, base: Vec2)
        ensures
            final(self).text() == old(self).text(),
            final(self).origin() == base,
    {
        self.base = base;
    }

    /// The origin.
    pub fn base(&self) -> (r: Vec2)
        ensures
            r == self.origin(),
    {
        self.base
    }

    /// Adds `s` to the text.
    pub fn draw<S: AppendStr>(&mut self, s: S)
        ensures
            final(self).text() == old(self).text() + s.text(),
            final(self).origin() == old(self).origin(),
    {
        s.append_to(&mut self.buf);
    }

    /// Adds `s` to the text `cnt` times.
    pub fn repeat<S: AppendStr>(&mut self, cnt: usize, s: S)
        ensures
            final(self).text() == old(self).text() + repeated(s.text(), cnt as int),
            final(self).origin() == old(self).origin(),
    {
        let mut i: usize = 0;
        while i < cnt
            invariant
                i <= cnt,
                self.buf@ == old(self).buf@ + repeated(s.text(), i as int),
                self.base == old(self).base,
            decreases cnt - i,
        {
            s.append_to(&mut self.buf);
            proof {
                assert(old(self).buf@ + repeated(s.text(), i + 1) =~= old(self).buf@ + repeated(
                    s.text(),
                    i as int,
                ) + s.text());
            }
            i += 1;
        }
    }

    /// The text so far.
    pub fn as_str(&self) -> (r: &str)
        ensures
            r@ == self.text(),
    {
        self.buf.as_str()
    }

    /// Hands out the text and leaves the buffer empty.
    pub fn take(&mut self) -> (r: String)
        ensures
            r@ == old(self).text(),
            final(self).text().len() == 0,
            final(self).origin() == old(self).origin(),
    {
        let mut out = String::new();
        out.append(self.buf.as_str());
        self.buf = String::new();
        out
    }
}

} // verus!
