use vstd::prelude::*;
use vstd::string::StringExecFns;

verus! {

/// Text that can be added to the end of a `String`.
pub trait AppendStr {
    /// The characters added.
    spec fn text(&self) -> Seq<char>;

    fn append_to(&self, out: &mut String)
        ensures
            final(out)@ == old(out)@ + self.text(),
    ;

    /// The number of bytes added.
    fn append_len(&self) -> usize;
}

impl<'a> AppendStr for &'a str {
    open spec fn text(&self) -> Seq<char> {
        (**self)@
    }

    fn append_to(&self, out: &mut String) {
        out.append(*self);
    }

    fn append_len(&self) -> usize {
        (**self).len()
    }
}

impl AppendStr for String {
    open spec fn text(&self) -> Seq<char> {
        self@
    }

    fn append_to(&self, out: &mut String) {
        out.append(self.as_str());
    }

    fn append_len(&self) -> usize {
        self.as_str().len()
    }
}

impl AppendStr for char {
    open spec fn text(&self) -> Seq<char> {
        seq![*self]
    }

    fn append_to(&self, out: &mut String) {
        push_char(out, *self);
    }

    fn append_len(&self) -> usize {
        utf8_len(*self)
    }
}

/// The number of bytes of `c` in UTF-8.
pub open spec fn utf8_len_of(c: char) -> int {
    if (c as u32) < 0x80 {
        1
    } else if (c as u32) < 0x800 {
        2
    } else if (c as u32) < 0x10000 {
        3
    } else {
        4
    }
}

/// The number of bytes of `c` in UTF-8.
pub fn utf8_len(c: char) -> (r: usize)
    ensures
        r == utf8_len_of(c),
{
    let v = c as u32;
    if v < 0x80 {
        1
    } else if v < 0x800 {
        2
    } else if v < 0x10000 {
        3
    } else {
        4
    }
}

/// Relies on `String::push`: `c` is added at the end.
#[verifier::external_body]
fn push_char(out: &mut String, c: char)
    ensures
        final(out)@ == old(out)@.push(c),
{
    out.push(c)
}

} // verus!
