//! The lazy, finite, non-restartable sequence of lines a query returns.

use vstd::prelude::*;

verus! {

/// A forward cursor over a file's trimmed lines, beginning at a recorded
/// offset and running to the end of the file — the content is not bounded
/// to the function body.
pub struct ContentCursor {
    pub lines: Vec<String>,
    pub pos: usize,
}

impl ContentCursor {
    /// The line at the cursor, advancing past it; `None` once the content
    /// is exhausted.
    pub fn next(&mut self) -> (r: Option<String>)
        ensures
            old(self).pos < old(self).lines.deep_view().len() ==> {
                &&& r is Some
                &&& r->Some_0@ == old(self).lines.deep_view()[old(self).pos as int]
                &&& final(self).pos == old(self).pos + 1
                &&& final(self).lines.deep_view() == old(self).lines.deep_view()
            },
            old(self).pos >= old(self).lines.deep_view().len() ==> r is None && *final(self)
                == *old(self),
    {
        if self.pos < self.lines.len() {
            let s = self.lines[self.pos].clone();
            self.pos = self.pos + 1;
            Some(s)
        } else {
            None
        }
    }
}

/// A sequence that may be absent: the soft "not found" outcome of a query
/// is an `OptionIterator` with no underlying cursor, which yields nothing.
pub struct OptionIterator<I> {
    pub iter: Option<I>,
}

impl<I> OptionIterator<I> {
    /// Wrap an optional underlying sequence.
    pub fn new(iter: Option<I>) -> (r: OptionIterator<I>)
        ensures
            r.iter == iter,
    {
        OptionIterator { iter }
    }
}

impl OptionIterator<ContentCursor> {
    /// The next line of the underlying cursor; an absent cursor yields
    /// nothing.
    pub fn next(&mut self) -> (r: Option<String>)
        ensures
            match old(self).iter {
                None => r is None && final(self).iter is None,
                Some(c) => {
                    &&& final(self).iter is Some
                    &&& (c.pos < c.lines.deep_view().len() ==> {
                        &&& r is Some
                        &&& r->Some_0@ == c.lines.deep_view()[c.pos as int]
                        &&& final(self).iter->Some_0.pos == c.pos + 1
                        &&& final(self).iter->Some_0.lines.deep_view() == c.lines.deep_view()
                    })
                    &&& (c.pos >= c.lines.deep_view().len() ==> r is None
                        && final(self).iter->Some_0 == c)
                },
            },
    {
        let inner = self.iter.take();
        match inner {
            Some(mut c) => {
                let r = c.next();
                self.iter = Some(c);
                r
            },
            None => None,
        }
    }
}

} // verus!
