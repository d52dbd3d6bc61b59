//! Printing that survives a closed pipe.
//!
//! A reader that leaves is an ordinary thing. What it leaves behind is a stream that is written to
//! no more, and a command that runs to its own end.

use vstd::prelude::*;

verus! {

/// How a write ended.
#[derive(Clone, Copy, Debug, PartialEq, Eq, Structural)]
pub enum Written {
    Done,
    /// The reader has gone. That is for good.
    BrokenPipe,
    /// Something else failed. There is nowhere to report it.
    Failed,
}

/// A stream, and whether its reader has gone.
#[derive(Debug)]
pub struct Stream {
    gone: bool,
}

impl Stream {
    /// Whether the reader has gone.
    pub closed spec fn is_closed(&self) -> bool {
        self.gone
    }

    /// A stream with a reader.
    pub fn new() -> (s: Stream)
        ensures
            !s.is_closed(),
    {
        Stream { gone: false }
    }

    /// Whether the reader has gone.
    pub fn gone(&self) -> (r: bool)
        ensures
            r == self.is_closed(),
    {
        self.gone
    }

    /// What to write for `text`, with a line end behind it if asked for, or nothing at all where
    /// the reader has gone.
    pub fn write_to(&self, text: &str, newline: bool) -> (r: Option<String>)
        ensures
            match r {
                Some(s) => !self.is_closed() && s@ == text@ + if newline {
                    "\n"@
                } else {
                    seq![]
                },
                None => self.is_closed(),
            },
    {
        if self.gone {
            return None;
        }
        let mut s = text.to_owned();
        if newline {
            s.append("\n");
        }
        assert(s@ =~= text@ + if newline {
            "\n"@
        } else {
            seq![]
        });
        Some(s)
    }

    /// Takes note of how a write ended. Only a reader that has gone is remembered, and it never
    /// comes back.
    pub fn wrote(&mut self, how: Written)
        ensures
            final(self).is_closed() == (old(self).is_closed() || how == Written::BrokenPipe),
    {
        if how == Written::BrokenPipe {
            self.gone = true;
        }
    }
}

} // verus!
