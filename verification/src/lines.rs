//! Walking a buffer line by line.

use vstd::prelude::*;
use crate::bytes::{find_byte, first_index, lemma_first_index, NEWLINE};

verus! {

/// The bytes of `s` up to its first newline, or all of `s` where it holds none.
pub open spec fn first_line(s: Seq<u8>) -> Seq<u8> {
    s.take(first_index(s, NEWLINE))
}

/// The bytes of `s` behind its first newline; `None` where `s` holds no newline.
pub open spec fn after_first_line(s: Seq<u8>) -> Option<Seq<u8>> {
    let end = first_index(s, NEWLINE);
    if end < s.len() {
        Some(s.skip(end + 1))
    } else {
        None
    }
}

/// Where in `s` the line of number `n` starts, the first line having number 0.
///
/// This is a place in `s` as long as `s` has such a line.
pub open spec fn line_start(s: Seq<u8>, n: nat) -> int
    decreases n, 0nat,
{
    if n == 0 {
        0
    } else {
        line_end(s, (n - 1) as nat) + 1
    }
}

/// Where in `s` the line of number `n` ends: at its newline, or at the end of
/// `s`.
pub open spec fn line_end(s: Seq<u8>, n: nat) -> int
    decreases n, 1nat,
{
    line_start(s, n) + first_index(s.skip(line_start(s, n)), NEWLINE)
}

/// The line that starts at `line_start(s, n)` reaches to `line_end(s, n)`, and
/// behind its newline starts the line of number `n + 1`.
pub proof fn lemma_line_bounds(s: Seq<u8>, n: nat)
    requires
        0 <= line_start(s, n) <= s.len(),
    ensures
        line_start(s, n) <= line_end(s, n) <= s.len(),
        first_line(s.skip(line_start(s, n))) == s.subrange(line_start(s, n), line_end(s, n)),
        after_first_line(s.skip(line_start(s, n))) == if line_end(s, n) < s.len() {
            Some(s.skip(line_start(s, n + 1)))
        } else {
            None
        },
{
    lemma_first_index(s.skip(line_start(s, n)), NEWLINE);
}

/// The lines of a buffer, split at each newline.
///
/// A buffer that ends in a newline has an empty last line; an empty buffer has
/// one empty line.
#[derive(Debug, Clone, Copy)]
pub struct Lines<'a> {
    rest: &'a [u8],
    finished: bool,
}

impl<'a> View for Lines<'a> {
    type V = Option<Seq<u8>>;

    /// The bytes that are still to be split, or `None` once the last line was handed out.
    closed spec fn view(&self) -> Option<Seq<u8>> {
        if self.finished {
            None
        } else {
            Some(self.rest@)
        }
    }
}

impl<'a> Lines<'a> {
    /// Starts at the first line of `buf`.
    pub fn new(buf: &'a [u8]) -> (lines: Lines<'a>)
        ensures
            lines@ == Some(buf@),
    {
        Lines { rest: buf, finished: false }
    }

    /// Hands out the next line, without its newline, and moves behind it.
    pub fn next(&mut self) -> (line: Option<&'a [u8]>)
        ensures
            match old(self)@ {
                Some(rest) => {
                    &&& line matches Some(l)
                    &&& l@ == first_line(rest)
                    &&& final(self)@ == after_first_line(rest)
                },
                None => line is None && final(self)@ is None,
            },
    {
        if self.finished {
            return None;
        }
        let rest = self.rest;
        let end = find_byte(rest, NEWLINE);
        if end < rest.len() {
            self.rest = &rest[end + 1..rest.len()];
        } else {
            self.finished = true;
        }
        Some(&rest[0..end])
    }

    /// The bytes behind the lines handed out so far; `None` once the last line was handed out.
    pub fn remainder(&self) -> (rest: Option<&'a [u8]>)
        ensures
            match self@ {
                Some(bytes) => rest matches Some(r) && r@ == bytes,
                None => rest is None,
            },
    {
        if self.finished {
            None
        } else {
            Some(self.rest)
        }
    }
}

} // verus!
