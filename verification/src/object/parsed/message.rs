//! The message of a tag, and the signature block that may follow it.
//!
//! Behind the header lines stands one empty line, and behind that the body.
//! The body is the message, unless one of its lines begins a signature block:
//! then the message is what stands before that line, and the block runs from
//! there to the end of the line that closes it, the newline included. What
//! stands behind the closing line belongs to neither.

use vstd::prelude::*;
use vstd::string::StringSliceAdditionalSpecFns;
use crate::bytes::{
    find_byte, lemma_first_index, lemma_stands_at_within, stands_at, starts_with, NEWLINE,
};
use crate::lines::{after_first_line, first_line, Lines};
use crate::object::parsed::{bytes_of, parse_error, Error, ErrorView};

verus! {

/// What the line that opens a signature block begins with.
pub open spec fn pgp_signature_begin() -> Seq<u8> {
    "-----BEGIN PGP SIGNATURE-----".spec_bytes()
}

/// What the line that closes a signature block begins with.
pub open spec fn pgp_signature_end() -> Seq<u8> {
    "-----END PGP SIGNATURE-----".spec_bytes()
}

/// Where in `s` the first line that begins with `marker` starts; `None` where
/// no line of `s` does.
pub open spec fn marker_line(s: Seq<u8>, marker: Seq<u8>) -> Option<int>
    decreases s.len(),
    via marker_line_decreases
{
    if marker.is_prefix_of(first_line(s)) {
        Some(0)
    } else {
        match after_first_line(s) {
            None => None,
            Some(rest) => match marker_line(rest, marker) {
                None => None,
                Some(at) => Some(s.len() - rest.len() + at),
            },
        }
    }
}

#[via_fn]
proof fn marker_line_decreases(s: Seq<u8>, marker: Seq<u8>) {
    lemma_first_index(s, NEWLINE);
}

/// Where in `s` the line behind the one at `at` starts; `s.len()` where the
/// line at `at` is the last one.
pub open spec fn next_line(s: Seq<u8>, at: int) -> int {
    match after_first_line(s.skip(at)) {
        Some(rest) => s.len() - rest.len(),
        None => s.len() as int,
    }
}

/// Where the signature block that opens at `begin` ends: behind the first
/// line, of those that follow the opening line, that begins with the closing
/// marker. `None` where no such line follows.
pub open spec fn signature_block_end(body: Seq<u8>, begin: int) -> Option<int> {
    match after_first_line(body.skip(begin)) {
        None => None,
        Some(rest) => match marker_line(rest, pgp_signature_end()) {
            None => None,
            Some(at) => Some(next_line(body, body.len() - rest.len() + at)),
        },
    }
}

/// What `parse_message` returns for the buffer `d` and the lines that are left
/// of it: the message and the signature block.
pub open spec fn message(d: Seq<u8>, lines: Option<Seq<u8>>) -> Result<
    (Option<Seq<u8>>, Option<Seq<u8>>),
    ErrorView,
> {
    match lines {
        None => Ok((None, None)),
        Some(rest) => if first_line(rest).len() > 0 {
            Err(
                ErrorView::ParseError(
                    "Expected empty newline to separate message"@,
                    first_line(rest),
                ),
            )
        } else {
            match after_first_line(rest) {
                None => Ok((None, None)),
                Some(body) => match marker_line(body, pgp_signature_begin()) {
                    None => Ok((Some(body), None)),
                    Some(begin) => match signature_block_end(body, begin) {
                        None => Err(
                            ErrorView::ParseError("Didn't find end of signature marker"@, d),
                        ),
                        Some(end) => Ok(
                            (Some(body.take(begin)), Some(body.subrange(begin, end))),
                        ),
                    },
                },
            }
        },
    }
}

/// A marker line starts inside the sequence, and the marker stands there.
pub proof fn lemma_marker_line(s: Seq<u8>, marker: Seq<u8>)
    ensures
        marker_line(s, marker) matches Some(at) ==> 0 <= at <= s.len() && marker.is_prefix_of(
            s.skip(at),
        ),
    decreases s.len(),
{
    lemma_first_index(s, NEWLINE);
    if !marker.is_prefix_of(first_line(s)) {
        if let Some(rest) = after_first_line(s) {
            lemma_marker_line(rest, marker);
        }
    }
}

/// The message stands right behind the empty line, and the signature block
/// right behind the message. A message that no block follows reaches to the
/// end.
pub proof fn lemma_message_places(d: Seq<u8>, rest: Seq<u8>)
    ensures
        message(d, Some(rest)) matches Ok((text, block)) ==> {
            &&& text matches Some(t) ==> stands_at(t, rest, 1)
            &&& block matches Some(b) ==> text matches Some(t) && stands_at(
                b,
                rest,
                1 + t.len() as int,
            )
            &&& block is None ==> (text matches Some(t) ==> 1 + t.len() == rest.len())
        },
{
    lemma_first_index(rest, NEWLINE);
    if let Ok((_, Some(block))) = message(d, Some(rest)) {
        let body = after_first_line(rest)->Some_0;
        let begin = marker_line(body, pgp_signature_begin())->Some_0;
        lemma_marker_line(body, pgp_signature_begin());
        let opening = body.skip(begin);
        lemma_first_index(opening, NEWLINE);
        let behind = after_first_line(opening)->Some_0;
        lemma_marker_line(behind, pgp_signature_end());
        let closing = body.len() - behind.len() + marker_line(behind, pgp_signature_end())->Some_0;
        lemma_first_index(body.skip(closing), NEWLINE);
        lemma_stands_at_within(body.take(begin), body, rest, 0, 1);
        lemma_stands_at_within(block, body, rest, begin, 1);
    }
}

/// Finds the first line of `s` that begins with `marker`.
pub fn find_marker_line(s: &[u8], marker: &[u8]) -> (found: Option<usize>)
    ensures
        match found {
            Some(at) => marker_line(s@, marker@) == Some(at as int) && at <= s@.len(),
            None => marker_line(s@, marker@) is None,
        },
{
    let mut start: usize = 0;
    assert(s@.skip(0) =~= s@);
    loop
        invariant
            start <= s@.len(),
            marker_line(s@, marker@) == match marker_line(s@.skip(start as int), marker@) {
                Some(at) => Some(start + at),
                None => None,
            },
        decreases s@.len() - start,
    {
        let rest = &s[start..s.len()];
        let end = find_byte(rest, NEWLINE);
        if starts_with(&rest[0..end], marker) {
            return Some(start);
        }
        if end == rest.len() {
            return None;
        }
        assert(rest@.skip(end + 1) =~= s@.skip(start + end + 1));
        start = start + end + 1;
    }
}

/// Reads the message and the signature block from the lines that follow the
/// headers of `d`.
///
/// With no line left there is neither. Else the next line must be empty. What
/// stands behind it is the body; with no byte and no newline behind it there
/// is no message.
/// An opening marker without a closing marker on one of the lines behind it
/// is refused, and that error carries all of `d`.
pub fn parse_message<'data>(d: &'data [u8], lines: Lines<'data>) -> (parsed: Result<
    (Option<&'data [u8]>, Option<&'data [u8]>),
    Error,
>)
    ensures
        match parsed {
            Ok((text, block)) => message(d@, lines@) matches Ok(found) && found == (
                bytes_of(text),
                bytes_of(block),
            ),
            Err(e) => message(d@, lines@) matches Err(cause) && cause == e@,
        },
        match lines@ {
            None => parsed matches Ok((None, None)),
            Some(rest) => if first_line(rest).len() > 0 {
                parsed is Err
            } else {
                match after_first_line(rest) {
                    None => parsed matches Ok((None, None)),
                    Some(body) => {
                        &&& parsed matches Ok((text, _)) ==> text is Some
                        &&& marker_line(body, pgp_signature_begin()) is None ==> (parsed matches Ok(
                            (Some(text), None),
                        ) && text@ == body)
                    },
                }
            },
        },
{
    let mut lines = lines;
    let separator = match lines.next() {
        Some(line) => line,
        None => {
            return Ok((None, None));
        },
    };
    if separator.len() != 0 {
        return Err(parse_error("Expected empty newline to separate message", separator));
    }
    let body = match lines.remainder() {
        Some(body) => body,
        None => {
            return Ok((None, None));
        },
    };
    let begin = match find_marker_line(body, "-----BEGIN PGP SIGNATURE-----".as_bytes()) {
        Some(begin) => begin,
        None => {
            return Ok((Some(body), None));
        },
    };
    let opening = &body[begin..body.len()];
    let opening_end = find_byte(opening, NEWLINE);
    if opening_end == opening.len() {
        return Err(parse_error("Didn't find end of signature marker", d));
    }
    let after_opening = begin + opening_end + 1;
    let behind = &body[after_opening..body.len()];
    assert(behind@ =~= opening@.skip(opening_end + 1));
    let closing = match find_marker_line(behind, "-----END PGP SIGNATURE-----".as_bytes()) {
        Some(at) => after_opening + at,
        None => {
            return Err(parse_error("Didn't find end of signature marker", d));
        },
    };
    let closing_line = &body[closing..body.len()];
    let closing_end = closing + find_byte(closing_line, NEWLINE);
    let end = if closing_end < body.len() {
        closing_end + 1
    } else {
        body.len()
    };
    Ok((Some(&body[0..begin]), Some(&body[begin..end])))
}

} // verus!
