//! Lines of two tokens with a space between them.

use vstd::prelude::*;
use crate::bytes::{find_byte, first_index, lemma_first_index, stands_at, SPACE};
use crate::object::parsed::{parse_error, Error, ErrorView};

verus! {

/// The two tokens of a line: what stands before its first space, and what
/// stands behind it. `None` where the line holds no space.
pub open spec fn split_at_space(line: Seq<u8>) -> Option<(Seq<u8>, Seq<u8>)> {
    let space = first_index(line, SPACE);
    if space < line.len() {
        Some((line.take(space), line.skip(space + 1)))
    } else {
        None
    }
}

/// The two tokens of a line, with a space between them, are that line, and the
/// first token holds no space.
pub proof fn lemma_tokens_fill_line(line: Seq<u8>)
    ensures
        split_at_space(line) matches Some((name, value)) ==> {
            &&& line == name + seq![SPACE] + value
            &&& !name.contains(SPACE)
            &&& stands_at(name, line, 0)
            &&& stands_at(value, line, name.len() as int + 1)
            &&& name.len() + 1 + value.len() == line.len()
        },
        split_at_space(line) is None <==> !line.contains(SPACE),
{
    lemma_first_index(line, SPACE);
    if let Some((name, value)) = split_at_space(line) {
        assert(line =~= name + seq![SPACE] + value);
    }
}

/// Splits `d` at its first space and asks `is_valid` whether the two tokens
/// are acceptable.
///
/// A line without a space has fewer than two tokens and is refused, as is a
/// line whose tokens `is_valid` rejects; both errors carry the whole line.
/// Otherwise the two tokens come back as they stand in `d`.
pub fn split2_at_space<'a>(d: &'a [u8], is_valid: impl FnOnce(&[u8], &[u8]) -> bool) -> (tokens:
    Result<(&'a [u8], &'a [u8]), Error>)
    requires
        forall|t1: &[u8], t2: &[u8]|
            split_at_space(d@) == Some((t1@, t2@)) ==> call_requires(is_valid, (t1, t2)),
    ensures
        split_at_space(d@) is None ==> tokens is Err,
        match tokens {
            Ok((t1, t2)) => {
                &&& split_at_space(d@) == Some((t1@, t2@))
                &&& call_ensures(is_valid, (t1, t2), true)
            },
            Err(e) => match split_at_space(d@) {
                None => e@ == ErrorView::ParseError(
                    "Invalid tokens - expected 2 when split at space"@,
                    d@,
                ),
                Some((a, b)) => {
                    &&& e@ == ErrorView::ParseError(
                        "Invalid space separated tokens - validation failed"@,
                        d@,
                    )
                    &&& exists|t1: &[u8], t2: &[u8]|
                        t1@ == a && t2@ == b && call_ensures(is_valid, (t1, t2), false)
                },
            },
        },
{
    let space = find_byte(d, SPACE);
    if space < d.len() {
        let t1 = &d[0..space];
        let t2 = &d[space + 1..d.len()];
        if !is_valid(t1, t2) {
            return Err(parse_error("Invalid space separated tokens - validation failed", d));
        }
        Ok((t1, t2))
    } else {
        Err(parse_error("Invalid tokens - expected 2 when split at space", d))
    }
}

} // verus!
