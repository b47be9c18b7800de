//! Decoding a tag from the body of a stored object.
//!
//! The body begins with four header lines, `object`, `type`, `tag` and
//! `tagger`, each a keyword, a space and a value. An empty line and the
//! message may follow.

use vstd::prelude::*;
use vstd::pervasive::unreached;
use vstd::string::StringSliceAdditionalSpecFns;
use crate::bytes::{bytes_eq, lemma_first_index, lemma_stands_at_within, stands_at, NEWLINE};
use crate::lines::{
    after_first_line, first_line, lemma_line_bounds, line_end, line_start, Lines,
};
use crate::object;
use crate::object::id::{decode_hex_id, hex_id_bytes, is_hex_id, Id};
use crate::object::parsed::fields::{lemma_tokens_fill_line, split2_at_space, split_at_space};
use crate::object::parsed::message::{lemma_message_places, message, parse_message};
use crate::object::parsed::signature::{lemma_signature_places, parse_signature, signature};
use crate::object::parsed::{parse_error, Error, ErrorView, Tag, TagView};
use crate::object::{kind_named, Kind};

verus! {

/// The value of the header line `line`, which must begin with `keyword` and a
/// space.
pub open spec fn header_value(line: Seq<u8>, keyword: Seq<u8>) -> Result<Seq<u8>, ErrorView> {
    match split_at_space(line) {
        None => Err(
            ErrorView::ParseError("Invalid tokens - expected 2 when split at space"@, line),
        ),
        Some((name, value)) => if name == keyword {
            Ok(value)
        } else {
            Err(
                ErrorView::ParseError(
                    "Invalid space separated tokens - validation failed"@,
                    line,
                ),
            )
        },
    }
}

/// The target that the `object` line names: an identifier in hexadecimal.
pub open spec fn target_value(line: Seq<u8>) -> Result<Seq<u8>, ErrorView> {
    match header_value(line, "object".spec_bytes()) {
        Ok(value) if !is_hex_id(value) => Err(
            ErrorView::ParseError("Invalid space separated tokens - validation failed"@, line),
        ),
        other => other,
    }
}

/// The kind that the `type` line names.
pub open spec fn kind_value(line: Seq<u8>) -> Result<Kind, ErrorView> {
    match header_value(line, "type".spec_bytes()) {
        Err(e) => Err(e),
        Ok(value) => match kind_named(value) {
            Some(kind) => Ok(kind),
            None => Err(ErrorView::ObjectKind(object::ErrorView::InvalidObjectKind(value))),
        },
    }
}

/// The tag that the four header lines and what is left of `d` behind them
/// describe. The first fault, in the order in which the parts stand in the
/// buffer, is the one reported.
pub open spec fn tag_of_lines(
    d: Seq<u8>,
    target_line: Seq<u8>,
    kind_line: Seq<u8>,
    name_line: Seq<u8>,
    tagger_line: Seq<u8>,
    rest: Option<Seq<u8>>,
) -> Result<TagView, ErrorView> {
    match target_value(target_line) {
        Err(e) => Err(e),
        Ok(target_raw) => match kind_value(kind_line) {
            Err(e) => Err(e),
            Ok(target_kind) => match header_value(name_line, "tag".spec_bytes()) {
                Err(e) => Err(e),
                Ok(name_raw) => match header_value(tagger_line, "tagger".spec_bytes()) {
                    Err(e) => Err(e),
                    Ok(tagger) => match signature(tagger) {
                        Err(e) => Err(e),
                        Ok(signature) => match message(d, rest) {
                            Err(e) => Err(e),
                            Ok((message, pgp_signature)) => Ok(
                                TagView {
                                    target_raw,
                                    name_raw,
                                    target_kind,
                                    message,
                                    pgp_signature,
                                    signature,
                                },
                            ),
                        },
                    },
                },
            },
        },
    }
}

/// The four header lines of `d` and what is left behind them; `None` for a
/// buffer with fewer than four lines, that is with fewer than three newlines.
pub open spec fn header_lines(d: Seq<u8>) -> Option<
    (Seq<u8>, Seq<u8>, Seq<u8>, Seq<u8>, Option<Seq<u8>>),
> {
    match after_first_line(d) {
        Some(behind_target) => match after_first_line(behind_target) {
            Some(behind_kind) => match after_first_line(behind_kind) {
                Some(behind_name) => Some(
                    (
                        first_line(d),
                        first_line(behind_target),
                        first_line(behind_kind),
                        first_line(behind_name),
                        after_first_line(behind_name),
                    ),
                ),
                None => None,
            },
            None => None,
        },
        None => None,
    }
}

/// What `Tag::from_bytes` returns for `d`.
///
/// A buffer that lacks one of the four header lines is refused as a whole.
pub open spec fn tag(d: Seq<u8>) -> Result<TagView, ErrorView> {
    match header_lines(d) {
        Some((target_line, kind_line, name_line, tagger_line, rest)) => tag_of_lines(
            d,
            target_line,
            kind_line,
            name_line,
            tagger_line,
            rest,
        ),
        None => Err(four_lines_expected(d)),
    }
}

/// The error for a buffer `d` that lacks one of the four header lines.
pub open spec fn four_lines_expected(d: Seq<u8>) -> ErrorView {
    ErrorView::ParseError("Expected four lines: target, type, tag and tagger"@, d)
}

/// The target of every decoded tag is an identifier in hexadecimal, so that
/// decoding it to its 20 bytes cannot fail.
pub proof fn lemma_decoded_target_is_hex_id(d: Seq<u8>)
    requires
        tag(d) is Ok,
    ensures
        is_hex_id(tag(d)->Ok_0.target_raw),
{
}

/// The header lines of a buffer are its lines of number 0 to 3, and what is
/// left behind them starts with the line of number 4.
pub proof fn lemma_header_lines_places(d: Seq<u8>)
    requires
        header_lines(d) is Some,
    ensures
        ({
            let (target_line, kind_line, name_line, tagger_line, rest) = header_lines(d)->Some_0;
            &&& stands_at(target_line, d, 0) && target_line.len() == line_end(d, 0)
            &&& stands_at(kind_line, d, line_start(d, 1))
            &&& stands_at(name_line, d, line_start(d, 2))
            &&& stands_at(tagger_line, d, line_start(d, 3))
            &&& line_start(d, 1) + kind_line.len() == line_end(d, 1)
            &&& line_start(d, 2) + name_line.len() == line_end(d, 2)
            &&& line_start(d, 3) + tagger_line.len() == line_end(d, 3)
            &&& rest matches Some(r) ==> stands_at(r, d, line_start(d, 4)) && line_start(d, 4)
                + r.len() == d.len()
        }),
{
    reveal_with_fuel(line_start, 5);
    reveal_with_fuel(line_end, 5);
    assert(d.skip(0) =~= d);
    lemma_line_bounds(d, 0);
    lemma_line_bounds(d, 1);
    lemma_line_bounds(d, 2);
    lemma_line_bounds(d, 3);
}

/// The value of a header line stands behind the keyword and one space, and
/// reaches to the end of the line.
pub proof fn lemma_header_value_place(line: Seq<u8>, keyword: Seq<u8>)
    ensures
        header_value(line, keyword) matches Ok(value) ==> {
            &&& stands_at(value, line, keyword.len() as int + 1)
            &&& keyword.len() + 1 + value.len() == line.len()
        },
{
    lemma_tokens_fill_line(line);
}

/// Every field of a decoded tag that holds bytes is, byte for byte, the range
/// of the buffer `d` at which it was found.
///
/// The target and the name stand behind the keywords of the first and the
/// third line, and end with their lines. The signer's name stands behind the
/// keyword of the fourth line, and the email behind the name, a space and an
/// angle bracket. The message begins with the sixth line, and the signature
/// block stands right behind it; a message that no block follows reaches to
/// the end of the buffer.
pub proof fn lemma_fields_are_views_of_buffer(d: Seq<u8>)
    requires
        tag(d) is Ok,
    ensures
        ({
            let t = tag(d)->Ok_0;
            let name = line_start(d, 2) + 4;
            let signer = line_start(d, 3) + 7;
            let body = line_start(d, 5);
            &&& stands_at(t.target_raw, d, 7) && 7 + t.target_raw.len() == line_end(d, 0)
            &&& stands_at(t.name_raw, d, name) && name + t.name_raw.len() == line_end(d, 2)
            &&& stands_at(t.signature.name, d, signer)
            &&& stands_at(t.signature.email, d, signer + t.signature.name.len() + 2)
            &&& signer + t.signature.name.len() + 2 + t.signature.email.len() < line_end(d, 3)
            &&& t.message matches Some(text) ==> stands_at(text, d, body)
            &&& t.pgp_signature matches Some(block) ==> t.message matches Some(text) && stands_at(
                block,
                d,
                body + text.len(),
            )
            &&& t.pgp_signature is None ==> (t.message matches Some(text) ==> body + text.len()
                == d.len())
        }),
{
    let t = tag(d)->Ok_0;
    let (target_line, kind_line, name_line, tagger_line, rest) = header_lines(d)->Some_0;
    lemma_header_lines_places(d);
    reveal_strlit("object");
    reveal_strlit("tag");
    reveal_strlit("tagger");
    assert("object".is_ascii() && "tag".is_ascii() && "tagger".is_ascii());

    lemma_header_value_place(target_line, "object".spec_bytes());
    lemma_stands_at_within(t.target_raw, target_line, d, 7, 0);

    lemma_header_value_place(name_line, "tag".spec_bytes());
    lemma_stands_at_within(t.name_raw, name_line, d, 4, line_start(d, 2));

    let tagger = header_value(tagger_line, "tagger".spec_bytes())->Ok_0;
    lemma_header_value_place(tagger_line, "tagger".spec_bytes());
    lemma_stands_at_within(tagger, tagger_line, d, 7, line_start(d, 3));
    lemma_signature_places(tagger);
    lemma_stands_at_within(t.signature.name, tagger, d, 0, line_start(d, 3) + 7);
    lemma_stands_at_within(
        t.signature.email,
        tagger,
        d,
        t.signature.name.len() as int + 2,
        line_start(d, 3) + 7,
    );

    if let Some(r) = rest {
        lemma_message_places(d, r);
        lemma_first_index(r, NEWLINE);
        if let Some(text) = t.message {
            lemma_stands_at_within(text, r, d, 1, line_start(d, 4));
        }
        if let Some(block) = t.pgp_signature {
            lemma_stands_at_within(
                block,
                r,
                d,
                1 + t.message->Some_0.len() as int,
                line_start(d, 4),
            );
        }
    }
}

impl<'data> Tag<'data> {
    /// The identifier of the target, decoded from its hexadecimal form.
    ///
    /// This cannot fail on a tag that `from_bytes` returned.
    pub fn target(&self) -> (id: Id)
        requires
            self.wf(),
        ensures
            id@ == hex_id_bytes(self.target_raw@),
    {
        match decode_hex_id(self.target_raw) {
            Ok(id) => id,
            Err(_) => unreached(),
        }
    }

    /// Decodes a tag from `d`, the body of a stored object.
    ///
    /// The first four lines must be the headers `object`, `type`, `tag` and
    /// `tagger`, in this order; the target must be 40 hexadecimal digits. The
    /// fields of the tag borrow from `d`. The first fault found ends the
    /// decoding, and no part of a tag is returned with it.
    pub fn from_bytes(d: &'data [u8]) -> (parsed: Result<Tag<'data>, Error>)
        ensures
            match parsed {
                Ok(t) => tag(d@) matches Ok(found) && found == t@ && t.wf(),
                Err(e) => tag(d@) matches Err(cause) && cause == e@,
            },
            header_lines(d@) is None ==> (parsed matches Err(e) && e@ == four_lines_expected(d@)),
            (header_lines(d@) matches Some(lines) && lines.4 is None) ==> (parsed matches Ok(t)
                ==> t.message is None && t.pgp_signature is None),
    {
        let mut lines = Lines::new(d);
        let target_line = lines.next();
        let kind_line = lines.next();
        let name_line = lines.next();
        let tagger_line = lines.next();
        let (target_line, kind_line, name_line, tagger_line) = match (
            target_line,
            kind_line,
            name_line,
            tagger_line,
        ) {
            (Some(target), Some(kind), Some(name), Some(tagger)) => (target, kind, name, tagger),
            _ => {
                return Err(parse_error("Expected four lines: target, type, tag and tagger", d));
            },
        };
        let is_target = |name: &[u8], value: &[u8]| -> (ok: bool)
            ensures
                ok == (name@ == "object".spec_bytes() && is_hex_id(value@)),
            {
                bytes_eq(name, "object".as_bytes()) && value.len() == 40 && decode_hex_id(
                    value,
                ).is_ok()
            };
        let (_, target_raw) = split2_at_space(target_line, is_target)?;
        let is_kind = |name: &[u8], _value: &[u8]| -> (ok: bool)
            ensures
                ok == (name@ == "type".spec_bytes()),
            { bytes_eq(name, "type".as_bytes()) };
        let (_, kind) = split2_at_space(kind_line, is_kind)?;
        let target_kind = match Kind::from_bytes(kind) {
            Ok(kind) => kind,
            Err(e) => {
                return Err(Error::from(e));
            },
        };
        let is_name = |name: &[u8], _value: &[u8]| -> (ok: bool)
            ensures
                ok == (name@ == "tag".spec_bytes()),
            { bytes_eq(name, "tag".as_bytes()) };
        let (_, name_raw) = split2_at_space(name_line, is_name)?;
        let is_tagger = |name: &[u8], _value: &[u8]| -> (ok: bool)
            ensures
                ok == (name@ == "tagger".spec_bytes()),
            { bytes_eq(name, "tagger".as_bytes()) };
        let (_, tagger) = split2_at_space(tagger_line, is_tagger)?;
        let signature = parse_signature(tagger)?;
        let (message, pgp_signature) = parse_message(d, lines)?;
        Ok(Tag { target_raw, name_raw, target_kind, message, pgp_signature, signature })
    }
}

} // verus!
