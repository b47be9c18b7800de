//! Signatures of the form `name <email> seconds offset`.

use vstd::prelude::*;
use crate::bytes::{find_byte, first_index, lemma_first_index, stands_at};
use crate::decimal::{decimal_u32, parse_u32};
use crate::object::parsed::fields::{split2_at_space, split_at_space};
use crate::object::parsed::timezone::{parse_timezone_offset, timezone_offset};
use crate::object::parsed::{parse_error, Error, ErrorView, Signature, SignatureView};
use crate::time::Time;

verus! {

/// The byte that opens an email.
pub const EMAIL_BEGIN: u8 = '<' as u8;

/// The byte that closes an email.
pub const EMAIL_END: u8 = '>' as u8;

/// Where the email of `d` opens: the index of its first `<`, or `d.len()`.
pub open spec fn email_begin(d: Seq<u8>) -> int {
    first_index(d, EMAIL_BEGIN)
}

/// Where the email of `d` closes: the index of the first `>` at or behind its
/// first `<`, or `d.len()`.
pub open spec fn email_end(d: Seq<u8>) -> int {
    email_begin(d) + first_index(d.skip(email_begin(d)), EMAIL_END)
}

/// What `parse_signature` returns for `d`.
///
/// The name ends one byte before the `<`, the email stands between `<` and
/// `>`, and the time begins two bytes behind the `>`: seconds, a space, and a
/// timezone offset. A fault in the offset is reported before one in the
/// seconds.
pub open spec fn signature(d: Seq<u8>) -> Result<SignatureView, ErrorView> {
    let begin = email_begin(d);
    let end = email_end(d);
    if begin >= d.len() {
        Err(ErrorView::ParseError("Could not find beginning of email marked by '<'"@, d))
    } else if begin == 0 {
        Err(ErrorView::ParseError("Email found in place of author name"@, d))
    } else if end >= d.len() {
        Err(ErrorView::ParseError("Could not find end of email marked by '>'"@, d))
    } else if end + 2 >= d.len() {
        Err(ErrorView::ParseError("There is no time after email"@, d))
    } else {
        match split_at_space(d.skip(end + 2)) {
            None => Err(
                ErrorView::ParseError(
                    "Invalid tokens - expected 2 when split at space"@,
                    d.skip(end + 2),
                ),
            ),
            Some((seconds, offset)) => match timezone_offset(offset) {
                Err(e) => Err(e),
                Ok((offset, sign)) => match decimal_u32(seconds) {
                    None => Err(ErrorView::ParseError("Could parse to seconds"@, seconds)),
                    Some(seconds) => Ok(
                        SignatureView {
                            name: d.take(begin - 1),
                            email: d.subrange(begin + 1, end),
                            time: Time { seconds, offset, sign },
                        },
                    ),
                },
            },
        }
    }
}

/// The name of a signature stands at the start of the line it was decoded
/// from, and the email two bytes behind the name, between the first `<` of the
/// line and the first `>` behind it. Behind that `>` there is room for a space
/// and a time.
pub proof fn lemma_signature_places(d: Seq<u8>)
    ensures
        signature(d) matches Ok(s) ==> {
            &&& stands_at(s.name, d, 0)
            &&& stands_at(s.email, d, s.name.len() as int + 2)
            &&& d[s.name.len() as int + 1] == EMAIL_BEGIN
            &&& d[s.name.len() as int + 2 + s.email.len()] == EMAIL_END
            &&& !s.name.contains(EMAIL_BEGIN)
            &&& !s.email.contains(EMAIL_END)
            &&& s.name.len() + 2 + s.email.len() + 2 < d.len()
        },
{
    lemma_first_index(d, EMAIL_BEGIN);
    lemma_first_index(d.skip(email_begin(d)), EMAIL_END);
    if let Ok(s) = signature(d) {
        let begin = email_begin(d);
        let end = email_end(d);
        assert(d.skip(begin)[end - begin] == d[end]);
        assert forall|i: int| 0 <= i < s.email.len() implies s.email[i] != EMAIL_END by {
            assert(s.email[i] == d.skip(begin)[i + 1]);
        }
        assert forall|i: int| 0 <= i < s.name.len() implies s.name[i] != EMAIL_BEGIN by {
            assert(s.name[i] == d[i]);
        }
    }
}

/// Decodes the signature that stands in `d`.
///
/// `d` is refused where it holds no `<`, where it begins with `<`, where no
/// `>` follows the `<`, and where the `>` is its last byte or the one before:
/// then there is no room for a space and a time. Each of these errors carries
/// all of `d`; an error in the time carries the token at fault.
pub fn parse_signature<'a>(d: &'a [u8]) -> (parsed: Result<Signature<'a>, Error>)
    ensures
        match parsed {
            Ok(s) => signature(d@) matches Ok(found) && found == s@,
            Err(e) => signature(d@) matches Err(cause) && cause == e@,
        },
        !d@.contains(EMAIL_BEGIN) ==> parsed is Err,
        d@.len() > 0 && d@[0] == EMAIL_BEGIN ==> parsed is Err,
        !d@.skip(email_begin(d@)).contains(EMAIL_END) ==> parsed is Err,
        email_end(d@) >= d@.len() - 2 ==> parsed is Err,
{
    proof {
        lemma_first_index(d@, EMAIL_BEGIN);
        lemma_first_index(d@.skip(email_begin(d@)), EMAIL_END);
    }
    let begin = find_byte(d, EMAIL_BEGIN);
    if begin == d.len() {
        return Err(parse_error("Could not find beginning of email marked by '<'", d));
    }
    if begin == 0 {
        return Err(parse_error("Email found in place of author name", d));
    }
    let end = begin + find_byte(&d[begin..d.len()], EMAIL_END);
    if end == d.len() {
        return Err(parse_error("Could not find end of email marked by '>'", d));
    }
    if end >= d.len() - 2 {
        return Err(parse_error("There is no time after email", d));
    }
    let time = &d[end + 2..d.len()];
    let any_tokens = |_seconds: &[u8], _offset: &[u8]| -> (ok: bool)
        ensures
            ok,
        { true };
    let (seconds, offset) = split2_at_space(time, any_tokens)?;
    let (offset, sign) = parse_timezone_offset(offset)?;
    let seconds = match parse_u32(seconds) {
        Some(seconds) => seconds,
        None => {
            return Err(parse_error("Could parse to seconds", seconds));
        },
    };
    Ok(
        Signature {
            name: &d[0..begin - 1],
            email: &d[begin + 1..end],
            time: Time { seconds, offset, sign },
        },
    )
}

} // verus!
