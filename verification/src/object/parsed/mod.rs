//! Parsed objects, whose fields borrow from the buffer they were decoded from.
//!
//! No byte is copied while decoding: a parsed value must not outlive its
//! buffer. Only an error owns the bytes it reports.

use vstd::prelude::*;
use vstd::slice::slice_to_vec;
use crate::object;
use crate::object::id::is_hex_id;
use crate::object::Kind;
use crate::time::Time;

pub mod fields;
pub mod message;
pub mod signature;
pub mod tag;
pub mod timezone;

pub use fields::split2_at_space;
pub use message::parse_message;
pub use signature::parse_signature;
pub use timezone::parse_timezone_offset;

verus! {

/// Why a buffer could not be decoded.
#[derive(Debug)]
pub enum Error {
    /// The bytes name no kind of object.
    InvalidObjectKind(Vec<u8>),
    /// The buffer is not laid out as it should be: the reason, and the smallest
    /// piece of the buffer that shows the fault.
    ParseError(&'static str, Vec<u8>),
    /// The kind of the target could not be decoded.
    ObjectKind(object::Error),
}

/// What an [`Error`] holds, as plain values.
pub enum ErrorView {
    InvalidObjectKind(Seq<u8>),
    ParseError(Seq<char>, Seq<u8>),
    ObjectKind(object::ErrorView),
}

impl View for Error {
    type V = ErrorView;

    open spec fn view(&self) -> ErrorView {
        match self {
            Error::InvalidObjectKind(name) => ErrorView::InvalidObjectKind(name@),
            Error::ParseError(reason, bytes) => ErrorView::ParseError(reason@, bytes@),
            Error::ObjectKind(cause) => ErrorView::ObjectKind(cause@),
        }
    }
}

impl From<object::Error> for Error {
    /// Wraps the error of the kind decoder, which stays the cause.
    fn from(cause: object::Error) -> (e: Error) {
        Error::ObjectKind(cause)
    }
}

impl vstd::std_specs::convert::FromSpecImpl<object::Error> for Error {
    open spec fn obeys_from_spec() -> bool {
        true
    }

    open spec fn from_spec(cause: object::Error) -> Error {
        Error::ObjectKind(cause)
    }
}

/// Makes the error that reports `bytes` as at fault for `reason`.
pub fn parse_error(reason: &'static str, bytes: &[u8]) -> (e: Error)
    ensures
        e@ == ErrorView::ParseError(reason@, bytes@),
{
    Error::ParseError(reason, slice_to_vec(bytes))
}

/// The bytes of a field that may be absent.
pub open spec fn bytes_of(field: Option<&[u8]>) -> Option<Seq<u8>> {
    match field {
        Some(bytes) => Some(bytes@),
        None => None,
    }
}

/// Who made an object, and when.
#[derive(PartialEq, Eq, Debug, Hash)]
pub struct Signature<'data> {
    /// The name, without the space that separates it from the email.
    pub name: &'data [u8],
    /// The email, without the angle brackets around it.
    pub email: &'data [u8],
    /// When the signature was made.
    pub time: Time,
}

/// What a [`Signature`] holds, as plain values.
pub struct SignatureView {
    pub name: Seq<u8>,
    pub email: Seq<u8>,
    pub time: Time,
}

impl<'data> View for Signature<'data> {
    type V = SignatureView;

    open spec fn view(&self) -> SignatureView {
        SignatureView { name: self.name@, email: self.email@, time: self.time }
    }
}

/// An annotated tag: a name for another object, with a message and the
/// signature of who made it.
#[derive(PartialEq, Eq, Debug, Hash)]
pub struct Tag<'data> {
    /// The identifier of the target, in hexadecimal.
    pub target_raw: &'data [u8],
    /// The name of the tag.
    pub name_raw: &'data [u8],
    /// The kind of object that the target is said to be.
    pub target_kind: Kind,
    /// The message; `None` where nothing follows the empty line behind the headers.
    pub message: Option<&'data [u8]>,
    /// The signature block behind the message, from its opening to its closing line.
    pub pgp_signature: Option<&'data [u8]>,
    /// Who made the tag, and when.
    pub signature: Signature<'data>,
}

/// What a [`Tag`] holds, as plain values.
pub struct TagView {
    pub target_raw: Seq<u8>,
    pub name_raw: Seq<u8>,
    pub target_kind: Kind,
    pub message: Option<Seq<u8>>,
    pub pgp_signature: Option<Seq<u8>>,
    pub signature: SignatureView,
}

impl<'data> View for Tag<'data> {
    type V = TagView;

    open spec fn view(&self) -> TagView {
        TagView {
            target_raw: self.target_raw@,
            name_raw: self.name_raw@,
            target_kind: self.target_kind,
            message: bytes_of(self.message),
            pgp_signature: bytes_of(self.pgp_signature),
            signature: self.signature@,
        }
    }
}

impl<'data> Tag<'data> {
    /// The target is written as an identifier: 40 hexadecimal digits.
    ///
    /// Decoding establishes this, and `target` relies on it.
    pub open spec fn wf(&self) -> bool {
        is_hex_id(self.target_raw@)
    }
}

/// A parsed object of any kind.
#[derive(PartialEq, Eq, Debug, Hash)]
pub enum Object<'data> {
    Tag(Tag<'data>),
}

impl<'data> Object<'data> {
    /// The kind of the object, told from the variant alone.
    pub fn kind(&self) -> (kind: Kind)
        ensures
            kind == (match self {
                Object::Tag(_) => Kind::Tag,
            }),
    {
        match self {
            Object::Tag(_) => Kind::Tag,
        }
    }
}

} // verus!
