//! The kinds of objects in the store, and their identifiers.

use vstd::prelude::*;
use vstd::slice::slice_to_vec;
use vstd::string::StringSliceAdditionalSpecFns;
use crate::bytes::bytes_eq;

pub mod id;
pub mod parsed;

pub use id::Id;

verus! {

/// Why the name of an object kind could not be decoded.
#[derive(Debug)]
pub enum Error {
    /// The bytes name no kind of object.
    InvalidObjectKind(Vec<u8>),
}

/// What an [`Error`] holds, as plain values.
pub enum ErrorView {
    InvalidObjectKind(Seq<u8>),
}

impl View for Error {
    type V = ErrorView;

    open spec fn view(&self) -> ErrorView {
        match self {
            Error::InvalidObjectKind(name) => ErrorView::InvalidObjectKind(name@),
        }
    }
}

/// The kind of an object in the store.
#[derive(PartialEq, Eq, Debug, Hash, PartialOrd, Ord, Clone, Copy, Structural)]
pub enum Kind {
    Tag,
    Commit,
    Tree,
    Blob,
}

/// The kind that `name` names: `tag`, `commit`, `tree` or `blob`, in lower case
/// and nothing else.
pub open spec fn kind_named(name: Seq<u8>) -> Option<Kind> {
    if name == "tag".spec_bytes() {
        Some(Kind::Tag)
    } else if name == "commit".spec_bytes() {
        Some(Kind::Commit)
    } else if name == "tree".spec_bytes() {
        Some(Kind::Tree)
    } else if name == "blob".spec_bytes() {
        Some(Kind::Blob)
    } else {
        None
    }
}

impl Kind {
    /// Decodes the name of a kind as it stands in an object's header.
    ///
    /// Fails with the name itself where it is none of the four known names.
    pub fn from_bytes(s: &[u8]) -> (kind: Result<Kind, Error>)
        ensures
            match kind {
                Ok(k) => kind_named(s@) == Some(k),
                Err(e) => kind_named(s@) is None && e@ == ErrorView::InvalidObjectKind(s@),
            },
    {
        if bytes_eq(s, "tag".as_bytes()) {
            Ok(Kind::Tag)
        } else if bytes_eq(s, "commit".as_bytes()) {
            Ok(Kind::Commit)
        } else if bytes_eq(s, "tree".as_bytes()) {
            Ok(Kind::Tree)
        } else if bytes_eq(s, "blob".as_bytes()) {
            Ok(Kind::Blob)
        } else {
            Err(Error::InvalidObjectKind(slice_to_vec(s)))
        }
    }
}

} // verus!
