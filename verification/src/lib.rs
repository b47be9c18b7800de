//! Decoder for annotated tag objects of a content-addressable object store.
//!
//! The decoder takes the decompressed body of a stored tag and hands back a
//! [`object::parsed::Tag`] whose fields borrow from that buffer. Every public
//! function carries a contract over the byte sequence it was given.

pub mod bytes;
pub mod decimal;
pub mod lines;
pub mod object;
pub mod time;

pub use time::{Sign, Time};
