//! The point in time at which a signature was made.

use vstd::prelude::*;

verus! {

/// The sign character in front of a timezone offset.
///
/// It is kept beside the offset because `-0000` and `+0000` both have offset 0.
#[derive(PartialEq, Eq, Debug, Hash, PartialOrd, Ord, Clone, Copy, Structural)]
pub enum Sign {
    Plus,
    Minus,
}

/// A timestamp with the timezone offset it was written with.
#[derive(PartialEq, Eq, Debug, Hash, PartialOrd, Ord, Clone, Copy, Structural)]
pub struct Time {
    /// Seconds since the epoch.
    pub seconds: u32,
    /// Timezone offset in seconds.
    pub offset: i32,
    /// The sign that stood in front of the offset.
    pub sign: Sign,
}

} // verus!
