//! Why a packet could not be encoded or decoded.

use crate::text::append_text;
use crate::text::copy_text;
use vstd::prelude::*;

verus! {

/// A packet that does not follow its layout, or a value that does not fit its field.
#[derive(Clone, Copy, Debug, PartialEq, Eq)]
pub enum WireError {
    /// The packet ends before the named part is complete.
    Truncated(&'static str),
    /// The named field holds a value that it may not hold.
    Invalid(&'static str),
    /// The named value is too long for its length field.
    TooLong(&'static str),
}

impl WireError {
    /// The text that describes the error.
    pub open spec fn message(self) -> Seq<char> {
        match self {
            WireError::Truncated(part) => "SMB packet is truncated in "@ + part@,
            WireError::Invalid(part) => "SMB packet has an invalid "@ + part@,
            WireError::TooLong(part) => "SMB packet cannot hold the length of "@ + part@,
        }
    }

    /// Describes the error.
    pub fn to_text(&self) -> (r: String)
        ensures
            r@ == self.message(),
    {
        match self {
            WireError::Truncated(part) => {
                let mut out = copy_text("SMB packet is truncated in ");
                append_text(&mut out, part);
                out
            },
            WireError::Invalid(part) => {
                let mut out = copy_text("SMB packet has an invalid ");
                append_text(&mut out, part);
                out
            },
            WireError::TooLong(part) => {
                let mut out = copy_text("SMB packet cannot hold the length of ");
                append_text(&mut out, part);
                out
            },
        }
    }
}

} // verus!
