//! The ways in which a conversion can be refused.

use vstd::prelude::*;

verus! {

/// Why a conversion was refused. Nothing is converted in part: a refused call
/// produces no buffer at all.
#[derive(Copy, Clone, Debug, PartialEq, Eq, Structural)]
pub enum CodecError {
    /// The input does not hold exactly as many elements as the width and
    /// height ask for.
    LengthMismatch,
    /// The decoded image would hold more samples than this machine can
    /// address.
    TooLarge,
    /// A width or height is not written as a positive decimal number that
    /// fits in 32 bits.
    InvalidDimension,
}

impl CodecError {
    /// The text of `message`.
    pub open spec fn message_text(self) -> Seq<char> {
        match self {
            CodecError::LengthMismatch => "pixel data length does not match width x height"@,
            CodecError::TooLarge => "image is too large for this machine"@,
            CodecError::InvalidDimension => "width and height must be positive whole numbers"@,
        }
    }

    /// A sentence that says what went wrong.
    pub fn message(&self) -> (text: &'static str)
        ensures
            text@ == self.message_text(),
    {
        match self {
            CodecError::LengthMismatch => "pixel data length does not match width x height",
            CodecError::TooLarge => "image is too large for this machine",
            CodecError::InvalidDimension => "width and height must be positive whole numbers",
        }
    }
}

} // verus!
