//! Why a read or a decode failed.

use vstd::prelude::*;

verus! {

/// The reason for which a read from a [`crate::stream::Stream`], or the
/// decoding of a packet, was given up. Every failure is final for the call
/// that reports it, and leaves the cursor where it was before the call.
#[derive(Debug, Clone, Copy, PartialEq, Eq, Structural)]
pub enum DecodeError {
    /// A bit or a byte was asked for behind the end of the buffer.
    OutOfData,
    /// A whole byte was asked for while part of the current byte was consumed.
    NotByteAligned,
    /// The width asked for is outside of what the read supports.
    InvalidBitCount,
    /// A read confined to one byte asked for more bits than the byte has left.
    InsufficientBitsInByte,
    /// A declared length is smaller than the fields it has to hold.
    AdaptationFieldOverrun,
}

/// What [`DecodeError::message`] says of each error.
pub open spec fn message_of(e: DecodeError) -> Seq<char> {
    match e {
        DecodeError::OutOfData => "No data remaining"@,
        DecodeError::NotByteAligned =>
            "Requested byte, but bits have already been pulled from the current byte"@,
        DecodeError::InvalidBitCount => "Requested more bits than the read can return"@,
        DecodeError::InsufficientBitsInByte =>
            "Requested more bits than what remains in the current byte"@,
        DecodeError::AdaptationFieldOverrun =>
            "Declared length is smaller than the fields it has to hold"@,
    }
}

impl DecodeError {
    /// The error in words.
    pub fn message(&self) -> (s: &'static str)
        ensures
            s@ == message_of(*self),
    {
        match self {
            DecodeError::OutOfData => "No data remaining",
            DecodeError::NotByteAligned =>
                "Requested byte, but bits have already been pulled from the current byte",
            DecodeError::InvalidBitCount => "Requested more bits than the read can return",
            DecodeError::InsufficientBitsInByte =>
                "Requested more bits than what remains in the current byte",
            DecodeError::AdaptationFieldOverrun =>
                "Declared length is smaller than the fields it has to hold",
        }
    }
}

} // verus!
