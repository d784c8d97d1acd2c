//! The error taxonomy shared by the frame buffer, the packet catalogue and
//! the dispatcher.

use std::string::FromUtf8Error;
use vstd::prelude::*;
use vstd::std_specs::convert::FromSpecImpl;
use vstd::string::StringExecFns;

verus! {

/// The failure std reports for bytes that are not UTF-8. Its contents are
/// opaque here; it is mapped to [`PacketError::Utf8Error`].
#[verifier::external_type_specification]
#[verifier::external_body]
pub struct ExFromUtf8Error(FromUtf8Error);

/// Everything that can go wrong while reading, decoding or deriving.
#[derive(Debug, PartialEq, Eq)]
pub enum PacketError {
    /// A read asked for more bytes than the buffer still holds.
    OutOfBounds,
    /// The type tag of a frame is not the one the decoder expects.
    InvalidPacketType,
    /// The bytes of a string field are not valid UTF-8.
    Utf8Error,
    /// The transport failed; the text says how.
    IoError(String),
    /// A text that should name a UUID does not.
    InvalidUuid,
}

impl PacketError {
    /// The text that [`PacketError::message`] gives for this error.
    pub open spec fn text(self) -> Seq<char> {
        match self {
            PacketError::OutOfBounds => "Read out of bounds"@,
            PacketError::InvalidPacketType => "Invalid packet type"@,
            PacketError::Utf8Error => "UTF-8 error: invalid utf-8 sequence"@,
            PacketError::IoError(e) => "IO error: "@ + e@,
            PacketError::InvalidUuid => "Invalid UUID"@,
        }
    }

    /// A human-readable description of the error.
    pub fn message(&self) -> (out: String)
        ensures
            out@ == self.text(),
    {
        match self {
            PacketError::OutOfBounds => String::from_str("Read out of bounds"),
            PacketError::InvalidPacketType => String::from_str("Invalid packet type"),
            PacketError::Utf8Error => String::from_str("UTF-8 error: invalid utf-8 sequence"),
            PacketError::IoError(e) => String::from_str("IO error: ").concat(e.as_str()),
            PacketError::InvalidUuid => String::from_str("Invalid UUID"),
        }
    }
}

impl From<FromUtf8Error> for PacketError {
    fn from(err: FromUtf8Error) -> (out: PacketError) {
        PacketError::Utf8Error
    }
}

impl FromSpecImpl<FromUtf8Error> for PacketError {
    open spec fn obeys_from_spec() -> bool {
        true
    }

    open spec fn from_spec(err: FromUtf8Error) -> PacketError {
        PacketError::Utf8Error
    }
}

} // verus!
