//! The error that the byte codecs report.

use vstd::prelude::*;

verus! {

/// Why a codec could not read or write a value. Either way the error carries
/// a message for people.
#[derive(Debug)]
pub enum CodecError {
    /// The byte source ended, or the byte sink could take no more, before the
    /// operation was complete.
    Io(String),
    /// The bytes at hand are not an encoding of the value asked for.
    Generic(String),
}

impl CodecError {
    /// The text of the message, whichever the kind.
    pub open spec fn message_text(&self) -> Seq<char> {
        match self {
            CodecError::Io(m) => m@,
            CodecError::Generic(m) => m@,
        }
    }

    /// A copy of the message.
    pub fn message(&self) -> (s: String)
        ensures
            s@ == self.message_text(),
    {
        match self {
            CodecError::Io(m) => m.clone(),
            CodecError::Generic(m) => m.clone(),
        }
    }

    /// True for the `Io` kind.
    pub fn is_io(&self) -> (b: bool)
        ensures
            b == (self is Io),
    {
        match self {
            CodecError::Io(_) => true,
            CodecError::Generic(_) => false,
        }
    }
}

} // verus!
