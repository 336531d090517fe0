//! The errors of a decode and of an indexed access.

use vstd::prelude::*;

verus! {

/// The layer of the input at which decoding broke down.
#[derive(Clone, Copy, Debug, PartialEq, Eq, Structural)]
pub enum DecodeFault {
    /// An audio packet could not be decoded.
    Audio,
    /// A Vorbis header is missing or corrupt.
    Header,
    /// The Ogg container itself is damaged or ends too early.
    Container,
}

/// Why a buffer could not be decoded. A decode either yields every stream of
/// the buffer or one of these: nothing partial is ever handed out.
#[derive(Clone, Copy, Debug, PartialEq, Eq, Structural)]
pub enum DecodeError {
    /// The input is not a well-formed chain of Ogg/Vorbis streams.
    Malformed(DecodeFault),
}

/// An index that names nothing: the caller broke the contract of an indexed
/// access, and no data is handed out.
#[derive(Clone, Copy, Debug, PartialEq, Eq, Structural)]
pub enum BoundsError {
    /// There is no stream of that index.
    Stream,
    /// The stream exists, but has no chunk of that index.
    Chunk,
}

/// The text that describes a fault to the host.
pub open spec fn fault_text(fault: DecodeFault) -> Seq<char> {
    match fault {
        DecodeFault::Audio => "Vorbis bitstream audio decode problem"@,
        DecodeFault::Header => "Vorbis bitstream header decode problem"@,
        DecodeFault::Container => "Ogg decode problem"@,
    }
}

impl DecodeError {
    /// The fault behind this error.
    pub open spec fn fault(self) -> DecodeFault {
        match self {
            DecodeError::Malformed(fault) => fault,
        }
    }

    /// The descriptive text of this error, one fixed sentence per fault.
    pub fn message(&self) -> (text: &'static str)
        ensures
            text@ == fault_text(self.fault()),
    {
        match self {
            DecodeError::Malformed(DecodeFault::Audio) => "Vorbis bitstream audio decode problem",
            DecodeError::Malformed(DecodeFault::Header) => "Vorbis bitstream header decode problem",
            DecodeError::Malformed(DecodeFault::Container) => "Ogg decode problem",
        }
    }
}

} // verus!
