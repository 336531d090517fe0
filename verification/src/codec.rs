//! The error of the Vorbis decoder, which the library takes as it comes and
//! sorts by variant. What is stated of it here is believed, not proved.

use crate::error::DecodeFault;
use vstd::prelude::*;

verus! {

/// `lewton::VorbisError`, opaque here: [`fault_of`] tells its variants apart.
#[verifier::external_type_specification]
#[verifier::external_body]
pub struct ExVorbisError(lewton::VorbisError);

/// The variant of a `lewton::VorbisError`: `BadAudio`, `BadHeader` or
/// `OggError`.
pub uninterp spec fn vorbis_fault(error: lewton::VorbisError) -> DecodeFault;

/// Tells the variants of `lewton::VorbisError` apart, one fault for each.
#[verifier::external_body]
pub(crate) fn fault_of(error: &lewton::VorbisError) -> (fault: DecodeFault)
    ensures
        fault == vorbis_fault(*error),
{
    match error {
        lewton::VorbisError::BadAudio(_) => DecodeFault::Audio,
        lewton::VorbisError::BadHeader(_) => DecodeFault::Header,
        lewton::VorbisError::OggError(_) => DecodeFault::Container,
    }
}

} // verus!
