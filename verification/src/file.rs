//! The error taxonomy of the decoder and the validator for the four-byte
//! stream marker.
use vstd::prelude::*;

verus! {

/// Everything that can go wrong while decoding the metadata region.
#[derive(Clone, Debug, PartialEq, Eq)]
pub enum FlacError {
    /// The first four bytes of the stream are not the FLAC marker.
    InvalidMarker,
    /// The underlying transport failed; the message describes the cause.
    IoError(String),
    /// The stream ended before an expected fixed-size read completed.
    Truncated,
    /// A declared length or offset exceeds the bytes that are available.
    OutOfBounds,
    /// A declared text span is not valid UTF-8.
    Utf8Error,
    /// A payload violates the invariants of the block type it was
    /// declared with; the field holds the raw type tag.
    MalformedBlock(u8),
}

/// True when the sequence starts with the marker bytes `fLaC`.
pub open spec fn is_flac_marker(s: Seq<u8>) -> bool {
    &&& s.len() >= 4
    &&& s[0] == 0x66
    &&& s[1] == 0x4C
    &&& s[2] == 0x61
    &&& s[3] == 0x43
}

/// Decides whether the outcome of reading the first four bytes of a
/// stream identifies a FLAC file. The caller hands in either the bytes
/// it managed to read or the message of the transport error it met.
pub fn valid_flac_marker(ident: &Result<Vec<u8>, String>) -> (r: Result<(), FlacError>)
    ensures
        match ident {
            Ok(bytes) => {
                &&& bytes@.len() < 4 ==> r == Err::<(), FlacError>(FlacError::Truncated)
                &&& bytes@.len() >= 4 && is_flac_marker(bytes@) ==> r is Ok
                &&& bytes@.len() >= 4 && !is_flac_marker(bytes@) ==> r == Err::<(), FlacError>(
                    FlacError::InvalidMarker,
                )
            },
            Err(msg) => r matches Err(e) && (e matches FlacError::IoError(m) && m@ == msg@),
        },
{
    match ident {
        Ok(bytes) => {
            if bytes.len() < 4 {
                Err(FlacError::Truncated)
            } else if bytes[0] == 0x66 && bytes[1] == 0x4C && bytes[2] == 0x61 && bytes[3] == 0x43 {
                Ok(())
            } else {
                Err(FlacError::InvalidMarker)
            }
        },
        Err(msg) => Err(FlacError::IoError(msg.clone())),
    }
}

} // verus!
