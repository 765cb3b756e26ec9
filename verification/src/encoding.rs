//! Tag versions, text encodings, the decode error taxonomy, and the
//! encoding verifier.
//!
//! A frame body that carries text opens with a one-byte encoding marker. The
//! verifier checks that the marker is legal for the tag version in use and
//! resolves it to a concrete encoding: the oldest generation of the format
//! admits only Latin-1 and byte-order-marked UTF-16, while later generations
//! admit the full known set.

use vstd::prelude::*;

verus! {

/// The generation of the tag format in use; it governs which encoding
/// markers are legal.
#[derive(Clone, Copy, Debug, PartialEq, Eq, Structural)]
pub enum Id3v2Version {
    /// The oldest supported generation.
    V2,
    /// The middle generation.
    V3,
    /// The newest generation.
    V4,
}

/// A character encoding for frame text, declared by a one-byte marker at the
/// start of the frame body.
#[derive(Clone, Copy, Debug, PartialEq, Eq, Structural)]
pub enum TextEncoding {
    /// Marker 0: one byte per character, mapped verbatim to the first 256
    /// code points.
    Latin1,
    /// Marker 1: UTF-16 with the byte order declared by a leading byte-order
    /// mark.
    Utf16,
    /// Marker 2: UTF-16, big-endian, without a byte-order mark.
    Utf16Be,
    /// Marker 3: UTF-8.
    Utf8,
}

/// Why decoding one frame failed. A failure aborts that frame alone; the
/// caller may go on with the rest of the tag.
#[derive(Clone, Copy, Debug, PartialEq, Eq, Structural)]
pub enum Id3v2Error {
    /// The encoding marker is a known value, but the oldest tag generation
    /// forbids it.
    V2InvalidTextEncoding,
    /// The encoding marker maps to no known encoding at all.
    InvalidTextEncoding,
    /// The text payload is malformed for its declared encoding.
    MalformedText,
}

/// The encoding a marker byte resolves to, independent of any version rule,
/// or `None` for a marker outside the known set.
pub open spec fn spec_encoding_from_marker(marker: u8) -> Option<TextEncoding> {
    if marker == 0 {
        Some(TextEncoding::Latin1)
    } else if marker == 1 {
        Some(TextEncoding::Utf16)
    } else if marker == 2 {
        Some(TextEncoding::Utf16Be)
    } else if marker == 3 {
        Some(TextEncoding::Utf8)
    } else {
        None
    }
}

/// What the encoding verifier returns: the version rule runs first (the
/// oldest generation admits only markers 0 and 1, and its rejection is the
/// more specific error), then the universal lookup.
pub open spec fn spec_verify_encoding(marker: u8, version: Id3v2Version) -> Result<
    TextEncoding,
    Id3v2Error,
> {
    if version == Id3v2Version::V2 && !(marker == 0 || marker == 1) {
        Err(Id3v2Error::V2InvalidTextEncoding)
    } else {
        match spec_encoding_from_marker(marker) {
            Some(e) => Ok(e),
            None => Err(Id3v2Error::InvalidTextEncoding),
        }
    }
}

/// Validates an encoding marker byte against the tag version and resolves it
/// to a concrete encoding.
pub fn verify_encoding(encoding: u8, version: Id3v2Version) -> (r: Result<
    TextEncoding,
    Id3v2Error,
>)
    ensures
        r == spec_verify_encoding(encoding, version),
{
    if version == Id3v2Version::V2 && !(encoding == 0 || encoding == 1) {
        return Err(Id3v2Error::V2InvalidTextEncoding);
    }
    match encoding {
        0 => Ok(TextEncoding::Latin1),
        1 => Ok(TextEncoding::Utf16),
        2 => Ok(TextEncoding::Utf16Be),
        3 => Ok(TextEncoding::Utf8),
        _ => Err(Id3v2Error::InvalidTextEncoding),
    }
}

/// The verifier accepts exactly the legal marker set of each version class:
/// on the oldest generation only markers 0 and 1, each illegal marker
/// rejected with the version-specific error; on the newer generations the
/// full known set 0 through 3, anything else rejected as unknown.
pub proof fn lemma_verify_encoding_exact(marker: u8, version: Id3v2Version)
    ensures
        version == Id3v2Version::V2 ==> (spec_verify_encoding(marker, version) is Ok <==> (marker
            == 0 || marker == 1)),
        version != Id3v2Version::V2 ==> (spec_verify_encoding(marker, version) is Ok <==> marker
            <= 3),
        version == Id3v2Version::V2 && marker >= 2 ==> spec_verify_encoding(marker, version)
            == Err::<TextEncoding, Id3v2Error>(Id3v2Error::V2InvalidTextEncoding),
        version != Id3v2Version::V2 && marker > 3 ==> spec_verify_encoding(marker, version)
            == Err::<TextEncoding, Id3v2Error>(Id3v2Error::InvalidTextEncoding),
        spec_verify_encoding(marker, version) is Ok ==> spec_verify_encoding(marker, version)
            == Ok::<TextEncoding, Id3v2Error>(spec_encoding_from_marker(marker)->Some_0),
{
}

} // verus!
