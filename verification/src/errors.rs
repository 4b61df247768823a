use vstd::prelude::*;

verus! {

/// Typed decoding failures.
///
/// `IoTruncation` is recoverable: the driver stops reading further pages but
/// keeps everything already decoded. `MalformedHeader` and
/// `UnsupportedEncoding` poison the whole session. The remaining variants are
/// fatal only for the enclosing page or record; siblings are still decoded.
#[derive(Debug, Clone, Copy, PartialEq, Eq, Structural)]
pub enum DecodeError {
    /// Fewer bytes were available than a page read requested.
    IoTruncation,
    /// The file header's magic bytes are not valid text, or the header is
    /// too small to hold the fields the format requires.
    MalformedHeader,
    /// The file header's text-encoding byte is not 1, 2 or 3.
    UnsupportedEncoding,
    /// A page's type tag is not 2, 5, 10 or 13.
    UnknownPageType,
    /// A varint, cell or field read would run past the end of its buffer.
    OutOfBounds,
    /// The record header's length accounting does not work out exactly.
    CorruptRecordHeader,
    /// A text column's bytes are not valid UTF-8.
    InvalidText,
    /// A serial type code outside the documented table.
    UnknownSerialType,
    /// Serial type 10 or 11, reserved by the format.
    ReservedSerialType,
}

} // verus!
