use vstd::prelude::*;

verus! {

/// The error kinds surfaced by the framing and decoding core.
///
/// Framing-layer errors (`TruncatedStream`, `ResyncExhausted`,
/// `HeaderChecksum`, `BodyChecksum`, `ReadTimeout`) are recoverable: the
/// caller resumes at the framer's new cursor.  Dispatcher errors
/// (`UnsupportedPort`, `UnknownRecord`) and decoder errors
/// (`UnsupportedMode`, `PayloadChecksum`, `TextChecksum`, `TextFieldParse`,
/// `TruncatedPayload`) drop the frame and continue.
#[derive(Debug, Clone, Copy, PartialEq, Eq, Structural)]
pub enum ParseError {
    /// The byte stream ends before a whole frame could be examined;
    /// the cursor is left unchanged so more bytes can be supplied.
    TruncatedStream,
    /// No sync window was found within the resync budget.
    ResyncExhausted,
    /// The header Fletcher-16 checksum did not match.
    HeaderChecksum,
    /// The body Fletcher-16 checksum did not match.
    BodyChecksum,
    /// The byte source timed out; surfaced by the reading caller.
    ReadTimeout,
    /// The frame's port id maps to no configured decoder.
    UnsupportedPort,
    /// The payload carries a record id the decoder does not know.
    UnknownRecord,
    /// The inertial payload's mode identifier is not a supported mode.
    UnsupportedMode,
    /// The inertial payload's CRC-32 did not match.
    PayloadChecksum,
    /// The ASCII sentence's XOR checksum did not match.
    TextChecksum,
    /// A numeric field of the ASCII sentence is malformed.
    TextFieldParse,
    /// The payload is shorter than its declared or required layout.
    TruncatedPayload,
}

} // verus!
