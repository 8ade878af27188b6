//! Why the HTTP/2 parser gave up on a connection.

use vstd::prelude::*;

verus! {

/// A condition that makes further parsing of an HTTP/2 connection
/// meaningless.
#[derive(Debug, Clone, Copy, PartialEq, Eq, Structural, Hash)]
pub enum Http2Error {
    /// The connection did not start with the client preface.
    BadPreface,
    /// A frame declared a length above `SETTINGS_MAX_FRAME_SIZE`.
    FrameTooLarge,
    /// A frame's fixed fields were malformed for its type.
    MalformedFrame,
    /// A `HEADERS` block was interrupted by another frame.
    InterleavedContinuation,
    /// A `CONTINUATION` arrived with no `HEADERS` block open.
    UnexpectedContinuation,
    /// A field block exceeded the header-list cap.
    HeaderListTooLong,
    /// More concurrent streams than the parser will track.
    TooManyStreams,
    /// Frame or field-block bytes buffered past the cap.
    BufferOverflow,
    /// A header index referred to nothing.
    HpackInvalidIndex,
    /// A field block ended mid-field.
    HpackTruncated,
    /// A variable-length integer's continuation would overflow.
    HpackIntegerOverflow,
    /// A dynamic-table size update exceeded the hard cap.
    HpackTableSizeExceeded,
    /// Invalid Huffman coding: EOS in the data, or bad padding.
    HuffmanInvalid,
    /// A field handed to the encoder could not legally be sent.
    InvalidHeaderField,
    /// A field block was framed for stream 0 or a reserved stream id.
    InvalidStreamId,
}

/// The stable slug of each error.
pub open spec fn http2_error_slug(e: Http2Error) -> Seq<char> {
    match e {
        Http2Error::BadPreface => "bad-preface"@,
        Http2Error::FrameTooLarge => "frame-too-large"@,
        Http2Error::MalformedFrame => "malformed-frame"@,
        Http2Error::InterleavedContinuation => "interleaved-continuation"@,
        Http2Error::UnexpectedContinuation => "unexpected-continuation"@,
        Http2Error::HeaderListTooLong => "header-list-too-long"@,
        Http2Error::TooManyStreams => "too-many-streams"@,
        Http2Error::BufferOverflow => "buffer-overflow"@,
        Http2Error::HpackInvalidIndex => "hpack-invalid-index"@,
        Http2Error::HpackTruncated => "hpack-truncated"@,
        Http2Error::HpackIntegerOverflow => "hpack-integer-overflow"@,
        Http2Error::HpackTableSizeExceeded => "hpack-table-size-exceeded"@,
        Http2Error::HuffmanInvalid => "huffman-invalid"@,
        Http2Error::InvalidHeaderField => "invalid-header-field"@,
        Http2Error::InvalidStreamId => "invalid-stream-id"@,
    }
}

impl Http2Error {
    /// Stable, lowercase slug — safe as a metric label.
    pub fn as_str(self) -> (s: &'static str)
        ensures
            s@ == http2_error_slug(self),
    {
        match self {
            Http2Error::BadPreface => "bad-preface",
            Http2Error::FrameTooLarge => "frame-too-large",
            Http2Error::MalformedFrame => "malformed-frame",
            Http2Error::InterleavedContinuation => "interleaved-continuation",
            Http2Error::UnexpectedContinuation => "unexpected-continuation",
            Http2Error::HeaderListTooLong => "header-list-too-long",
            Http2Error::TooManyStreams => "too-many-streams",
            Http2Error::BufferOverflow => "buffer-overflow",
            Http2Error::HpackInvalidIndex => "hpack-invalid-index",
            Http2Error::HpackTruncated => "hpack-truncated",
            Http2Error::HpackIntegerOverflow => "hpack-integer-overflow",
            Http2Error::HpackTableSizeExceeded => "hpack-table-size-exceeded",
            Http2Error::HuffmanInvalid => "huffman-invalid",
            Http2Error::InvalidHeaderField => "invalid-header-field",
            Http2Error::InvalidStreamId => "invalid-stream-id",
        }
    }
}

} // verus!
