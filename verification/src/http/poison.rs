//! Typed reasons a streaming HTTP parser gives up on a connection.

use vstd::prelude::*;

verus! {

/// Why a streaming HTTP/1 parser stopped parsing a direction.
#[derive(Debug, Clone, Copy, PartialEq, Eq, Structural, Hash)]
pub enum HttpPoison {
    /// The start line + header block exceeded its cap before it finished.
    HeadOverflow,
    /// A chunk-size line exceeded its cap before its CRLF arrived.
    ChunkLineOverflow,
    /// The trailer section exceeded its cap before its blank line.
    TrailerOverflow,
    /// More requests are outstanding than the pipeline cap allows.
    PipelineOverflow,
    /// A chunk-size line was not valid hexadecimal.
    InvalidChunkSize,
    /// A chunk's data was not followed by CRLF.
    MalformedChunkTerminator,
    /// The start line or a header field could not be parsed.
    MalformedHead,
    /// Both `Content-Length` and `Transfer-Encoding` were present.
    ContentLengthWithTransferEncoding,
    /// Two `Content-Length` values that do not agree.
    ConflictingContentLength,
    /// A `Content-Length` that is not a plain decimal number.
    InvalidContentLength,
    /// `Transfer-Encoding` present but `chunked` not the final coding.
    NonFinalChunked,
    /// A transfer coding the parser does not implement.
    UnknownTransferCoding,
    /// `Transfer-Encoding` appeared more than once.
    DuplicateTransferEncoding,
    /// An obs-fold (a header value continued on a folded line).
    ObsFold,
    /// A bare CR inside the header block.
    BareCr,
    /// More than one `Host` header.
    DuplicateHost,
    /// A request authority that is not ASCII.
    NonAsciiAuthority,
    /// A response arrived with no request outstanding.
    UnexpectedResponse,
}

/// The stable slug of each poison reason.
pub open spec fn poison_slug(p: HttpPoison) -> Seq<char> {
    match p {
        HttpPoison::HeadOverflow => "head-overflow"@,
        HttpPoison::ChunkLineOverflow => "chunk-line-overflow"@,
        HttpPoison::TrailerOverflow => "trailer-overflow"@,
        HttpPoison::PipelineOverflow => "pipeline-overflow"@,
        HttpPoison::InvalidChunkSize => "invalid-chunk-size"@,
        HttpPoison::MalformedChunkTerminator => "malformed-chunk-terminator"@,
        HttpPoison::MalformedHead => "malformed-head"@,
        HttpPoison::ContentLengthWithTransferEncoding => "content-length-with-transfer-encoding"@,
        HttpPoison::ConflictingContentLength => "conflicting-content-length"@,
        HttpPoison::InvalidContentLength => "invalid-content-length"@,
        HttpPoison::NonFinalChunked => "non-final-chunked"@,
        HttpPoison::UnknownTransferCoding => "unknown-transfer-coding"@,
        HttpPoison::DuplicateTransferEncoding => "duplicate-transfer-encoding"@,
        HttpPoison::ObsFold => "obs-fold"@,
        HttpPoison::BareCr => "bare-cr"@,
        HttpPoison::DuplicateHost => "duplicate-host"@,
        HttpPoison::NonAsciiAuthority => "non-ascii-authority"@,
        HttpPoison::UnexpectedResponse => "unexpected-response"@,
    }
}

impl HttpPoison {
    /// Stable, lowercase slug — safe to use as a metric label.
    pub fn as_str(self) -> (s: &'static str)
        ensures
            s@ == poison_slug(self),
    {
        match self {
            HttpPoison::HeadOverflow => "head-overflow",
            HttpPoison::ChunkLineOverflow => "chunk-line-overflow",
            HttpPoison::TrailerOverflow => "trailer-overflow",
            HttpPoison::PipelineOverflow => "pipeline-overflow",
            HttpPoison::InvalidChunkSize => "invalid-chunk-size",
            HttpPoison::MalformedChunkTerminator => "malformed-chunk-terminator",
            HttpPoison::MalformedHead => "malformed-head",
            HttpPoison::ContentLengthWithTransferEncoding => "content-length-with-transfer-encoding",
            HttpPoison::ConflictingContentLength => "conflicting-content-length",
            HttpPoison::InvalidContentLength => "invalid-content-length",
            HttpPoison::NonFinalChunked => "non-final-chunked",
            HttpPoison::UnknownTransferCoding => "unknown-transfer-coding",
            HttpPoison::DuplicateTransferEncoding => "duplicate-transfer-encoding",
            HttpPoison::ObsFold => "obs-fold",
            HttpPoison::BareCr => "bare-cr",
            HttpPoison::DuplicateHost => "duplicate-host",
            HttpPoison::NonAsciiAuthority => "non-ascii-authority",
            HttpPoison::UnexpectedResponse => "unexpected-response",
        }
    }

    /// Whether the offending message came from the client: `Some(true)`
    /// for a client-side violation, `Some(false)` for a server-side one,
    /// `None` when either side could produce it.
    pub fn implies_client_fault(self) -> (r: Option<bool>)
        ensures
            r == (match self {
                HttpPoison::DuplicateHost | HttpPoison::NonAsciiAuthority => Some(true),
                HttpPoison::UnexpectedResponse => Some(false),
                _ => None,
            }),
    {
        match self {
            HttpPoison::DuplicateHost | HttpPoison::NonAsciiAuthority => Some(true),
            HttpPoison::UnexpectedResponse => Some(false),
            _ => None,
        }
    }
}

} // verus!
