//! HTTP/2: frame layout, HPACK header compression and gRPC paths.

use vstd::prelude::*;

pub mod conn;
pub mod error;
pub mod frame;
pub mod grpc;
pub mod hpack;
pub mod hpack_encode;
pub mod round_trip;
pub mod stream;
pub mod huffman;
pub mod huffman_inverse;

pub use error::Http2Error;
pub use frame::{write_headers, FrameKind};
pub use grpc::{grpc_call, grpc_status, grpc_status_of, is_grpc_content_type, GrpcCall, GrpcStatus};
pub use hpack_encode::{
    default_sensitivity, DefaultSensitivity, HeaderSensitivity, HpackEncoder, HuffmanPolicy,
    SensitivityPolicy,
};
pub use stream::{Http2Config, Http2Event, Http2Parser, StreamHead, PREFACE};

verus! {

/// Stable slug for HTTP/2 at match sites that switch on a parser slug.
pub const PARSER_KIND: &'static str = "http/2";

} // verus!
