//! HTTP/1.x: framing, streaming parse and request fingerprints.

pub mod access;
pub mod framing;
pub mod engine;
pub mod exchange;
pub mod head;
pub mod ja4h;
pub mod parser;
pub mod poison;
pub mod proxy;
pub mod session;
pub mod types;

pub use poison::HttpPoison;
pub use types::{
    Authority, BodyFraming, HttpConfig, HttpRequest, HttpResponse, HttpVersion, Normalization,
    RequestHead, ResponseHead, SmugglingPolicy, SwitchKind,
};
