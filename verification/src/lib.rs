//! Passive flow analysis: protocol parsers, flow bookkeeping and
//! event emitters, with their framing rules proved.

pub mod emit;
pub mod error;
pub mod ftp;
pub mod event;
pub mod extract;
pub mod http;
pub mod http2;
pub mod icmp;
pub mod net;
pub mod text;
