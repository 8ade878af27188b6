//! FTP control channel (TCP/21): commands, replies, cleartext
//! credentials, transfers and the `AUTH TLS` upgrade.

pub mod parser;
pub mod session;
pub mod types;

pub use parser::extract_line;
pub use session::{FtpParser, FTP_PORT, PARSER_KIND};
pub use types::{FtpCommand, FtpMessage, FtpReplyClass, TransferKind};
