//! The crate's error type: which module failed, a coarse error code,
//! and a human-readable message.

use vstd::prelude::*;

verus! {

/// Which part of the crate raised an error.
#[derive(Debug, Clone, Copy, PartialEq, Eq, Structural, Hash)]
pub enum Module {
    Http,
    Tls,
    Dns,
    Icmp,
    Pcap,
    Reassembler,
    Tracker,
    Layers,
    Driver,
    Emit,
    Detect,
    Aggregate,
    Correlate,
}

/// The snake-case slug of each module.
pub open spec fn module_slug(m: Module) -> Seq<char> {
    match m {
        Module::Http => "http"@,
        Module::Tls => "tls"@,
        Module::Dns => "dns"@,
        Module::Icmp => "icmp"@,
        Module::Pcap => "pcap"@,
        Module::Reassembler => "reassembler"@,
        Module::Tracker => "tracker"@,
        Module::Layers => "layers"@,
        Module::Driver => "driver"@,
        Module::Emit => "emit"@,
        Module::Detect => "detect"@,
        Module::Aggregate => "aggregate"@,
        Module::Correlate => "correlate"@,
    }
}

impl Module {
    /// The module's slug.
    pub fn as_str(self) -> (s: &'static str)
        ensures
            s@ == module_slug(self),
    {
        match self {
            Module::Http => "http",
            Module::Tls => "tls",
            Module::Dns => "dns",
            Module::Icmp => "icmp",
            Module::Pcap => "pcap",
            Module::Reassembler => "reassembler",
            Module::Tracker => "tracker",
            Module::Layers => "layers",
            Module::Driver => "driver",
            Module::Emit => "emit",
            Module::Detect => "detect",
            Module::Aggregate => "aggregate",
            Module::Correlate => "correlate",
        }
    }

    /// The module's slug as an owned string.
    pub fn to_string(&self) -> (s: String)
        ensures
            s@ == module_slug(*self),
    {
        String::from_str(self.as_str())
    }
}

/// A coarse classification of an error.
#[derive(Debug, Clone, Copy, PartialEq, Eq, Structural, Hash)]
pub enum ErrorCode {
    Parse,
    BufferOverflow,
    Io,
    Unsupported,
    Truncated,
    Eof,
    Other,
}

/// The slug of each error code.
pub open spec fn code_slug(c: ErrorCode) -> Seq<char> {
    match c {
        ErrorCode::Parse => "parse"@,
        ErrorCode::BufferOverflow => "buffer-overflow"@,
        ErrorCode::Io => "io"@,
        ErrorCode::Unsupported => "unsupported"@,
        ErrorCode::Truncated => "truncated"@,
        ErrorCode::Eof => "eof"@,
        ErrorCode::Other => "other"@,
    }
}

impl ErrorCode {
    /// The code's slug.
    pub fn as_str(self) -> (s: &'static str)
        ensures
            s@ == code_slug(self),
    {
        match self {
            ErrorCode::Parse => "parse",
            ErrorCode::BufferOverflow => "buffer-overflow",
            ErrorCode::Io => "io",
            ErrorCode::Unsupported => "unsupported",
            ErrorCode::Truncated => "truncated",
            ErrorCode::Eof => "eof",
            ErrorCode::Other => "other",
        }
    }

    /// The code's slug as an owned string.
    pub fn to_string(&self) -> (s: String)
        ensures
            s@ == code_slug(*self),
    {
        String::from_str(self.as_str())
    }
}

/// What went wrong, where.
#[derive(Debug, Clone, PartialEq, Eq)]
pub struct ErrorKind {
    pub module: Module,
    pub code: ErrorCode,
    pub message: String,
}

/// `module: code: message`.
pub open spec fn kind_text(module: Module, code: ErrorCode, message: Seq<char>) -> Seq<char> {
    module_slug(module) + ": "@ + code_slug(code) + ": "@ + message
}

impl ErrorKind {
    /// Renders as `module: code: message`.
    pub fn to_string(&self) -> (s: String)
        ensures
            s@ == kind_text(self.module, self.code, self.message@),
    {
        let mut s = String::from_str(self.module.as_str());
        s.append(": ");
        s.append(self.code.as_str());
        s.append(": ");
        s.append(self.message.as_str());
        s
    }
}

/// Decimal digits of `n`, most significant first.
pub open spec fn decimal_chars(n: nat) -> Seq<char>
    decreases n,
{
    if n < 10 {
        seq![(48 + n) as char]
    } else {
        decimal_chars(n / 10).push((48 + n % 10) as char)
    }
}

/// Renders `n` with `usize`'s `Display`: its decimal digits, most
/// significant first, no sign or padding (the documented integer
/// formatting of std).
#[verifier::external_body]
fn usize_text(n: usize) -> (s: String)
    ensures
        s@ == decimal_chars(n as nat),
{
    n.to_string()
}

/// Renders an I/O error's message with its `Display`; nothing is
/// claimed of the text.
#[verifier::external_body]
fn io_error_text(source: &std::io::Error) -> (s: String) {
    source.to_string()
}

#[verifier::external_type_specification]
#[verifier::external_body]
pub struct ExIoError(std::io::Error);

/// The crate's error: a kind, plus the rendered message of the error
/// that caused it, if any.
#[derive(Debug)]
pub struct Error {
    kind: ErrorKind,
    source: Option<String>,
}

impl Error {
    pub closed spec fn spec_kind(&self) -> ErrorKind {
        self.kind
    }

    pub closed spec fn spec_source(&self) -> Option<String> {
        self.source
    }

    /// A parse failure with a message.
    pub fn parse(module: Module, message: &str) -> (e: Self)
        ensures
            e.spec_kind().module == module,
            e.spec_kind().code == ErrorCode::Parse,
            e.spec_kind().message@ == message@,
            e.spec_source() is None,
    {
        Error {
            kind: ErrorKind { module, code: ErrorCode::Parse, message: String::from_str(message) },
            source: None,
        }
    }

    /// A parse failure caused by another error, whose rendered message
    /// is kept as the source.
    pub fn parse_with(module: Module, message: &str, source: String) -> (e: Self)
        ensures
            e.spec_kind().module == module,
            e.spec_kind().code == ErrorCode::Parse,
            e.spec_kind().message@ == message@,
            e.spec_source() matches Some(s) && s@ == source@,
    {
        Error {
            kind: ErrorKind { module, code: ErrorCode::Parse, message: String::from_str(message) },
            source: Some(source),
        }
    }

    /// A buffer that exceeded its cap; the message names the cap.
    pub fn buffer_overflow(module: Module, cap: usize) -> (e: Self)
        ensures
            e.spec_kind().module == module,
            e.spec_kind().code == ErrorCode::BufferOverflow,
            e.spec_kind().message@ == "buffer exceeded cap="@ + decimal_chars(cap as nat),
            e.spec_source() is None,
    {
        let mut message = String::from_str("buffer exceeded cap=");
        let digits = usize_text(cap);
        message.append(digits.as_str());
        Error { kind: ErrorKind { module, code: ErrorCode::BufferOverflow, message }, source: None }
    }

    /// An I/O failure; its message and source are the I/O error's text.
    pub fn io(module: Module, source: std::io::Error) -> (e: Self)
        ensures
            e.spec_kind().module == module,
            e.spec_kind().code == ErrorCode::Io,
            e.spec_source() matches Some(s) && s@ == e.spec_kind().message@,
    {
        let text = io_error_text(&source);
        let message = text.clone();
        Error { kind: ErrorKind { module, code: ErrorCode::Io, message }, source: Some(text) }
    }

    /// What went wrong, where.
    pub fn kind(&self) -> (k: &ErrorKind)
        ensures
            *k == self.spec_kind(),
    {
        &self.kind
    }

    /// The module that raised the error.
    pub fn module(&self) -> (m: Module)
        ensures
            m == self.spec_kind().module,
    {
        self.kind.module
    }

    /// The error's code.
    pub fn code(&self) -> (c: ErrorCode)
        ensures
            c == self.spec_kind().code,
    {
        self.kind.code
    }

    /// Whether processing can continue past this error: parse,
    /// buffer-overflow, truncation and unsupported-input errors are
    /// per-message; I/O and the rest are not.
    pub fn is_recoverable(&self) -> (r: bool)
        ensures
            r == (self.spec_kind().code == ErrorCode::Parse || self.spec_kind().code
                == ErrorCode::BufferOverflow || self.spec_kind().code == ErrorCode::Truncated
                || self.spec_kind().code == ErrorCode::Unsupported),
    {
        match self.kind.code {
            ErrorCode::Parse | ErrorCode::BufferOverflow | ErrorCode::Truncated
            | ErrorCode::Unsupported => true,
            _ => false,
        }
    }

    /// The rendered message of the error that caused this one.
    pub fn source(&self) -> (s: Option<&String>)
        ensures
            s is Some <==> self.spec_source() is Some,
            s matches Some(t) ==> self.spec_source() == Some(*t),
    {
        match &self.source {
            Some(t) => Some(t),
            None => None,
        }
    }

    /// Renders as `module: code: message`.
    pub fn to_string(&self) -> (s: String)
        ensures
            s@ == kind_text(
                self.spec_kind().module,
                self.spec_kind().code,
                self.spec_kind().message@,
            ),
    {
        self.kind.to_string()
    }
}

} // verus!
