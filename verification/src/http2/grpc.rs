//! gRPC routing over HTTP/2: the call a `:path` names, whether a
//! `content-type` is gRPC, and the status a call's trailers report.

use vstd::prelude::*;

use super::stream::{field_of, StreamHead};
use crate::text::{find_char, index_of_char, parse_u32, str_chars, trim_chars, trim_str, u32_from_chars, utf8_str};
use vstd::string::StrSliceExecFns;
use vstd::utf8::{decode_utf8, valid_utf8};

verus! {

/// The service and method a gRPC call names.
#[derive(Debug, Clone, PartialEq, Eq)]
pub struct GrpcCall<'a> {
    /// Fully-qualified service name.
    pub service: &'a str,
    /// Method name.
    pub method: &'a str,
}

/// `/service/method` split into service and method: both non-empty,
/// no further `/`.
pub open spec fn grpc_path_spec(p: Seq<char>) -> Option<(Seq<char>, Seq<char>)> {
    if p.len() == 0 || p[0] != '/' {
        None
    } else {
        match index_of_char(p, '/', 1) {
            None => None,
            Some(k) => {
                let service = p.subrange(1, k);
                let method = p.skip(k + 1);
                if service.len() == 0 || method.len() == 0 || index_of_char(method, '/', 0)
                    is Some {
                    None
                } else {
                    Some((service, method))
                }
            },
        }
    }
}

proof fn lemma_index_shift(s: Seq<char>, c: char, k: int, i: int)
    requires
        0 <= k <= s.len(),
        0 <= i,
    ensures
        index_of_char(s.skip(k), c, i) == match index_of_char(s, c, k + i) {
            Some(j) => Some(j - k),
            None => None,
        },
    decreases s.len() - k - i,
{
    if k + i < s.len() && s[k + i] != c {
        lemma_index_shift(s, c, k, i + 1);
    }
}

impl<'a> GrpcCall<'a> {
    /// Split a gRPC `:path` into service and method; `None` for anything
    /// not shaped `/service/method`.
    pub fn parse_path(path: &'a str) -> (r: Option<Self>)
        ensures
            r matches Some(c) ==> grpc_path_spec(path@) == Some((c.service@, c.method@)),
            r is None ==> grpc_path_spec(path@) is None,
    {
        let cs = str_chars(path);
        if cs.len() == 0 || cs[0] != '/' {
            return None;
        }
        let k = match find_char(&cs, '/', 1) {
            None => {
                return None;
            },
            Some(k) => k,
        };
        let n = cs.len();
        if k == 1 || k + 1 == n {
            return None;
        }
        proof {
            lemma_index_shift(cs@, '/', k + 1, 0);
        }
        if find_char(&cs, '/', k + 1).is_some() {
            return None;
        }
        let service = path.substring_char(1, k);
        let method = path.substring_char(k + 1, n);
        assert(method@ =~= path@.skip(k + 1));
        Some(GrpcCall { service, method })
    }
}

/// `application/grpc`, exactly or followed by `+` or `;`.
pub open spec fn grpc_content_type_spec(v: Seq<u8>) -> bool {
    let prefix = seq![97u8, 112, 112, 108, 105, 99, 97, 116, 105, 111, 110, 47, 103, 114, 112, 99];
    v.len() >= 16 && v.take(16) == prefix && (v.len() == 16 || v[16] == 43 || v[16] == 59)
}

/// Whether a `content-type` marks the stream as gRPC.
pub fn is_grpc_content_type(value: &[u8]) -> (r: bool)
    ensures
        r == grpc_content_type_spec(value@),
{
    let prefix: [u8; 16] = [97u8, 112, 112, 108, 105, 99, 97, 116, 105, 111, 110, 47, 103, 114, 112, 99];
    if value.len() < 16 {
        return false;
    }
    let mut i: usize = 0;
    assert(prefix@ == seq![97u8, 112, 112, 108, 105, 99, 97, 116, 105, 111, 110, 47, 103, 114, 112, 99]);
    while i < 16
        invariant
            i <= 16,
            value@.len() >= 16,
            prefix@ == seq![97u8, 112, 112, 108, 105, 99, 97, 116, 105, 111, 110, 47, 103, 114, 112, 99],
            forall|j: int| 0 <= j < i ==> value@[j] == prefix@[j],
        decreases 16 - i,
    {
        if value[i] != prefix[i] {
            assert(value@.take(16)[i as int] != prefix@[i as int]);
            return false;
        }
        i += 1;
    }
    assert(value@.take(16) =~= prefix@);
    value.len() == 16 || value[16] == 43 || value[16] == 59
}

/// The call a stream's fields name, if its content type is gRPC and
/// its `:path` is gRPC-shaped.
pub open spec fn grpc_call_spec(fs: Seq<(Seq<u8>, Seq<u8>)>) -> Option<(Seq<char>, Seq<char>)> {
    match field_of(fs, seq![99u8, 111, 110, 116, 101, 110, 116, 45, 116, 121, 112, 101]) {
        Some(ct) => if grpc_content_type_spec(ct) {
            match super::stream::field_text(fs, seq![58u8, 112, 97, 116, 104]) {
                Some(p) => grpc_path_spec(p),
                None => None,
            }
        } else {
            None
        },
        None => None,
    }
}

/// The gRPC view of a stream head, if it is one.
pub fn grpc_call(head: &StreamHead) -> (r: Option<GrpcCall<'_>>)
    ensures
        r matches Some(c) ==> grpc_call_spec(head.fields.deep_view()) == Some((c.service@, c.method@)),
        r is None ==> grpc_call_spec(head.fields.deep_view()) is None,
{
    let name: [u8; 12] = [99u8, 111, 110, 116, 101, 110, 116, 45, 116, 121, 112, 101];
    let ct = match head.field_bytes(&name) {
        Some(v) => v,
        None => {
            return None;
        },
    };
    if !is_grpc_content_type(ct) {
        return None;
    }
    match head.path() {
        Some(p) => GrpcCall::parse_path(p),
        None => None,
    }
}

/// A gRPC call's outcome, read from its trailers.
#[derive(Debug, Clone, PartialEq, Eq)]
pub struct GrpcStatus {
    /// Numeric `grpc-status`; `0` is OK.
    pub code: u32,
    /// `grpc-message`, if present, as raw bytes.
    pub message: Option<Vec<u8>>,
}

/// The canonical name of each defined gRPC status code.
pub open spec fn grpc_code_name(code: u32) -> Option<Seq<char>> {
    match code {
        0u32 => Some("OK"@),
        1u32 => Some("CANCELLED"@),
        2u32 => Some("UNKNOWN"@),
        3u32 => Some("INVALID_ARGUMENT"@),
        4u32 => Some("DEADLINE_EXCEEDED"@),
        5u32 => Some("NOT_FOUND"@),
        6u32 => Some("ALREADY_EXISTS"@),
        7u32 => Some("PERMISSION_DENIED"@),
        8u32 => Some("RESOURCE_EXHAUSTED"@),
        9u32 => Some("FAILED_PRECONDITION"@),
        10u32 => Some("ABORTED"@),
        11u32 => Some("OUT_OF_RANGE"@),
        12u32 => Some("UNIMPLEMENTED"@),
        13u32 => Some("INTERNAL"@),
        14u32 => Some("UNAVAILABLE"@),
        15u32 => Some("DATA_LOSS"@),
        16u32 => Some("UNAUTHENTICATED"@),
        _ => None,
    }
}

impl GrpcStatus {
    /// `true` for status 0.
    pub fn is_ok(&self) -> (r: bool)
        ensures
            r == (self.code == 0),
    {
        self.code == 0
    }

    /// The canonical name of the code; `None` outside the defined range.
    pub fn name(&self) -> (r: Option<&'static str>)
        ensures
            r matches Some(s) ==> grpc_code_name(self.code) == Some(s@),
            r is None ==> grpc_code_name(self.code) is None,
    {
        match self.code {
            0u32 => Some("OK"),
            1u32 => Some("CANCELLED"),
            2u32 => Some("UNKNOWN"),
            3u32 => Some("INVALID_ARGUMENT"),
            4u32 => Some("DEADLINE_EXCEEDED"),
            5u32 => Some("NOT_FOUND"),
            6u32 => Some("ALREADY_EXISTS"),
            7u32 => Some("PERMISSION_DENIED"),
            8u32 => Some("RESOURCE_EXHAUSTED"),
            9u32 => Some("FAILED_PRECONDITION"),
            10u32 => Some("ABORTED"),
            11u32 => Some("OUT_OF_RANGE"),
            12u32 => Some("UNIMPLEMENTED"),
            13u32 => Some("INTERNAL"),
            14u32 => Some("UNAVAILABLE"),
            15u32 => Some("DATA_LOSS"),
            16u32 => Some("UNAUTHENTICATED"),
            _ => None,
        }
    }
}

/// `grpc-status` as bytes.
pub open spec fn grpc_status_name() -> Seq<u8> {
    seq![103u8, 114, 112, 99, 45, 115, 116, 97, 116, 117, 115]
}

/// `grpc-message` as bytes.
pub open spec fn grpc_message_name() -> Seq<u8> {
    seq![103u8, 114, 112, 99, 45, 109, 101, 115, 115, 97, 103, 101]
}

/// The status trailer fields report: the first `grpc-status`, as UTF-8
/// text trimmed of white space and read as a `u32`, with the first
/// `grpc-message` beside it.
pub open spec fn grpc_status_spec(fs: Seq<(Seq<u8>, Seq<u8>)>) -> Option<(u32, Option<Seq<u8>>)> {
    match field_of(fs, grpc_status_name()) {
        Some(v) => if valid_utf8(v) {
            match u32_from_chars(trim_chars(decode_utf8(v))) {
                Some(code) => Some((code, field_of(fs, grpc_message_name()))),
                None => None,
            }
        } else {
            None
        },
        None => None,
    }
}

/// The view of a status: its code and message bytes.
pub open spec fn status_view(s: GrpcStatus) -> (u32, Option<Seq<u8>>) {
    (s.code, match s.message {
        Some(m) => Some(m@),
        None => None,
    })
}

fn first_field<'a>(fields: &'a [(Vec<u8>, Vec<u8>)], name: &[u8]) -> (r: Option<&'a Vec<u8>>)
    ensures
        r matches Some(v) ==> field_of(fields.deep_view(), name@) == Some(v@),
        r is None ==> field_of(fields.deep_view(), name@) is None,
{
    let ghost fs = fields.deep_view();
    let mut i: usize = 0;
    assert(fs.skip(0) =~= fs);
    while i < fields.len()
        invariant
            i <= fields.len(),
            fs == fields.deep_view(),
            field_of(fs, name@) == field_of(fs.skip(i as int), name@),
        decreases fields.len() - i,
    {
        assert(fs.skip(i as int)[0] == fs[i as int]);
        assert(fs.skip(i as int).drop_first() =~= fs.skip(i + 1));
        assert(fs[i as int] == (fields[i as int].0@, fields[i as int].1@));
        if super::stream::bytes_eq(fields[i].0.as_slice(), name) {
            return Some(&fields[i].1);
        }
        i += 1;
    }
    None
}

/// Read a gRPC status out of trailer fields (or out of the head block
/// of a Trailers-Only response).
pub fn grpc_status(fields: &[(Vec<u8>, Vec<u8>)]) -> (r: Option<GrpcStatus>)
    ensures
        r matches Some(s) ==> grpc_status_spec(fields.deep_view()) == Some(status_view(s)),
        r is None ==> grpc_status_spec(fields.deep_view()) is None,
{
    let sn: [u8; 11] = [103u8, 114, 112, 99, 45, 115, 116, 97, 116, 117, 115];
    let mn: [u8; 12] = [103u8, 114, 112, 99, 45, 109, 101, 115, 115, 97, 103, 101];
    assert(sn@ == grpc_status_name());
    assert(mn@ == grpc_message_name());
    let raw = match first_field(fields, &sn) {
        Some(v) => v,
        None => {
            return None;
        },
    };
    let text = match utf8_str(raw.as_slice()) {
        Some(t) => t,
        None => {
            return None;
        },
    };
    let code = match parse_u32(trim_str(text)) {
        Some(c) => c,
        None => {
            return None;
        },
    };
    let message = match first_field(fields, &mn) {
        Some(m) => Some(m.clone()),
        None => None,
    };
    Some(GrpcStatus { code, message })
}

/// The status a stream head carries: the Trailers-Only case, where a
/// server answers with a single `HEADERS` block holding the status.
pub fn grpc_status_of(head: &StreamHead) -> (r: Option<GrpcStatus>)
    ensures
        r matches Some(s) ==> grpc_status_spec(head.fields.deep_view()) == Some(status_view(s)),
        r is None ==> grpc_status_spec(head.fields.deep_view()) is None,
{
    grpc_status(head.fields.as_slice())
}

/// The gRPC status code registry: codes 0 to 16 have the canonical
/// names of the gRPC specification, in order, and no other code has one.
pub proof fn lemma_grpc_code_registry(code: u32)
    ensures
        grpc_code_name(code) is Some <==> code <= 16,
        grpc_code_name(0) == Some("OK"@),
        grpc_code_name(1) == Some("CANCELLED"@),
        grpc_code_name(2) == Some("UNKNOWN"@),
        grpc_code_name(3) == Some("INVALID_ARGUMENT"@),
        grpc_code_name(4) == Some("DEADLINE_EXCEEDED"@),
        grpc_code_name(5) == Some("NOT_FOUND"@),
        grpc_code_name(6) == Some("ALREADY_EXISTS"@),
        grpc_code_name(7) == Some("PERMISSION_DENIED"@),
        grpc_code_name(8) == Some("RESOURCE_EXHAUSTED"@),
        grpc_code_name(9) == Some("FAILED_PRECONDITION"@),
        grpc_code_name(10) == Some("ABORTED"@),
        grpc_code_name(11) == Some("OUT_OF_RANGE"@),
        grpc_code_name(12) == Some("UNIMPLEMENTED"@),
        grpc_code_name(13) == Some("INTERNAL"@),
        grpc_code_name(14) == Some("UNAVAILABLE"@),
        grpc_code_name(15) == Some("DATA_LOSS"@),
        grpc_code_name(16) == Some("UNAUTHENTICATED"@),
{
}

} // verus!
