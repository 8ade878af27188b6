//! HTTP/1.x message shapes, framing vocabulary and header lookup.

use vstd::prelude::*;

use super::poison::HttpPoison;
use crate::text::{
    copy_bytes, lower_seq, parse_u16, to_lower_bytes, u16_from_chars,
    eq_ic, eq_ignore_ascii_case, parse_u64, trim_chars, trim_str, u64_from_chars, utf8_str,
};
use vstd::string::{StrSliceExecFns, StringExecFns, StringSliceAdditionalSpecFns};
use vstd::utf8::{decode_utf8, valid_utf8};

verus! {

/// HTTP/1.x protocol version.
#[derive(Debug, Clone, Copy, PartialEq, Eq, Structural)]
pub enum HttpVersion {
    Http1_0,
    Http1_1,
}

/// How a message body is delimited on the wire, decided from the
/// headers before any body byte is read.
#[derive(Debug, Clone, Copy, PartialEq, Eq, Structural)]
pub enum BodyFraming {
    /// No body.
    NoBody,
    /// Exactly `n` body bytes follow.
    ContentLength(u64),
    /// A chunk-framed body follows.
    Chunked,
    /// The body extends to the connection close (responses only).
    UntilClose,
}

/// How strictly an ambiguously framed message is treated.
#[derive(Debug, Clone, Copy, PartialEq, Eq, Structural)]
pub enum SmugglingPolicy {
    /// Any ambiguity poisons the connection.
    Strict,
    /// Apply the normalizations the framing rules allow and record them;
    /// anything that cannot be made unambiguous still poisons.
    Normalize,
    /// Never poison: frame on a best-effort basis.
    Observe,
}

/// A change made to an ambiguously framed message under
/// [`SmugglingPolicy::Normalize`].
#[derive(Debug, Clone, Copy, PartialEq, Eq, Structural)]
pub enum Normalization {
    /// `Content-Length` was dropped because `Transfer-Encoding` was present.
    StrippedContentLength,
    /// Several agreeing `Content-Length` values were collapsed to one.
    CollapsedContentLength,
}

/// The authority a request should be routed to.
#[derive(Debug, Clone, PartialEq, Eq)]
pub struct Authority {
    /// Exactly as it appeared on the wire.
    pub raw: Vec<u8>,
    /// ASCII-lowercased host, without the port.
    pub host: String,
    /// Explicit port, if the authority carried one.
    pub port: Option<u16>,
}

/// What a protocol switch handed the connection over to.
#[derive(Debug, Clone, PartialEq, Eq)]
pub enum SwitchKind {
    /// A `2xx` to `CONNECT`: the rest of the connection is a tunnel.
    ConnectTunnel,
    /// `101 Switching Protocols`, with the `Upgrade` header's token.
    Upgrade { protocol: Vec<u8> },
    /// The HTTP/2 connection preface appeared where a request was expected.
    Http2PriorKnowledge,
}

/// A parsed HTTP/1.x request: start line, headers and body.
#[derive(Debug, Clone)]
pub struct HttpRequest {
    pub method: Vec<u8>,
    pub path: Vec<u8>,
    pub version: HttpVersion,
    pub headers: Vec<(Vec<u8>, Vec<u8>)>,
    pub body: Vec<u8>,
}

/// A parsed HTTP/1.x response.
#[derive(Debug, Clone)]
pub struct HttpResponse {
    pub status: u16,
    pub reason: Vec<u8>,
    pub version: HttpVersion,
    pub headers: Vec<(Vec<u8>, Vec<u8>)>,
    pub body: Vec<u8>,
}

/// Request start line and headers, surfaced before the body.
#[derive(Debug, Clone)]
pub struct RequestHead {
    pub method: Vec<u8>,
    pub path: Vec<u8>,
    pub version: HttpVersion,
    pub headers: Vec<(Vec<u8>, Vec<u8>)>,
    pub framing: BodyFraming,
    pub applied: Vec<Normalization>,
    /// The exact on-wire head: start line through the blank line.
    pub raw: Vec<u8>,
}

/// Response status line and headers, surfaced before the body.
#[derive(Debug, Clone)]
pub struct ResponseHead {
    pub status: u16,
    pub reason: Vec<u8>,
    pub version: HttpVersion,
    pub headers: Vec<(Vec<u8>, Vec<u8>)>,
    pub framing: BodyFraming,
    /// `true` for a `1xx` interim response.
    pub interim: bool,
    pub applied: Vec<Normalization>,
    /// The exact on-wire head: status line through the blank line.
    pub raw: Vec<u8>,
}

/// Configuration knobs for the HTTP parser.
#[derive(Debug, Clone)]
pub struct HttpConfig {
    /// Cap on the buffered bytes per direction.
    pub max_buffer: usize,
    /// Cap on the number of headers per message.
    pub max_headers: usize,
}

impl Default for HttpConfig {
    fn default() -> (c: Self)
        ensures
            c.max_buffer == 1048576,
            c.max_headers == 64,
    {
        HttpConfig { max_buffer: 1048576, max_headers: 64 }
    }
}

/// Header fields as plain byte strings.
pub type HeaderSeq = Seq<(Seq<u8>, Seq<u8>)>;

/// The values of every header named `name` (ASCII case-insensitively),
/// in wire order.
pub open spec fn header_values(hs: HeaderSeq, name: Seq<u8>) -> Seq<Seq<u8>>
    decreases hs.len(),
{
    if hs.len() == 0 {
        Seq::empty()
    } else {
        let rest = header_values(hs.drop_last(), name);
        if eq_ic(hs.last().0, name) {
            rest.push(hs.last().1)
        } else {
            rest
        }
    }
}

/// The first value of a header named `name`, if any.
pub open spec fn first_header(hs: HeaderSeq, name: Seq<u8>) -> Option<Seq<u8>> {
    let vs = header_values(hs, name);
    if vs.len() > 0 {
        Some(vs[0])
    } else {
        None
    }
}

/// The first value of the header named `name` is at index `i`.
pub open spec fn first_header_at(hs: HeaderSeq, name: Seq<u8>, i: int) -> bool {
    &&& 0 <= i < hs.len()
    &&& eq_ic(hs[i].0, name)
    &&& forall|j: int| 0 <= j < i ==> !eq_ic(#[trigger] hs[j].0, name)
}

proof fn lemma_header_values_none(hs: HeaderSeq, name: Seq<u8>)
    requires
        forall|j: int| 0 <= j < hs.len() ==> !eq_ic(#[trigger] hs[j].0, name),
    ensures
        header_values(hs, name).len() == 0,
    decreases hs.len(),
{
    if hs.len() > 0 {
        lemma_header_values_none(hs.drop_last(), name);
    }
}

/// The first of the values named `name` is the one at the first
/// matching index.
pub proof fn lemma_first_header(hs: HeaderSeq, name: Seq<u8>, i: int)
    requires
        first_header_at(hs, name, i),
    ensures
        header_values(hs, name).len() > 0,
        header_values(hs, name)[0] == hs[i].1,
    decreases hs.len(),
{
    if i == hs.len() - 1 {
        assert(hs.drop_last().len() == i);
        assert forall|j: int| 0 <= j < hs.drop_last().len() implies !eq_ic(
            #[trigger] hs.drop_last()[j].0,
            name,
        ) by {
            assert(hs.drop_last()[j] == hs[j]);
        }
        lemma_header_values_none(hs.drop_last(), name);
    } else {
        assert(first_header_at(hs.drop_last(), name, i)) by {
            assert forall|j: int| 0 <= j < i implies !eq_ic(#[trigger] hs.drop_last()[j].0, name) by {
                assert(hs.drop_last()[j] == hs[j]);
            }
        }
        lemma_first_header(hs.drop_last(), name, i);
    }
}

/// Without a header named `name`, there is no value for it.
pub proof fn lemma_no_header(hs: HeaderSeq, name: Seq<u8>)
    requires
        forall|j: int| 0 <= j < hs.len() ==> !eq_ic(#[trigger] hs[j].0, name),
    ensures
        header_values(hs, name).len() == 0,
{
    lemma_header_values_none(hs, name);
}

/// Index of the first header named `name` (ASCII case-insensitively).
pub fn header_position(headers: &Vec<(Vec<u8>, Vec<u8>)>, name: &[u8]) -> (r: Option<usize>)
    ensures
        r matches Some(i) ==> first_header_at(headers.deep_view(), name@, i as int),
        r is None ==> forall|j: int|
            0 <= j < headers.len() ==> !eq_ic(#[trigger] headers.deep_view()[j].0, name@),
{
    let ghost hs = headers.deep_view();
    let mut i: usize = 0;
    while i < headers.len()
        invariant
            i <= headers.len(),
            hs == headers.deep_view(),
            forall|j: int| 0 <= j < i ==> !eq_ic(#[trigger] hs[j].0, name@),
        decreases headers.len() - i,
    {
        assert(hs[i as int].0 == headers[i as int].0@);
        if eq_ignore_ascii_case(headers[i].0.as_slice(), name) {
            return Some(i);
        }
        i += 1;
    }
    None
}

/// Every value of the header named `name`, in wire order.
pub fn header_lookup(headers: &Vec<(Vec<u8>, Vec<u8>)>, name: &[u8]) -> (r: Vec<Vec<u8>>)
    ensures
        r.deep_view() == header_values(headers.deep_view(), name@),
{
    let ghost hs = headers.deep_view();
    let mut out: Vec<Vec<u8>> = Vec::new();
    let mut i: usize = 0;
    while i < headers.len()
        invariant
            i <= headers.len(),
            hs == headers.deep_view(),
            out.deep_view() == header_values(hs.take(i as int), name@),
        decreases headers.len() - i,
    {
        assert(hs.take(i + 1).drop_last() =~= hs.take(i as int));
        assert(hs.take(i + 1).last() == hs[i as int]);
        assert(hs[i as int].0 == headers[i as int].0@);
        assert(hs[i as int].1 == headers[i as int].1@);
        if eq_ignore_ascii_case(headers[i].0.as_slice(), name) {
            let v = headers[i].1.clone();
            let ghost before = out.deep_view();
            proof {
                assert(v@ =~= headers[i as int].1@);
            }
            out.push(v);
            proof {
                crate::text::lemma_bytes_deep_view(v);
                assert(out.deep_view() =~= before.push(v@));
            }
        }
        i += 1;
    }
    assert(hs.take(headers.len() as int) =~= hs);
    out
}

/// The first value of the header named `name`.
pub fn header_first<'a>(headers: &'a Vec<(Vec<u8>, Vec<u8>)>, name: &[u8]) -> (r: Option<&'a [u8]>)
    ensures
        r matches Some(v) ==> first_header(headers.deep_view(), name@) == Some(v@),
        r is None ==> first_header(headers.deep_view(), name@) is None,
{
    match header_position(headers, name) {
        Some(i) => {
            proof {
                lemma_first_header(headers.deep_view(), name@, i as int);
            }
            Some(headers[i].1.as_slice())
        },
        None => {
            proof {
                lemma_no_header(headers.deep_view(), name@);
            }
            None
        },
    }
}

/// `host` as bytes.
pub open spec fn host_name() -> Seq<u8> {
    seq![104u8, 111, 115, 116]
}

/// `user-agent` as bytes.
pub open spec fn user_agent_name() -> Seq<u8> {
    seq![117u8, 115, 101, 114, 45, 97, 103, 101, 110, 116]
}

/// `cookie` as bytes.
pub open spec fn cookie_name() -> Seq<u8> {
    seq![99u8, 111, 111, 107, 105, 101]
}

/// `referer` as bytes.
pub open spec fn referer_name() -> Seq<u8> {
    seq![114u8, 101, 102, 101, 114, 101, 114]
}

/// `accept` as bytes.
pub open spec fn accept_name() -> Seq<u8> {
    seq![97u8, 99, 99, 101, 112, 116]
}

/// `content-type` as bytes.
pub open spec fn content_type_name() -> Seq<u8> {
    seq![99u8, 111, 110, 116, 101, 110, 116, 45, 116, 121, 112, 101]
}

/// `content-length` as bytes.
pub open spec fn content_length_name() -> Seq<u8> {
    seq![99u8, 111, 110, 116, 101, 110, 116, 45, 108, 101, 110, 103, 116, 104]
}

/// `set-cookie` as bytes.
pub open spec fn set_cookie_name() -> Seq<u8> {
    seq![115u8, 101, 116, 45, 99, 111, 111, 107, 105, 101]
}

/// The first value of a header, as UTF-8 text.
pub open spec fn header_text(hs: HeaderSeq, name: Seq<u8>) -> Option<Seq<char>> {
    match first_header(hs, name) {
        Some(v) => if valid_utf8(v) {
            Some(decode_utf8(v))
        } else {
            None
        },
        None => None,
    }
}

/// `Content-Length`, trimmed of white space and read as a `u64`.
pub open spec fn content_length_of_headers(hs: HeaderSeq) -> Option<u64> {
    match header_text(hs, content_length_name()) {
        Some(t) => u64_from_chars(trim_chars(t)),
        None => None,
    }
}

/// The class of a status: `status / 100` when that is 1 to 5.
pub open spec fn status_class_of(status: u16) -> Option<u8> {
    let cls = status / 100;
    if 1 <= cls && cls <= 5 {
        Some(cls as u8)
    } else {
        None
    }
}

/// The UTF-8 values among `vs`, decoded, in order.
pub open spec fn utf8_texts(vs: Seq<Seq<u8>>) -> Seq<Seq<char>>
    decreases vs.len(),
{
    if vs.len() == 0 {
        Seq::empty()
    } else {
        let rest = utf8_texts(vs.drop_last());
        if valid_utf8(vs.last()) {
            rest.push(decode_utf8(vs.last()))
        } else {
            rest
        }
    }
}

/// The characters of each string.
pub open spec fn texts_view(ss: Seq<&str>) -> Seq<Seq<char>> {
    ss.map_values(|s: &str| s@)
}

fn header_text_of<'a>(headers: &'a Vec<(Vec<u8>, Vec<u8>)>, name: &[u8]) -> (r: Option<&'a str>)
    ensures
        r matches Some(s) ==> header_text(headers.deep_view(), name@) == Some(s@),
        r is None ==> header_text(headers.deep_view(), name@) is None,
{
    match header_first(headers, name) {
        Some(v) => utf8_str(v),
        None => None,
    }
}

fn content_length_of(headers: &Vec<(Vec<u8>, Vec<u8>)>) -> (r: Option<u64>)
    ensures
        r == content_length_of_headers(headers.deep_view()),
{
    let n: [u8; 14] = [99u8, 111, 110, 116, 101, 110, 116, 45, 108, 101, 110, 103, 116, 104];
    assert(n@ == content_length_name());
    match header_text_of(headers, &n) {
        Some(t) => parse_u64(trim_str(t)),
        None => None,
    }
}

fn utf8_values<'a>(headers: &'a Vec<(Vec<u8>, Vec<u8>)>, name: &[u8]) -> (r: Vec<&'a str>)
    ensures
        texts_view(r@) == utf8_texts(header_values(headers.deep_view(), name@)),
{
    let ghost hs = headers.deep_view();
    let mut out: Vec<&'a str> = Vec::new();
    let mut i: usize = 0;
    while i < headers.len()
        invariant
            i <= headers.len(),
            hs == headers.deep_view(),
            texts_view(out@) == utf8_texts(header_values(hs.take(i as int), name@)),
        decreases headers.len() - i,
    {
        assert(hs.take(i + 1).drop_last() =~= hs.take(i as int));
        assert(hs.take(i + 1).last() == hs[i as int]);
        assert(hs[i as int].0 == headers[i as int].0@);
        assert(hs[i as int].1 == headers[i as int].1@);
        if eq_ignore_ascii_case(headers[i].0.as_slice(), name) {
            let ghost vs = header_values(hs.take(i + 1), name@);
            assert(vs.drop_last() == header_values(hs.take(i as int), name@));
            assert(vs.last() == headers[i as int].1@);
            match utf8_str(headers[i].1.as_slice()) {
                Some(s) => {
                    let ghost before = out@;
                    out.push(s);
                    assert(texts_view(out@) =~= texts_view(before).push(s@));
                },
                None => {},
            }
        }
        i += 1;
    }
    assert(hs.take(headers.len() as int) =~= hs);
    out
}

impl HttpRequest {
    /// A request from its parts.
    pub fn new(method: Vec<u8>, path: Vec<u8>, version: HttpVersion, headers: Vec<(Vec<u8>, Vec<u8>)>, body: Vec<u8>) -> (r: Self)
        ensures
            r.method == method,
            r.path == path,
            r.version == version,
            r.headers == headers,
            r.body == body,
    {
        HttpRequest { method, path, version, headers, body }
    }

    /// The method as UTF-8 text.
    pub fn method_str(&self) -> (r: Option<&str>)
        ensures
            r matches Some(s) ==> valid_utf8(self.method@) && s@ == decode_utf8(self.method@),
            r is None ==> !valid_utf8(self.method@),
    {
        utf8_str(self.method.as_slice())
    }

    /// The request-target as UTF-8 text.
    pub fn path_str(&self) -> (r: Option<&str>)
        ensures
            r matches Some(s) ==> valid_utf8(self.path@) && s@ == decode_utf8(self.path@),
            r is None ==> !valid_utf8(self.path@),
    {
        utf8_str(self.path.as_slice())
    }

    /// The `Host` header as UTF-8 text.
    pub fn host(&self) -> (r: Option<&str>)
        ensures
            r matches Some(s) ==> header_text(self.headers.deep_view(), host_name()) == Some(s@),
            r is None ==> header_text(self.headers.deep_view(), host_name()) is None,
    {
        let n: [u8; 4] = [104u8, 111, 115, 116];
        assert(n@ == host_name());
        header_text_of(&self.headers, &n)
    }

    /// The `User-Agent` header as UTF-8 text.
    pub fn user_agent(&self) -> (r: Option<&str>)
        ensures
            r matches Some(s) ==> header_text(self.headers.deep_view(), user_agent_name()) == Some(s@),
            r is None ==> header_text(self.headers.deep_view(), user_agent_name()) is None,
    {
        let n: [u8; 10] = [117u8, 115, 101, 114, 45, 97, 103, 101, 110, 116];
        assert(n@ == user_agent_name());
        header_text_of(&self.headers, &n)
    }

    /// The raw `Cookie` header as UTF-8 text.
    pub fn cookie(&self) -> (r: Option<&str>)
        ensures
            r matches Some(s) ==> header_text(self.headers.deep_view(), cookie_name()) == Some(s@),
            r is None ==> header_text(self.headers.deep_view(), cookie_name()) is None,
    {
        let n: [u8; 6] = [99u8, 111, 111, 107, 105, 101];
        assert(n@ == cookie_name());
        header_text_of(&self.headers, &n)
    }

    /// The `Referer` header as UTF-8 text.
    pub fn referer(&self) -> (r: Option<&str>)
        ensures
            r matches Some(s) ==> header_text(self.headers.deep_view(), referer_name()) == Some(s@),
            r is None ==> header_text(self.headers.deep_view(), referer_name()) is None,
    {
        let n: [u8; 7] = [114u8, 101, 102, 101, 114, 101, 114];
        assert(n@ == referer_name());
        header_text_of(&self.headers, &n)
    }

    /// The raw `Accept` header as UTF-8 text.
    pub fn accept(&self) -> (r: Option<&str>)
        ensures
            r matches Some(s) ==> header_text(self.headers.deep_view(), accept_name()) == Some(s@),
            r is None ==> header_text(self.headers.deep_view(), accept_name()) is None,
    {
        let n: [u8; 6] = [97u8, 99, 99, 101, 112, 116];
        assert(n@ == accept_name());
        header_text_of(&self.headers, &n)
    }

    /// The `Content-Type` header as UTF-8 text.
    pub fn content_type(&self) -> (r: Option<&str>)
        ensures
            r matches Some(s) ==> header_text(self.headers.deep_view(), content_type_name()) == Some(s@),
            r is None ==> header_text(self.headers.deep_view(), content_type_name()) is None,
    {
        let n: [u8; 12] = [99u8, 111, 110, 116, 101, 110, 116, 45, 116, 121, 112, 101];
        assert(n@ == content_type_name());
        header_text_of(&self.headers, &n)
    }

    /// `Content-Length` parsed as a number after trimming white space;
    /// `None` if absent, not UTF-8 or not a number.
    pub fn content_length(&self) -> (r: Option<u64>)
        ensures
            r == content_length_of_headers(self.headers.deep_view()),
    {
        content_length_of(&self.headers)
    }

    /// The first value of a header, matched without regard to ASCII
    /// case.
    pub fn header(&self, name: &str) -> (r: Option<&[u8]>)
        ensures
            r matches Some(v) ==> first_header(self.headers.deep_view(), name.spec_bytes()) == Some(v@),
            r is None ==> first_header(self.headers.deep_view(), name.spec_bytes()) is None,
    {
        let n = name.as_bytes_vec();
        header_first(&self.headers, n.as_slice())
    }

    /// Every value of a header, matched without regard to ASCII case,
    /// in wire order.
    pub fn headers_all(&self, name: &str) -> (r: Vec<Vec<u8>>)
        ensures
            r.deep_view() == header_values(self.headers.deep_view(), name.spec_bytes()),
    {
        let n = name.as_bytes_vec();
        header_lookup(&self.headers, n.as_slice())
    }

}

impl HttpResponse {
    /// A response from its parts.
    pub fn new(status: u16, reason: Vec<u8>, version: HttpVersion, headers: Vec<(Vec<u8>, Vec<u8>)>, body: Vec<u8>) -> (r: Self)
        ensures
            r.status == status,
            r.reason == reason,
            r.version == version,
            r.headers == headers,
            r.body == body,
    {
        HttpResponse { status, reason, version, headers, body }
    }

    /// The reason phrase as UTF-8 text.
    pub fn reason_str(&self) -> (r: Option<&str>)
        ensures
            r matches Some(s) ==> valid_utf8(self.reason@) && s@ == decode_utf8(self.reason@),
            r is None ==> !valid_utf8(self.reason@),
    {
        utf8_str(self.reason.as_slice())
    }

    /// The `Content-Type` header as UTF-8 text.
    pub fn content_type(&self) -> (r: Option<&str>)
        ensures
            r matches Some(s) ==> header_text(self.headers.deep_view(), content_type_name()) == Some(s@),
            r is None ==> header_text(self.headers.deep_view(), content_type_name()) is None,
    {
        let n: [u8; 12] = [99u8, 111, 110, 116, 101, 110, 116, 45, 116, 121, 112, 101];
        assert(n@ == content_type_name());
        header_text_of(&self.headers, &n)
    }

    /// Every `Set-Cookie` value that is UTF-8, in wire order.
    pub fn set_cookie(&self) -> (r: Vec<&str>)
        ensures
            texts_view(r@) == utf8_texts(header_values(self.headers.deep_view(), set_cookie_name())),
    {
        let n: [u8; 10] = [115u8, 101, 116, 45, 99, 111, 111, 107, 105, 101];
        assert(n@ == set_cookie_name());
        utf8_values(&self.headers, &n)
    }

    /// The status class, `status / 100`, for statuses 100 to 599.
    pub fn status_class(&self) -> (r: Option<u8>)
        ensures
            r == status_class_of(self.status),
    {
        let cls = self.status / 100;
        if 1 <= cls && cls <= 5 {
            Some(cls as u8)
        } else {
            None
        }
    }

    /// A `2xx` status.
    pub fn is_success(&self) -> (r: bool)
        ensures
            r == (status_class_of(self.status) == Some(2u8)),
    {
        self.status_class() == Some(2u8)
    }

    /// A `3xx` status.
    pub fn is_redirect(&self) -> (r: bool)
        ensures
            r == (status_class_of(self.status) == Some(3u8)),
    {
        self.status_class() == Some(3u8)
    }

    /// A `4xx` status.
    pub fn is_client_error(&self) -> (r: bool)
        ensures
            r == (status_class_of(self.status) == Some(4u8)),
    {
        self.status_class() == Some(4u8)
    }

    /// A `5xx` status.
    pub fn is_server_error(&self) -> (r: bool)
        ensures
            r == (status_class_of(self.status) == Some(5u8)),
    {
        self.status_class() == Some(5u8)
    }

    /// `Content-Length` parsed as a number after trimming white space;
    /// `None` if absent, not UTF-8 or not a number.
    pub fn content_length(&self) -> (r: Option<u64>)
        ensures
            r == content_length_of_headers(self.headers.deep_view()),
    {
        content_length_of(&self.headers)
    }

    /// The first value of a header, matched without regard to ASCII
    /// case.
    pub fn header(&self, name: &str) -> (r: Option<&[u8]>)
        ensures
            r matches Some(v) ==> first_header(self.headers.deep_view(), name.spec_bytes()) == Some(v@),
            r is None ==> first_header(self.headers.deep_view(), name.spec_bytes()) is None,
    {
        let n = name.as_bytes_vec();
        header_first(&self.headers, n.as_slice())
    }

    /// Every value of a header, matched without regard to ASCII case,
    /// in wire order.
    pub fn headers_all(&self, name: &str) -> (r: Vec<Vec<u8>>)
        ensures
            r.deep_view() == header_values(self.headers.deep_view(), name.spec_bytes()),
    {
        let n = name.as_bytes_vec();
        header_lookup(&self.headers, n.as_slice())
    }

}

impl RequestHead {
    /// The method as UTF-8 text.
    pub fn method_str(&self) -> (r: Option<&str>)
        ensures
            r matches Some(s) ==> valid_utf8(self.method@) && s@ == decode_utf8(self.method@),
            r is None ==> !valid_utf8(self.method@),
    {
        utf8_str(self.method.as_slice())
    }

    /// The request-target as UTF-8 text.
    pub fn path_str(&self) -> (r: Option<&str>)
        ensures
            r matches Some(s) ==> valid_utf8(self.path@) && s@ == decode_utf8(self.path@),
            r is None ==> !valid_utf8(self.path@),
    {
        utf8_str(self.path.as_slice())
    }

    /// The raw `Host` header as UTF-8 text.
    pub fn host(&self) -> (r: Option<&str>)
        ensures
            r matches Some(s) ==> header_text(self.headers.deep_view(), host_name()) == Some(s@),
            r is None ==> header_text(self.headers.deep_view(), host_name()) is None,
    {
        let n: [u8; 4] = [104u8, 111, 115, 116];
        assert(n@ == host_name());
        header_text_of(&self.headers, &n)
    }

    /// `Content-Length` parsed as a number after trimming white space;
    /// `None` if absent, not UTF-8 or not a number.
    pub fn content_length(&self) -> (r: Option<u64>)
        ensures
            r == content_length_of_headers(self.headers.deep_view()),
    {
        content_length_of(&self.headers)
    }

    /// The first value of a header, matched without regard to ASCII
    /// case.
    pub fn header(&self, name: &str) -> (r: Option<&[u8]>)
        ensures
            r matches Some(v) ==> first_header(self.headers.deep_view(), name.spec_bytes()) == Some(v@),
            r is None ==> first_header(self.headers.deep_view(), name.spec_bytes()) is None,
    {
        let n = name.as_bytes_vec();
        header_first(&self.headers, n.as_slice())
    }

    /// Every value of a header, matched without regard to ASCII case,
    /// in wire order.
    pub fn headers_all(&self, name: &str) -> (r: Vec<Vec<u8>>)
        ensures
            r.deep_view() == header_values(self.headers.deep_view(), name.spec_bytes()),
    {
        let n = name.as_bytes_vec();
        header_lookup(&self.headers, n.as_slice())
    }

}

impl ResponseHead {
    /// The reason phrase as UTF-8 text.
    pub fn reason_str(&self) -> (r: Option<&str>)
        ensures
            r matches Some(s) ==> valid_utf8(self.reason@) && s@ == decode_utf8(self.reason@),
            r is None ==> !valid_utf8(self.reason@),
    {
        utf8_str(self.reason.as_slice())
    }

    /// The status class, `status / 100`, for statuses 100 to 599.
    pub fn status_class(&self) -> (r: Option<u8>)
        ensures
            r == status_class_of(self.status),
    {
        let cls = self.status / 100;
        if 1 <= cls && cls <= 5 {
            Some(cls as u8)
        } else {
            None
        }
    }

    /// A `2xx` status.
    pub fn is_success(&self) -> (r: bool)
        ensures
            r == (status_class_of(self.status) == Some(2u8)),
    {
        self.status_class() == Some(2u8)
    }

    /// `Content-Length` parsed as a number after trimming white space;
    /// `None` if absent, not UTF-8 or not a number.
    pub fn content_length(&self) -> (r: Option<u64>)
        ensures
            r == content_length_of_headers(self.headers.deep_view()),
    {
        content_length_of(&self.headers)
    }

    /// The first value of a header, matched without regard to ASCII
    /// case.
    pub fn header(&self, name: &str) -> (r: Option<&[u8]>)
        ensures
            r matches Some(v) ==> first_header(self.headers.deep_view(), name.spec_bytes()) == Some(v@),
            r is None ==> first_header(self.headers.deep_view(), name.spec_bytes()) is None,
    {
        let n = name.as_bytes_vec();
        header_first(&self.headers, n.as_slice())
    }

    /// Every value of a header, matched without regard to ASCII case,
    /// in wire order.
    pub fn headers_all(&self, name: &str) -> (r: Vec<Vec<u8>>)
        ensures
            r.deep_view() == header_values(self.headers.deep_view(), name.spec_bytes()),
    {
        let n = name.as_bytes_vec();
        header_lookup(&self.headers, n.as_slice())
    }

}

/// Index of the first `://` at or after `i`.
pub open spec fn scheme_sep(t: Seq<u8>, i: int) -> Option<int>
    decreases t.len() - i,
{
    if i < 0 || i + 3 > t.len() {
        None
    } else if t[i] == 58 && t[i + 1] == 47 && t[i + 2] == 47 {
        Some(i)
    } else {
        scheme_sep(t, i + 1)
    }
}

/// An ASCII letter or digit.
pub open spec fn is_alnum(b: u8) -> bool {
    (48 <= b && b <= 57) || (65 <= b && b <= 90) || (97 <= b && b <= 122)
}

/// Index of the first `/`, `?` or `#` at or after `i`.
pub open spec fn target_path_start(t: Seq<u8>, i: int) -> Option<int>
    decreases t.len() - i,
{
    if i < 0 || i >= t.len() {
        None
    } else if t[i] == 47 || t[i] == 63 || t[i] == 35 {
        Some(i)
    } else {
        target_path_start(t, i + 1)
    }
}

/// The byte range of the authority in an absolute-form target
/// (`scheme://authority/path`): after the first `://`, when what comes
/// before it is a non-empty run of letters and digits, up to the first
/// `/`, `?` or `#`.
pub open spec fn absolute_authority(t: Seq<u8>) -> Option<(int, int)> {
    match scheme_sep(t, 0) {
        None => None,
        Some(sep) => if sep == 0 || !(forall|j: int| 0 <= j < sep ==> is_alnum(#[trigger] t[j])) {
            None
        } else {
            let start = sep + 3;
            match target_path_start(t, start) {
                Some(e) => Some((start, e)),
                None => Some((start, t.len() as int)),
            }
        },
    }
}

/// Index of the last `c` in `s`.
pub open spec fn last_index(s: Seq<u8>, c: u8) -> Option<int>
    decreases s.len(),
{
    if s.len() == 0 {
        None
    } else if s.last() == c {
        Some(s.len() - 1)
    } else {
        last_index(s.drop_last(), c)
    }
}

/// Index of the first `c` in `s`.
pub open spec fn first_index(s: Seq<u8>, c: u8, i: int) -> Option<int>
    decreases s.len() - i,
{
    if i < 0 || i >= s.len() {
        None
    } else if s[i] == c {
        Some(i)
    } else {
        first_index(s, c, i + 1)
    }
}

/// A port number, as `str::parse::<u16>` reads it.
pub open spec fn port_number(p: Seq<u8>) -> Option<u16> {
    if valid_utf8(p) {
        u16_from_chars(decode_utf8(p))
    } else {
        None
    }
}

/// Every byte is ASCII.
pub open spec fn all_ascii(s: Seq<u8>) -> bool {
    forall|i: int| 0 <= i < s.len() ==> #[trigger] s[i] < 128
}

/// Every byte is an ASCII digit.
pub open spec fn all_ascii_digits(s: Seq<u8>) -> bool {
    forall|i: int| 0 <= i < s.len() ==> 48 <= #[trigger] s[i] && s[i] <= 57
}

/// An authority split into its lower-cased host bytes and its port:
/// userinfo up to the last `@` dropped; an IPv6 literal in brackets,
/// optionally followed by `:port`; otherwise the text after the last
/// `:` is the port when it is all digits. Refused: non-ASCII bytes,
/// an unclosed bracket, an empty or unreadable port after a bracket,
/// and a non-numeric text after the last `:`.
pub open spec fn authority_parts(raw: Seq<u8>) -> Result<(Seq<u8>, Option<u16>), HttpPoison> {
    if !all_ascii(raw) {
        Err(HttpPoison::NonAsciiAuthority)
    } else {
        let s = match last_index(raw, 64) {
            Some(k) => raw.skip(k + 1),
            None => raw,
        };
        if s.len() > 0 && s[0] == 91 {
            let rest = s.skip(1);
            match first_index(rest, 93, 0) {
                None => Err(HttpPoison::NonAsciiAuthority),
                Some(k) => {
                    let inside = rest.take(k);
                    let after = rest.skip(k + 1);
                    if after.len() > 0 && after[0] == 58 {
                        let p = after.skip(1);
                        if p.len() == 0 {
                            Err(HttpPoison::NonAsciiAuthority)
                        } else {
                            match port_number(p) {
                                Some(n) => Ok((lower_seq(inside), Some(n))),
                                None => Err(HttpPoison::NonAsciiAuthority),
                            }
                        }
                    } else {
                        Ok((lower_seq(inside), None))
                    }
                },
            }
        } else {
            match last_index(s, 58) {
                Some(k) => {
                    let h = s.take(k);
                    let p = s.skip(k + 1);
                    if p.len() > 0 && all_ascii_digits(p) {
                        match port_number(p) {
                            Some(n) => Ok((lower_seq(h), Some(n))),
                            None => Err(HttpPoison::NonAsciiAuthority),
                        }
                    } else if p.len() > 0 {
                        Err(HttpPoison::NonAsciiAuthority)
                    } else {
                        Ok((lower_seq(s), None))
                    }
                },
                None => Ok((lower_seq(s), None)),
            }
        }
    }
}

/// The host as text and the port of an authority.
pub open spec fn authority_spec(raw: Seq<u8>) -> Result<(Seq<char>, Option<u16>), HttpPoison> {
    match authority_parts(raw) {
        Ok((h, p)) => if valid_utf8(h) {
            Ok((decode_utf8(h), p))
        } else {
            Err(HttpPoison::NonAsciiAuthority)
        },
        Err(e) => Err(e),
    }
}

/// Where a request's authority comes from: the absolute-form target if
/// there is one, else the `Host` header, else nothing. Two `Host`
/// headers are refused.
pub open spec fn authority_source(path: Seq<u8>, hs: HeaderSeq) -> Result<Seq<u8>, HttpPoison> {
    if header_values(hs, host_name()).len() >= 2 {
        Err(HttpPoison::DuplicateHost)
    } else {
        match absolute_authority(path) {
            Some((a, b)) => Ok(path.subrange(a, b)),
            None => match first_header(hs, host_name()) {
                Some(v) => Ok(v),
                None => Ok(Seq::empty()),
            },
        }
    }
}

fn find_scheme_sep(t: &[u8]) -> (r: Option<usize>)
    ensures
        r matches Some(k) ==> scheme_sep(t@, 0) == Some(k as int) && k + 3 <= t@.len(),
        r is None ==> scheme_sep(t@, 0) is None,
{
    let n = t.len();
    if n < 3 {
        return None;
    }
    let mut i: usize = 0;
    while i <= n - 3
        invariant
            n == t@.len(),
            n >= 3,
            i <= n - 2,
            scheme_sep(t@, 0) == scheme_sep(t@, i as int),
        decreases n - i,
    {
        if t[i] == 58 && t[i + 1] == 47 && t[i + 2] == 47 {
            return Some(i);
        }
        i += 1;
    }
    None
}

fn absolute_form_authority(t: &[u8]) -> (r: Option<(usize, usize)>)
    ensures
        r matches Some((a, b)) ==> absolute_authority(t@) == Some((a as int, b as int)) && a <= b <= t@.len(),
        r is None ==> absolute_authority(t@) is None,
{
    let n = t.len();
    let sep = match find_scheme_sep(t) {
        Some(k) => k,
        None => {
            return None;
        },
    };
    if sep == 0 {
        return None;
    }
    let mut j: usize = 0;
    while j < sep
        invariant
            sep < n,
            n == t@.len(),
            scheme_sep(t@, 0) == Some(sep as int),
            forall|k: int| 0 <= k < j ==> is_alnum(#[trigger] t@[k]),
        decreases sep - j,
    {
        let b = t[j];
        if !((48 <= b && b <= 57) || (65 <= b && b <= 90) || (97 <= b && b <= 122)) {
            assert(!is_alnum(t@[j as int]));
            return None;
        }
        j += 1;
    }
    let start = sep + 3;
    let mut e = start;
    while e < n
        invariant
            start <= e <= n,
            start <= n,
            n == t@.len(),
            start == sep + 3,
            sep > 0,
            scheme_sep(t@, 0) == Some(sep as int),
            forall|k: int| 0 <= k < sep ==> is_alnum(#[trigger] t@[k]),
            target_path_start(t@, start as int) == target_path_start(t@, e as int),
        decreases n - e,
    {
        let b = t[e];
        if b == 47 || b == 63 || b == 35 {
            return Some((start, e));
        }
        e += 1;
    }
    Some((start, n))
}

fn last_index_of(s: &[u8], c: u8) -> (r: Option<usize>)
    ensures
        r matches Some(k) ==> last_index(s@, c) == Some(k as int) && k < s@.len(),
        r is None ==> last_index(s@, c) is None,
{
    let mut i: usize = s.len();
    assert(s@.take(i as int) =~= s@);
    while i > 0
        invariant
            i <= s@.len(),
            last_index(s@, c) == last_index(s@.take(i as int), c),
        decreases i,
    {
        assert(s@.take(i as int).drop_last() =~= s@.take(i - 1));
        if s[i - 1] == c {
            return Some(i - 1);
        }
        i -= 1;
    }
    None
}

fn first_index_of(s: &[u8], c: u8) -> (r: Option<usize>)
    ensures
        r matches Some(k) ==> first_index(s@, c, 0) == Some(k as int) && k < s@.len(),
        r is None ==> first_index(s@, c, 0) is None,
{
    let mut i: usize = 0;
    while i < s.len()
        invariant
            i <= s@.len(),
            first_index(s@, c, 0) == first_index(s@, c, i as int),
        decreases s@.len() - i,
    {
        if s[i] == c {
            return Some(i);
        }
        i += 1;
    }
    None
}

fn port_of(p: &[u8]) -> (r: Option<u16>)
    ensures
        r == port_number(p@),
{
    match utf8_str(p) {
        Some(t) => parse_u16(t),
        None => None,
    }
}

fn authority_parts_of(raw: &[u8]) -> (r: Result<(Vec<u8>, Option<u16>), HttpPoison>)
    ensures
        match (r, authority_parts(raw@)) {
            (Ok((h, p)), Ok((h2, p2))) => h@ == h2 && p == p2,
            (Err(e), Err(e2)) => e == e2,
            _ => false,
        },
{
    let mut i: usize = 0;
    while i < raw.len()
        invariant
            i <= raw@.len(),
            forall|k: int| 0 <= k < i ==> #[trigger] raw@[k] < 128,
        decreases raw@.len() - i,
    {
        if raw[i] >= 128 {
            assert(!all_ascii(raw@));
            return Err(HttpPoison::NonAsciiAuthority);
        }
        i += 1;
    }
    let n = raw.len();
    let s: &[u8] = match last_index_of(raw, 64) {
        Some(k) => {
            assert(raw@.subrange(k + 1, n as int) =~= raw@.skip(k + 1));
            &raw[k + 1..n]
        },
        None => raw,
    };
    let m = s.len();
    if m > 0 && s[0] == 91 {
        let rest = &s[1..m];
        assert(rest@ =~= s@.skip(1));
        let k = match first_index_of(rest, 93) {
            None => {
                return Err(HttpPoison::NonAsciiAuthority);
            },
            Some(k) => k,
        };
        let rl = rest.len();
        let inside = &rest[0..k];
        let after = &rest[k + 1..rl];
        assert(inside@ =~= rest@.take(k as int));
        assert(after@ =~= rest@.skip(k + 1));
        let al = after.len();
        if al > 0 && after[0] == 58 {
            let p = &after[1..al];
            assert(p@ =~= after@.skip(1));
            if p.len() == 0 {
                return Err(HttpPoison::NonAsciiAuthority);
            }
            match port_of(p) {
                Some(n) => Ok((to_lower_bytes(inside), Some(n))),
                None => Err(HttpPoison::NonAsciiAuthority),
            }
        } else {
            Ok((to_lower_bytes(inside), None))
        }
    } else {
        match last_index_of(s, 58) {
            Some(k) => {
                let h = &s[0..k];
                let p = &s[k + 1..m];
                assert(h@ =~= s@.take(k as int));
                assert(p@ =~= s@.skip(k + 1));
                let pl = p.len();
                let mut digits = true;
                let mut j: usize = 0;
                while j < pl
                    invariant
                        j <= pl,
                        pl == p@.len(),
                        digits == (forall|x: int| 0 <= x < j ==> 48 <= #[trigger] p@[x] && p@[x] <= 57),
                    decreases pl - j,
                {
                    if !(48 <= p[j] && p[j] <= 57) {
                        digits = false;
                    }
                    j += 1;
                }
                if pl > 0 && digits {
                    match port_of(p) {
                        Some(n) => Ok((to_lower_bytes(h), Some(n))),
                        None => Err(HttpPoison::NonAsciiAuthority),
                    }
                } else if pl > 0 {
                    Err(HttpPoison::NonAsciiAuthority)
                } else {
                    Ok((to_lower_bytes(s), None))
                }
            },
            None => Ok((to_lower_bytes(s), None)),
        }
    }
}

fn parse_authority(raw: Vec<u8>) -> (r: Result<Authority, HttpPoison>)
    ensures
        match authority_spec(raw@) {
            Ok((h, p)) => r matches Ok(a) && a.raw@ == raw@ && a.host@ == h && a.port == p,
            Err(e) => r == Err::<Authority, HttpPoison>(e),
        },
{
    match authority_parts_of(raw.as_slice()) {
        Ok((h, port)) => match utf8_str(h.as_slice()) {
            Some(t) => Ok(Authority { raw, host: String::from_str(t), port }),
            None => Err(HttpPoison::NonAsciiAuthority),
        },
        Err(e) => Err(e),
    }
}

impl RequestHead {
    /// The authority the request should be routed to: an absolute-form
    /// target wins over the `Host` header; the host is lower-cased with
    /// ASCII rules only; a non-ASCII authority or a second `Host` header
    /// is refused.
    pub fn authority(&self) -> (r: Result<Authority, HttpPoison>)
        ensures
            match authority_source(self.path@, self.headers.deep_view()) {
                Err(e) => r == Err::<Authority, HttpPoison>(e),
                Ok(raw) => match authority_spec(raw) {
                    Ok((h, p)) => r matches Ok(a) && a.raw@ == raw && a.host@ == h && a.port == p,
                    Err(e) => r == Err::<Authority, HttpPoison>(e),
                },
            },
    {
        let n: [u8; 4] = [104u8, 111, 115, 116];
        assert(n@ == host_name());
        let hosts = header_lookup(&self.headers, &n);
        if hosts.len() >= 2 {
            return Err(HttpPoison::DuplicateHost);
        }
        let raw: Vec<u8> = match absolute_form_authority(self.path.as_slice()) {
            Some((a, b)) => {
                let v = copy_bytes(&self.path.as_slice()[a..b]);
                assert(v@ =~= self.path@.subrange(a as int, b as int));
                v
            },
            None => match header_first(&self.headers, &n) {
                Some(v) => copy_bytes(v),
                None => Vec::new(),
            },
        };
        parse_authority(raw)
    }
}

} // verus!
