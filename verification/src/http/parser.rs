//! Message-at-a-time HTTP/1.x parsing for passive telemetry: a head is
//! parsed with `httparse`, the body is delimited by `Content-Length`
//! (or the connection close), and one whole request or response is
//! emitted at a time.

use vstd::prelude::*;

use super::framing::{content_length_tok, tok_content_length};
use super::head::{
    httparse_request, httparse_request_call, httparse_response, httparse_response_call,
    named_headers, named_prefix, version_of,
};
use super::types::{
    first_header, header_first, HeaderSeq, HttpConfig, HttpRequest, HttpResponse, HttpVersion,
};
use crate::error::{Error, ErrorCode, Module};
use crate::text::{
    lemma_bytes_deep_view, parse_usize, trim_chars, trim_str, usize_from_chars, utf8_str,
};
use vstd::utf8::{decode_utf8, valid_utf8};

verus! {

/// The start-line fields of a message, captured when its head completes.
#[derive(Debug, Clone)]
pub struct BodyStart {
    pub is_request: bool,
    pub method: Vec<u8>,
    pub path: Vec<u8>,
    pub status: u16,
    pub reason: Vec<u8>,
    pub version: HttpVersion,
    pub headers: Vec<(Vec<u8>, Vec<u8>)>,
}

/// A message start as plain values: request or not, method, target,
/// status, reason, version, headers.
pub type StartView = (bool, Seq<u8>, Seq<u8>, u16, Seq<u8>, HttpVersion, HeaderSeq);

impl View for BodyStart {
    type V = StartView;

    open spec fn view(&self) -> StartView {
        (
            self.is_request,
            self.method@,
            self.path@,
            self.status,
            self.reason@,
            self.version,
            self.headers.deep_view(),
        )
    }
}

/// Per-direction parse state.
#[derive(Debug, Clone)]
pub enum DirState {
    /// Awaiting a start line and headers.
    Headers,
    /// Reading a body of `remaining` bytes.
    Body { remaining: usize, started: BodyStart },
    /// The body extends to the end of the stream.
    UntilEof { started: BodyStart },
    /// A previous error forced the direction to give up.
    Desynced,
}

/// A parse state as plain values.
pub enum StateView {
    Headers,
    Body(usize, StartView),
    UntilEof(StartView),
    Desynced,
}

impl View for DirState {
    type V = StateView;

    open spec fn view(&self) -> StateView {
        match self {
            DirState::Headers => StateView::Headers,
            DirState::Body { remaining, started } => StateView::Body(*remaining, started@),
            DirState::UntilEof { started } => StateView::UntilEof(started@),
            DirState::Desynced => StateView::Desynced,
        }
    }
}

/// One parsed message.
#[derive(Debug)]
pub enum ParseOutput {
    Request(HttpRequest),
    Response(HttpResponse),
}

/// A message as plain values: its start and its body.
pub type MessageView = (StartView, Seq<u8>);

impl View for ParseOutput {
    type V = MessageView;

    open spec fn view(&self) -> MessageView {
        match self {
            ParseOutput::Request(r) => (
                (
                    true,
                    r.method@,
                    r.path@,
                    0u16,
                    Seq::empty(),
                    r.version,
                    r.headers.deep_view(),
                ),
                r.body@,
            ),
            ParseOutput::Response(r) => (
                (
                    false,
                    Seq::empty(),
                    Seq::empty(),
                    r.status,
                    r.reason@,
                    r.version,
                    r.headers.deep_view(),
                ),
                r.body@,
            ),
        }
    }
}

/// What parsing a head at the start of a buffer gives.
pub enum HeadView {
    /// httparse refused the bytes.
    Invalid,
    /// The head is not complete yet.
    Partial,
    /// The head parsed but lacks a field the message needs.
    Unusable,
    /// A complete head of the given length.
    Complete(usize, StartView),
}

/// The head at the start of `buf`, parsed with `max_headers` slots.
pub open spec fn telemetry_head(buf: Seq<u8>, is_request: bool, max_headers: usize) -> HeadView {
    if is_request {
        match httparse_request(buf, max_headers as nat) {
            None => HeadView::Invalid,
            Some(None) => HeadView::Partial,
            Some(Some((hlen, m, p, v, hs))) => if hlen == 0 || hlen > buf.len() {
                HeadView::Invalid
            } else {
                match (m, p, version_of(v)) {
                    (Some(m), Some(p), Some(ver)) => HeadView::Complete(
                        hlen,
                        (true, m, p, 0u16, Seq::empty(), ver, named_prefix(hs)),
                    ),
                    _ => HeadView::Unusable,
                }
            },
        }
    } else {
        match httparse_response(buf, max_headers as nat) {
            None => HeadView::Invalid,
            Some(None) => HeadView::Partial,
            Some(Some((hlen, v, code, reason, hs))) => if hlen == 0 || hlen > buf.len() {
                HeadView::Invalid
            } else {
                match (code, version_of(v)) {
                    (Some(code), Some(ver)) => HeadView::Complete(
                        hlen,
                        (
                            false,
                            Seq::empty(),
                            Seq::empty(),
                            code,
                            match reason {
                                Some(r) => r,
                                None => Seq::empty(),
                            },
                            ver,
                            named_prefix(hs),
                        ),
                    ),
                    _ => HeadView::Unusable,
                }
            },
        }
    }
}

/// The body length a header block declares: its first
/// `Content-Length`, read as text, trimmed and parsed as `usize`.
pub open spec fn content_length_of(hs: HeaderSeq) -> Option<usize> {
    match first_header(hs, tok_content_length()) {
        None => None,
        Some(v) => if valid_utf8(v) {
            usize_from_chars(trim_chars(decode_utf8(v)))
        } else {
            None
        },
    }
}

/// A request method that, without a length, is taken to have no body:
/// exactly `GET`, `HEAD`, `DELETE` or `OPTIONS`.
pub open spec fn bodiless_method(m: Seq<u8>) -> bool {
    m == seq![71u8, 69, 84] || m == seq![72u8, 69, 65, 68] || m == seq![68u8, 69, 76, 69, 84, 69]
        || m == seq![79u8, 80, 84, 73, 79, 78, 83]
}

/// The state a completed head moves to.
pub open spec fn transition_spec(st: StartView) -> StateView {
    match content_length_of(st.6) {
        Some(n) => StateView::Body(n, st),
        None => if st.0 && bodiless_method(st.1) {
            StateView::Body(0, st)
        } else {
            StateView::UntilEof(st)
        },
    }
}

/// What one step reports.
pub enum StepView {
    /// A whole message.
    Emit(MessageView),
    /// Nothing yet.
    Wait,
    /// The buffer exceeded its cap.
    Overflow,
    /// The head could not be used.
    Refused,
}

/// The body phase of a step: emit a body once it is all buffered.
pub open spec fn body_phase(s: StateView, buf: Seq<u8>) -> (StateView, Seq<u8>, StepView) {
    match s {
        StateView::Body(n, st) => if n == 0 {
            (StateView::Headers, buf, StepView::Emit((st, Seq::empty())))
        } else if buf.len() < n {
            (s, buf, StepView::Wait)
        } else {
            (StateView::Headers, buf.skip(n as int), StepView::Emit((st, buf.take(n as int))))
        },
        _ => (s, buf, StepView::Wait),
    }
}

/// One parse step: the next state, the buffer left, and what it reports.
pub open spec fn step_spec(
    s: StateView,
    buf: Seq<u8>,
    is_request: bool,
    max_buffer: usize,
    max_headers: usize,
) -> (StateView, Seq<u8>, StepView) {
    if buf.len() > max_buffer {
        (StateView::Desynced, Seq::empty(), StepView::Overflow)
    } else {
        match s {
            StateView::Headers => match telemetry_head(buf, is_request, max_headers) {
                HeadView::Invalid => (StateView::Desynced, Seq::empty(), StepView::Refused),
                HeadView::Partial => (StateView::Headers, buf, StepView::Wait),
                HeadView::Unusable => (StateView::Headers, buf, StepView::Refused),
                HeadView::Complete(hlen, st) => body_phase(
                    transition_spec(st),
                    buf.skip(hlen as int),
                ),
            },
            _ => body_phase(s, buf),
        }
    }
}

/// What a step's result reports.
pub open spec fn step_outcome(r: Result<Option<ParseOutput>, Error>) -> StepView {
    match r {
        Ok(Some(out)) => StepView::Emit(out@),
        Ok(None) => StepView::Wait,
        Err(e) => if e.spec_kind().code == ErrorCode::BufferOverflow {
            StepView::Overflow
        } else {
            StepView::Refused
        },
    }
}

fn emit(started: BodyStart, body: Vec<u8>) -> (out: ParseOutput)
    ensures
        out@ == (started@, body@) || (started.is_request && out@ == (
            (
                true,
                started.method@,
                started.path@,
                0u16,
                Seq::<u8>::empty(),
                started.version,
                started.headers.deep_view(),
            ),
            body@,
        )) || (!started.is_request && out@ == (
            (
                false,
                Seq::<u8>::empty(),
                Seq::<u8>::empty(),
                started.status,
                started.reason@,
                started.version,
                started.headers.deep_view(),
            ),
            body@,
        )),
{
    if started.is_request {
        ParseOutput::Request(
            HttpRequest {
                method: started.method,
                path: started.path,
                version: started.version,
                headers: started.headers,
                body,
            },
        )
    } else {
        ParseOutput::Response(
            HttpResponse {
                status: started.status,
                reason: started.reason,
                version: started.version,
                headers: started.headers,
                body,
            },
        )
    }
}

/// A start as produced by a head: a request has no status or reason,
/// a response no method or target.
pub open spec fn start_shape(st: StartView) -> bool {
    if st.0 {
        st.3 == 0 && st.4.len() == 0
    } else {
        st.1.len() == 0 && st.2.len() == 0
    }
}

/// Every start a state holds has the shape a head gives it.
pub open spec fn state_shape(s: StateView) -> bool {
    match s {
        StateView::Body(_, st) => start_shape(st),
        StateView::UntilEof(st) => start_shape(st),
        _ => true,
    }
}

proof fn lemma_emit_shape(started: BodyStart, body: Vec<u8>, out: ParseOutput)
    requires
        start_shape(started@),
        out@ == (started@, body@) || (started.is_request && out@ == (
            (
                true,
                started.method@,
                started.path@,
                0u16,
                Seq::<u8>::empty(),
                started.version,
                started.headers.deep_view(),
            ),
            body@,
        )) || (!started.is_request && out@ == (
            (
                false,
                Seq::<u8>::empty(),
                Seq::<u8>::empty(),
                started.status,
                started.reason@,
                started.version,
                started.headers.deep_view(),
            ),
            body@,
        )),
    ensures
        out@ == (started@, body@),
{
    assert(started@.4 =~= Seq::<u8>::empty() || !started.is_request);
    assert(started@.1 =~= Seq::<u8>::empty() || started.is_request);
    assert(started@.2 =~= Seq::<u8>::empty() || started.is_request);
}

/// The first `Content-Length` as a `usize`, if it is one.
fn body_len_from_headers(headers: &Vec<(Vec<u8>, Vec<u8>)>) -> (r: Option<usize>)
    ensures
        r == content_length_of(headers.deep_view()),
{
    let name = content_length_tok();
    match header_first(headers, &name) {
        None => None,
        Some(v) => match utf8_str(v) {
            None => None,
            Some(s) => parse_usize(trim_str(s)),
        },
    }
}

fn is_bodiless_method(m: &[u8]) -> (r: bool)
    ensures
        r == bodiless_method(m@),
{
    let get: [u8; 3] = [71u8, 69, 84];
    let head: [u8; 4] = [72u8, 69, 65, 68];
    let delete: [u8; 6] = [68u8, 69, 76, 69, 84, 69];
    let options: [u8; 7] = [79u8, 80, 84, 73, 79, 78, 83];
    bytes_eq(m, &get) || bytes_eq(m, &head) || bytes_eq(m, &delete) || bytes_eq(m, &options)
}

fn bytes_eq(a: &[u8], b: &[u8]) -> (r: bool)
    ensures
        r == (a@ == b@),
{
    if a.len() != b.len() {
        return false;
    }
    let mut i: usize = 0;
    while i < a.len()
        invariant
            i <= a@.len(),
            a@.len() == b@.len(),
            forall|j: int| 0 <= j < i ==> a@[j] == b@[j],
        decreases a@.len() - i,
    {
        if a[i] != b[i] {
            return false;
        }
        i += 1;
    }
    assert(a@ =~= b@);
    true
}

fn transition(started: BodyStart) -> (s: DirState)
    ensures
        s@ == transition_spec(started@),
{
    let body_len = body_len_from_headers(&started.headers);
    match body_len {
        Some(n) => DirState::Body { remaining: n, started },
        None => {
            if started.is_request && is_bodiless_method(started.method.as_slice()) {
                DirState::Body { remaining: 0, started }
            } else {
                DirState::UntilEof { started }
            }
        },
    }
}

/// Parse the head at the start of `buf`.
fn parse_start(buf: &[u8], is_request: bool, max_headers: usize) -> (r: Result<
    Option<(usize, BodyStart)>,
    bool,
>)
    ensures
        r matches Err(invalid) ==> (if invalid {
            telemetry_head(buf@, is_request, max_headers) is Invalid
        } else {
            telemetry_head(buf@, is_request, max_headers) is Unusable
        }),
        r matches Ok(None) ==> telemetry_head(buf@, is_request, max_headers) is Partial,
        r matches Ok(Some((hlen, st))) ==> telemetry_head(buf@, is_request, max_headers)
            == HeadView::Complete(hlen, st@) && start_shape(st@),
{
    if is_request {
        match httparse_request_call(buf, max_headers) {
            None => Err(true),
            Some(None) => Ok(None),
            Some(Some((hlen, m, p, v, hs))) => {
                let version = match v {
                    Some(0u8) => HttpVersion::Http1_0,
                    Some(1u8) => HttpVersion::Http1_1,
                    _ => {
                        return Err(false);
                    },
                };
                match (m, p) {
                    (Some(m), Some(p)) => {
                        proof {
                            lemma_bytes_deep_view(m);
                            lemma_bytes_deep_view(p);
                        }
                        let headers = named_headers(hs);
                        let st = BodyStart {
                            is_request: true,
                            method: m,
                            path: p,
                            status: 0,
                            reason: Vec::new(),
                            version,
                            headers,
                        };
                        assert(st.reason@ =~= Seq::<u8>::empty());
                        Ok(Some((hlen, st)))
                    },
                    _ => Err(false),
                }
            },
        }
    } else {
        match httparse_response_call(buf, max_headers) {
            None => Err(true),
            Some(None) => Ok(None),
            Some(Some((hlen, v, code, reason, hs))) => {
                let code = match code {
                    Some(c) => c,
                    None => {
                        return Err(false);
                    },
                };
                let version = match v {
                    Some(0u8) => HttpVersion::Http1_0,
                    Some(1u8) => HttpVersion::Http1_1,
                    _ => {
                        return Err(false);
                    },
                };
                let reason = match reason {
                    Some(r) => {
                        proof {
                            lemma_bytes_deep_view(r);
                        }
                        r
                    },
                    None => Vec::new(),
                };
                let headers = named_headers(hs);
                let st = BodyStart {
                    is_request: false,
                    method: Vec::new(),
                    path: Vec::new(),
                    status: code,
                    reason,
                    version,
                    headers,
                };
                assert(st.method@ =~= Seq::<u8>::empty());
                assert(st.path@ =~= Seq::<u8>::empty());
                Ok(Some((hlen, st)))
            },
        }
    }
}

/// Consume `n` bytes from the front of `buffer`.
fn advance(buffer: &mut Vec<u8>, n: usize) -> (front: Vec<u8>)
    requires
        n <= old(buffer)@.len(),
    ensures
        front@ == old(buffer)@.take(n as int),
        final(buffer)@ == old(buffer)@.skip(n as int),
{
    let mut rest = buffer.split_off(n);
    core::mem::swap(buffer, &mut rest);
    rest
}

/// The body phase: emit the message once its body is all buffered.
fn emit_body(state: &mut DirState, buffer: &mut Vec<u8>) -> (r: Option<ParseOutput>)
    requires
        state_shape(old(state)@),
    ensures
        (final(state)@, final(buffer)@, match r {
            Some(out) => StepView::Emit(out@),
            None => StepView::Wait,
        }) == body_phase(old(state)@, old(buffer)@),
        state_shape(final(state)@),
{
    let mut cur = DirState::Headers;
    core::mem::swap(state, &mut cur);
    match cur {
        DirState::Body { remaining, started } => {
            if remaining == 0 {
                let body: Vec<u8> = Vec::new();
                let out = emit(started, body);
                proof {
                    lemma_emit_shape(started, body, out);
                    assert(body@ =~= Seq::<u8>::empty());
                }
                Some(out)
            } else if buffer.len() < remaining {
                *state = DirState::Body { remaining, started };
                None
            } else {
                let body = advance(buffer, remaining);
                let out = emit(started, body);
                proof {
                    lemma_emit_shape(started, body, out);
                }
                Some(out)
            }
        },
        other => {
            *state = other;
            None
        },
    }
}

/// Advance the parser, possibly emitting one whole message:
/// `Ok(Some(message))` (call again for pipelined messages), `Ok(None)`
/// for more bytes, or `Err` when the head or the buffer cap forced the
/// direction to give up.
pub fn step(state: &mut DirState, buffer: &mut Vec<u8>, is_request: bool, config: &HttpConfig) -> (r:
    Result<Option<ParseOutput>, Error>)
    requires
        state_shape(old(state)@),
    ensures
        (final(state)@, final(buffer)@, step_outcome(r)) == step_spec(
            old(state)@,
            old(buffer)@,
            is_request,
            config.max_buffer,
            config.max_headers,
        ),
        state_shape(final(state)@),
        r matches Err(e) ==> e.spec_kind().module == Module::Http,
{
    if buffer.len() > config.max_buffer {
        *state = DirState::Desynced;
        buffer.clear();
        return Err(Error::buffer_overflow(Module::Http, config.max_buffer));
    }
    let is_headers = match state {
        DirState::Headers => true,
        _ => false,
    };
    if is_headers {
        match parse_start(buffer.as_slice(), is_request, config.max_headers) {
            Err(true) => {
                *state = DirState::Desynced;
                buffer.clear();
                return Err(Error::parse(Module::Http, "httparse failed"));
            },
            Err(false) => {
                return Err(Error::parse(Module::Http, "incomplete start line"));
            },
            Ok(None) => {
                return Ok(None);
            },
            Ok(Some((hlen, started))) => {
                let _ = advance(buffer, hlen);
                *state = transition(started);
            },
        }
    }
    let out = emit_body(state, buffer);
    Ok(out)
}

/// End of stream: a body that runs to the close is emitted with what
/// is buffered; the direction parses nothing afterwards.
pub fn eof(state: &mut DirState, buffer: &mut Vec<u8>) -> (r: Option<ParseOutput>)
    requires
        state_shape(old(state)@),
    ensures
        final(state)@ is Desynced,
        old(state)@ matches StateView::UntilEof(st) ==> (r matches Some(out) && out@ == (
            st,
            old(buffer)@,
        ) && final(buffer)@.len() == 0),
        !(old(state)@ is UntilEof) ==> r is None && final(buffer)@ == old(buffer)@,
{
    let mut cur = DirState::Desynced;
    core::mem::swap(state, &mut cur);
    match cur {
        DirState::UntilEof { started } => {
            let n = buffer.len();
            let body = advance(buffer, n);
            assert(body@ =~= old(buffer)@);
            let out = emit(started, body);
            proof {
                lemma_emit_shape(started, body, out);
            }
            Some(out)
        },
        _ => None,
    }
}

} // verus!
