//! The streaming HTTP/1.x parser an inline proxy drives: heads before
//! bodies, bodies as they arrive, never accumulated.

use vstd::prelude::*;

use super::engine::{event_raw, other, poll_event, poll_fails, poll_waits, DirState, Engine, EngineEvent, EngineLimits};
use super::head::Dir;
use super::poison::{poison_slug, HttpPoison};
use super::types::{RequestHead, ResponseHead, SmugglingPolicy, SwitchKind};
use crate::event::FlowSide;

verus! {

/// One step of an HTTP/1.x exchange, for a proxy.
#[derive(Debug, Clone)]
pub enum HttpEvent {
    /// A request's start line and headers, before its body.
    RequestHead(RequestHead),
    /// A response's status line and headers, before its body.
    ResponseHead(ResponseHead),
    /// Body bytes: `data` de-chunked, `raw` exactly as on the wire.
    Body { dir: FlowSide, data: Vec<u8>, raw: Vec<u8> },
    /// A chunked body's trailer fields and their wire bytes.
    Trailers { dir: FlowSide, trailers: Vec<(Vec<u8>, Vec<u8>)>, raw: Vec<u8> },
    /// The current message in `dir` is complete.
    End { dir: FlowSide },
    /// The connection switched protocols; nothing further is parsed.
    SwitchProtocols { kind: SwitchKind },
}

/// The wire bytes an event accounts for.
pub open spec fn http_event_raw(e: HttpEvent) -> Seq<u8> {
    match e {
        HttpEvent::RequestHead(h) => h.raw@,
        HttpEvent::ResponseHead(h) => h.raw@,
        HttpEvent::Body { raw, .. } => raw@,
        HttpEvent::Trailers { raw, .. } => raw@,
        HttpEvent::End { .. } => Seq::empty(),
        HttpEvent::SwitchProtocols { .. } => Seq::empty(),
    }
}

/// The direction an event belongs to; a protocol switch has none.
pub open spec fn http_event_side(e: HttpEvent) -> Option<FlowSide> {
    match e {
        HttpEvent::RequestHead(_) => Some(FlowSide::Initiator),
        HttpEvent::ResponseHead(_) => Some(FlowSide::Responder),
        HttpEvent::Body { dir, .. } => Some(dir),
        HttpEvent::Trailers { dir, .. } => Some(dir),
        HttpEvent::End { dir } => Some(dir),
        HttpEvent::SwitchProtocols { .. } => None,
    }
}

/// The parser direction of a flow side: the initiator sends requests.
pub open spec fn dir_of(side: FlowSide) -> Dir {
    match side {
        FlowSide::Initiator => Dir::Request,
        FlowSide::Responder => Dir::Response,
    }
}

/// Caps of the proxy parser; each one's breach poisons the connection
/// or applies backpressure rather than growing memory.
#[derive(Debug, Clone)]
pub struct HttpProxyConfig {
    /// Cap on the start line and header block.
    pub max_head_bytes: usize,
    /// Cap on the header count within one message.
    pub max_headers: usize,
    /// Cap on one chunk-size line.
    pub max_chunk_line_bytes: usize,
    /// Cap on the whole trailer block.
    pub max_trailer_bytes: usize,
    /// Cap on outstanding requests awaiting a response.
    pub max_pipelined: usize,
    /// Cap on bytes buffered per direction; `push` takes no more.
    pub max_buffered_bytes: usize,
}

impl Default for HttpProxyConfig {
    fn default() -> (c: Self)
        ensures
            c.max_head_bytes == 65536,
            c.max_headers == 128,
            c.max_chunk_line_bytes == 256,
            c.max_trailer_bytes == 8192,
            c.max_pipelined == 64,
            c.max_buffered_bytes == 262144,
    {
        HttpProxyConfig {
            max_head_bytes: 65536,
            max_headers: 128,
            max_chunk_line_bytes: 256,
            max_trailer_bytes: 8192,
            max_pipelined: 64,
            max_buffered_bytes: 262144,
        }
    }
}

/// The streaming parser of one HTTP/1.x connection.
#[derive(Debug, Clone)]
pub struct HttpProxyParser {
    engine: Engine,
    config: HttpProxyConfig,
}

fn to_dir(side: FlowSide) -> (d: Dir)
    ensures
        d == dir_of(side),
{
    match side {
        FlowSide::Initiator => Dir::Request,
        FlowSide::Responder => Dir::Response,
    }
}

/// The flow side of a parser direction.
pub open spec fn side_of(d: Dir) -> FlowSide {
    match d {
        Dir::Request => FlowSide::Initiator,
        Dir::Response => FlowSide::Responder,
    }
}

/// The proxy event for an engine event in direction `d`: a head with
/// its parsed fields and wire bytes, body data and wire bytes, trailer
/// fields and wire bytes, an end, or a switch.
pub open spec fn converted(d: Dir, ev: EngineEvent, e: HttpEvent) -> bool {
    match ev {
        EngineEvent::Head(h) => match d {
            Dir::Request => e == HttpEvent::RequestHead(
                RequestHead {
                    method: h.method,
                    path: h.path,
                    version: h.version,
                    headers: h.headers,
                    framing: h.framing,
                    applied: h.applied,
                    raw: h.raw,
                },
            ),
            Dir::Response => e == HttpEvent::ResponseHead(
                ResponseHead {
                    status: h.status,
                    reason: h.reason,
                    version: h.version,
                    headers: h.headers,
                    framing: h.framing,
                    interim: h.interim,
                    applied: h.applied,
                    raw: h.raw,
                },
            ),
        },
        EngineEvent::Body { decoded, raw } => e == HttpEvent::Body { dir: side_of(d), data: decoded, raw },
        EngineEvent::Trailers { fields, raw } => e == HttpEvent::Trailers {
            dir: side_of(d),
            trailers: fields,
            raw,
        },
        EngineEvent::End => e == HttpEvent::End { dir: side_of(d) },
        EngineEvent::Switch(kind) => e == HttpEvent::SwitchProtocols { kind },
    }
}

fn to_side(dir: Dir) -> (s: FlowSide)
    ensures
        dir_of(s) == dir,
        s == side_of(dir),
{
    match dir {
        Dir::Request => FlowSide::Initiator,
        Dir::Response => FlowSide::Responder,
    }
}

fn convert(dir: Dir, ev: EngineEvent) -> (e: HttpEvent)
    ensures
        http_event_raw(e) == event_raw(ev),
        !(ev is Switch) ==> (http_event_side(e) matches Some(s) && dir_of(s) == dir),
        ev is Switch <==> e is SwitchProtocols,
        converted(dir, ev, e),
{
    let side = to_side(dir);
    match ev {
        EngineEvent::Head(h) => match dir {
            Dir::Request => HttpEvent::RequestHead(
                RequestHead {
                    method: h.method,
                    path: h.path,
                    version: h.version,
                    headers: h.headers,
                    framing: h.framing,
                    applied: h.applied,
                    raw: h.raw,
                },
            ),
            Dir::Response => HttpEvent::ResponseHead(
                ResponseHead {
                    status: h.status,
                    reason: h.reason,
                    version: h.version,
                    headers: h.headers,
                    framing: h.framing,
                    interim: h.interim,
                    applied: h.applied,
                    raw: h.raw,
                },
            ),
        },
        EngineEvent::Body { decoded, raw } => HttpEvent::Body { dir: side, data: decoded, raw },
        EngineEvent::Trailers { fields, raw } => HttpEvent::Trailers { dir: side, trailers: fields, raw },
        EngineEvent::End => HttpEvent::End { dir: side },
        EngineEvent::Switch(kind) => HttpEvent::SwitchProtocols { kind },
    }
}

impl HttpProxyParser {
    /// The engine underneath.
    pub closed spec fn engine(&self) -> Engine {
        self.engine
    }

    /// The configured cap on buffered bytes per direction.
    pub closed spec fn max_buffered(&self) -> usize {
        self.config.max_buffered_bytes
    }

    /// The parser's invariant.
    pub closed spec fn wf(&self) -> bool {
        self.engine.wf()
    }

    /// A parser with the default caps.
    pub fn new() -> (p: Self)
        ensures
            p.wf(),
            p.engine().request.fresh(),
            p.engine().response.fresh(),
            p.engine().pending@.len() == 0,
            p.engine().pending_switch is None,
            p.engine().limits == (EngineLimits {
                max_head_bytes: 65536,
                max_headers: 128,
                max_chunk_line_bytes: 256,
                max_trailer_bytes: 8192,
                max_pipelined: 64,
                policy: SmugglingPolicy::Strict,
            }),
            p.max_buffered() == 262144,
    {
        HttpProxyParser::with_config(HttpProxyConfig::default())
    }

    /// A parser with the given caps; an inline proxy refuses any
    /// ambiguously framed message.
    pub fn with_config(config: HttpProxyConfig) -> (p: Self)
        ensures
            p.wf(),
            p.engine().request.fresh(),
            p.engine().response.fresh(),
            p.engine().pending@.len() == 0,
            p.engine().pending_switch is None,
            p.engine().limits == (EngineLimits {
                max_head_bytes: config.max_head_bytes,
                max_headers: config.max_headers,
                max_chunk_line_bytes: config.max_chunk_line_bytes,
                max_trailer_bytes: config.max_trailer_bytes,
                max_pipelined: config.max_pipelined,
                policy: SmugglingPolicy::Strict,
            }),
            p.max_buffered() == config.max_buffered_bytes,
    {
        let limits = EngineLimits {
            max_head_bytes: config.max_head_bytes,
            max_headers: config.max_headers,
            max_chunk_line_bytes: config.max_chunk_line_bytes,
            max_trailer_bytes: config.max_trailer_bytes,
            max_pipelined: config.max_pipelined,
            policy: SmugglingPolicy::Strict,
        };
        HttpProxyParser { engine: Engine::new(limits), config }
    }

    /// Whether either direction lost framing.
    pub fn is_poisoned(&self) -> (r: bool)
        ensures
            r == (self.engine().request.state == DirState::Desynced || self.engine().response.state
                == DirState::Desynced),
    {
        self.engine.is_desynced(Dir::Request) || self.engine.is_desynced(Dir::Response)
    }

    /// Offer bytes from one side; returns how many were taken. Nothing
    /// is taken once the connection is poisoned, and never more than the
    /// room left under the buffering cap: a short count is backpressure.
    pub fn push(&mut self, dir: FlowSide, data: &[u8]) -> (n: usize)
        requires
            old(self).wf(),
        ensures
            final(self).wf(),
            final(self).max_buffered() == old(self).max_buffered(),
            ({
                let m = old(self).engine().machine(dir_of(dir));
                let poisoned = old(self).engine().request.state == DirState::Desynced
                    || old(self).engine().response.state == DirState::Desynced;
                let room = if old(self).max_buffered() > m.buf@.len() {
                    old(self).max_buffered() - m.buf@.len()
                } else {
                    0
                };
                &&& n == (if poisoned {
                    0
                } else if room < data@.len() {
                    room
                } else {
                    data@.len() as int
                })
                &&& final(self).engine().machine(dir_of(dir)).buf@ == (if n > 0 && (m.state is Head
                    || m.state is Body) {
                    m.buf@ + data@.take(n as int)
                } else {
                    m.buf@
                })
                &&& final(self).engine().machine(dir_of(dir)).state == m.state
                &&& final(self).engine().machine(other(dir_of(dir))) == old(self).engine().machine(other(dir_of(dir)))
            }),
    {
        if self.is_poisoned() {
            return 0;
        }
        let d = to_dir(dir);
        let buffered = self.engine.buffered(d);
        let room = if self.config.max_buffered_bytes > buffered {
            self.config.max_buffered_bytes - buffered
        } else {
            0
        };
        let take = if room < data.len() {
            room
        } else {
            data.len()
        };
        if take > 0 {
            let part = &data[0..take];
            assert(part@ =~= data@.take(take as int));
            self.engine.push(d, part);
        }
        take
    }

    /// End of stream from one side: a close-delimited body ends here.
    pub fn fin(&mut self, dir: FlowSide)
        requires
            old(self).wf(),
        ensures
            final(self).wf(),
            final(self).max_buffered() == old(self).max_buffered(),
            final(self).engine().machine(other(dir_of(dir))) == old(self).engine().machine(other(dir_of(dir))),
            final(self).engine().machine(dir_of(dir)).state == (match old(self).engine().machine(dir_of(dir)).state {
                DirState::Desynced => DirState::Desynced,
                DirState::Tunnel => DirState::Tunnel,
                _ => DirState::Closed,
            }),
    {
        let _ = self.engine.fin(to_dir(dir));
    }

    fn poll_dir(&mut self, d: Dir) -> (r: Option<HttpEvent>)
        requires
            old(self).wf(),
        ensures
            final(self).wf(),
            final(self).max_buffered() == old(self).max_buffered(),
            r matches Some(e) ==> old(self).engine().machine(d).buf@ == http_event_raw(e) + final(self).engine().machine(d).buf@,
            r matches Some(e) ==> (e is SwitchProtocols || (http_event_side(e) matches Some(s)
                && dir_of(s) == d)),
            r is None ==> (final(self).engine().machine(d).buf@ == old(self).engine().machine(d).buf@ || final(self).engine().machine(d).state == DirState::Desynced),
            !(r matches Some(HttpEvent::SwitchProtocols { .. })) ==> final(self).engine().machine(other(d)) == old(self).engine().machine(other(d)),
            r is None <==> (poll_waits(old(self).engine(), d) || poll_fails(old(self).engine(), d)),
            r is None && d == Dir::Request ==> final(self).engine().limits == old(self).engine().limits
                && final(self).engine().pending == old(self).engine().pending
                && final(self).engine().pending_switch == old(self).engine().pending_switch,
            r matches Some(e) ==> exists|ev: EngineEvent| #[trigger] converted(d, ev, e) && poll_event(
                old(self).engine(),
                final(self).engine(),
                d,
                ev,
            ),
    {
        match self.engine.poll(d) {
            Ok(Some(ev)) => {
                let e = convert(d, ev);
                assert(converted(d, ev, e));
                Some(e)
            },
            Ok(None) => None,
            Err(_) => None,
        }
    }

    /// The next event: requests first, then responses; `None` when both
    /// directions need more bytes (or are finished or poisoned). Every
    /// event's `raw` bytes are the ones it took off the front of its
    /// direction's buffer.
    pub fn next_event(&mut self) -> (r: Option<HttpEvent>)
        requires
            old(self).wf(),
        ensures
            final(self).wf(),
            final(self).max_buffered() == old(self).max_buffered(),
            r matches Some(e) ==> (e is SwitchProtocols || (http_event_side(e) matches Some(s)
                && old(self).engine().machine(dir_of(s)).buf@ == http_event_raw(e) + final(self).engine().machine(dir_of(s)).buf@)),
            r is None ==> (final(self).engine().request.buf@ == old(self).engine().request.buf@
                || final(self).engine().request.state == DirState::Desynced),
            r is None ==> (final(self).engine().response.buf@ == old(self).engine().response.buf@
                || final(self).engine().response.state == DirState::Desynced),
            r is None <==> ((poll_waits(old(self).engine(), Dir::Request) || poll_fails(
                old(self).engine(),
                Dir::Request,
            )) && (poll_waits(old(self).engine(), Dir::Response) || poll_fails(
                old(self).engine(),
                Dir::Response,
            ))),
            r matches Some(e) ==> exists|d: Dir, ev: EngineEvent, mid: Engine|
                #[trigger] converted(d, ev, e) && #[trigger] poll_event(mid, final(self).engine(), d, ev) && (d
                == Dir::Request ==> mid == old(self).engine()) && (d == Dir::Response ==> (mid.response
                == old(self).engine().response && mid.limits == old(self).engine().limits && mid.pending
                == old(self).engine().pending && mid.pending_switch == old(self).engine().pending_switch)),
    {
        let ghost e0 = self.engine;
        match self.poll_dir(Dir::Request) {
            Some(e) => {
                proof {
                    let ev = choose|ev: EngineEvent| #[trigger] converted(Dir::Request, ev, e) && poll_event(
                        e0,
                        self.engine,
                        Dir::Request,
                        ev,
                    );
                    assert(converted(Dir::Request, ev, e) && poll_event(e0, self.engine, Dir::Request, ev));
                }
                return Some(e);
            },
            None => {},
        }
        let ghost e1 = self.engine;
        let r = self.poll_dir(Dir::Response);
        proof {
            assert(e1.machine(Dir::Response) == e0.machine(Dir::Response));
            if r is Some {
                let e = r->0;
                let ev = choose|ev: EngineEvent| #[trigger] converted(Dir::Response, ev, e) && poll_event(
                    e1,
                    self.engine,
                    Dir::Response,
                    ev,
                );
                assert(converted(Dir::Response, ev, e) && poll_event(e1, self.engine, Dir::Response, ev));
            }
            if r is None {
                assert(self.engine.machine(Dir::Request) == e1.machine(Dir::Request));
            }
        }
        r
    }

    /// Why the connection was poisoned: the request side's reason
    /// first.
    pub fn poison(&self) -> (r: Option<HttpPoison>)
        ensures
            r == (match self.engine().request.poison {
                Some(p) => Some(p),
                None => self.engine().response.poison,
            }),
    {
        match self.engine.poison(Dir::Request) {
            Some(p) => Some(p),
            None => self.engine.poison(Dir::Response),
        }
    }

    /// The poison reason's stable slug.
    pub fn poison_reason(&self) -> (r: Option<&'static str>)
        ensures
            r matches Some(s) ==> (match self.engine().request.poison {
                Some(p) => Some(p),
                None => self.engine().response.poison,
            }) matches Some(p) && s@ == poison_slug(p),
            r is None ==> self.engine().request.poison is None && self.engine().response.poison is None,
    {
        match self.poison() {
            Some(p) => Some(p.as_str()),
            None => None,
        }
    }

    /// Whether nothing more will be parsed: the connection switched
    /// protocols, or both directions closed.
    pub fn is_done(&self) -> (r: bool)
        ensures
            r == (self.engine().request.state == DirState::Tunnel || (self.engine().request.state
                == DirState::Closed && self.engine().response.state == DirState::Closed)),
    {
        if self.engine.is_tunnelled() {
            return true;
        }
        self.engine.is_closed(Dir::Request) && self.engine.is_closed(Dir::Response)
    }

    /// Bytes buffered but not yet consumed on one side.
    pub fn buffered(&self, dir: FlowSide) -> (r: usize)
        ensures
            r == self.engine().machine(dir_of(dir)).buf@.len(),
    {
        self.engine.buffered(to_dir(dir))
    }
}

impl Default for HttpProxyParser {
    fn default() -> (p: Self)
        ensures
            p.wf(),
            p.engine().request.fresh(),
            p.engine().response.fresh(),
    {
        HttpProxyParser::new()
    }
}

} // verus!
