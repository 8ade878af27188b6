//! The HTTP/1.x streaming state machine shared by the parsers.
//!
//! Each direction owns a buffer. A poll emits a head as soon as the
//! header block parses, then body spans, then trailers, then an
//! end-of-message marker. Every consumed byte leaves the buffer inside
//! exactly one event's `raw`, so concatenating the `raw` fields of a
//! message's events reproduces its wire bytes.

use vstd::prelude::*;

use super::framing::{
    blank_end, body_framing_view, check_head_bytes, check_single_host, connect_tok,
    head_problem_from, head_tok, no_blank_before, no_crlf_before, preface_match, preface_spec,
    request_framing, request_framing_spec, response_framing, response_framing_spec,
    scan_blank_line, scan_crlf, scan_trailer_end, signals_close, signals_close_spec, tok_connect,
    tok_head, tok_upgrade, trailer_len, upgrade_tok, PrefaceMatch, double_crlf_at,
};
use super::head::{head_fields, head_parse_spec, parse_head, parse_trailer_fields, trailer_fields, Dir, Head};
use super::poison::HttpPoison;
use super::types::{header_first, first_header, BodyFraming, SmugglingPolicy, SwitchKind};
use crate::text::{copy_bytes, eq_ic, eq_ignore_ascii_case, hex_u64, parse_hex, trim, trim_bounds};

verus! {

/// Caps enforced by the engine; each one's breach desyncs the direction
/// rather than growing memory.
#[derive(Debug, Clone, Copy)]
pub struct EngineLimits {
    /// Cap on the start line + header block.
    pub max_head_bytes: usize,
    /// Cap on the header count within one message.
    pub max_headers: usize,
    /// Cap on one chunk-size line.
    pub max_chunk_line_bytes: usize,
    /// Cap on the whole trailer block.
    pub max_trailer_bytes: usize,
    /// Cap on outstanding requests awaiting a response.
    pub max_pipelined: usize,
    /// What to do about an ambiguously framed message.
    pub policy: SmugglingPolicy,
}

impl Default for EngineLimits {
    fn default() -> (l: Self)
        ensures
            l.max_head_bytes == 65536,
            l.max_headers == 64,
            l.max_chunk_line_bytes == 1024,
            l.max_trailer_bytes == 8192,
            l.max_pipelined == 64,
            l.policy == SmugglingPolicy::Strict,
    {
        EngineLimits {
            max_head_bytes: 65536,
            max_headers: 64,
            max_chunk_line_bytes: 1024,
            max_trailer_bytes: 8192,
            max_pipelined: 64,
            policy: SmugglingPolicy::Strict,
        }
    }
}

/// One step of progress on a direction.
#[derive(Debug, Clone)]
pub enum EngineEvent {
    Head(Head),
    /// Body progress: `decoded` is payload (empty for a step that only
    /// consumed framing bytes); `raw` is every byte consumed.
    Body { decoded: Vec<u8>, raw: Vec<u8> },
    /// Trailer section of a chunked body.
    Trailers { fields: Vec<(Vec<u8>, Vec<u8>)>, raw: Vec<u8> },
    /// The message is fully framed.
    End,
    /// The connection left HTTP/1.x behind.
    Switch(SwitchKind),
}

/// Position within a chunked body.
#[derive(Debug, Clone, Copy, PartialEq, Eq, Structural)]
pub enum ChunkState {
    /// Awaiting a chunk-size line.
    Size,
    /// Consuming `remaining` payload bytes.
    Data { remaining: u64 },
    /// Consuming the CR LF after a chunk's data.
    DataCrlf,
    /// Awaiting the trailer section; the zero-size line is still buffered.
    Trailer,
}

/// Body-reading sub-state.
#[derive(Debug, Clone, Copy, PartialEq, Eq, Structural)]
pub enum BodyState {
    Length { remaining: u64 },
    Chunked(ChunkState),
    UntilClose,
}

/// Per-direction state.
#[derive(Debug, Clone, Copy, PartialEq, Eq, Structural)]
pub enum DirState {
    /// Awaiting a start line + header block.
    Head,
    Body(BodyState),
    /// A protocol switch handed the connection over.
    Tunnel,
    /// Clean end of stream.
    Closed,
    /// Framing was lost.
    Desynced,
}

/// What is remembered about a request while its response is outstanding.
#[derive(Debug, Clone, Copy, PartialEq, Eq, Structural)]
pub struct ReqCtx {
    /// `HEAD` responses carry no body.
    pub is_head: bool,
    /// A `2xx` to `CONNECT` turns the connection into a tunnel.
    pub is_connect: bool,
}

/// One direction's buffer and state.
#[derive(Debug, Clone)]
pub struct DirMachine {
    pub buf: Vec<u8>,
    pub state: DirState,
    /// Why this direction desynced, if it did.
    pub poison: Option<HttpPoison>,
    /// The in-flight message asked for the connection to close.
    pub close_after_message: bool,
    /// How far the line scanners have already looked.
    pub scanned: usize,
}

/// The state a freshly framed message's body starts in.
pub open spec fn body_state_spec(framing: BodyFraming) -> DirState {
    match framing {
        BodyFraming::NoBody => DirState::Body(BodyState::Length { remaining: 0 }),
        BodyFraming::ContentLength(n) => DirState::Body(BodyState::Length { remaining: n }),
        BodyFraming::Chunked => DirState::Body(BodyState::Chunked(ChunkState::Size)),
        BodyFraming::UntilClose => DirState::Body(BodyState::UntilClose),
    }
}

fn body_state(framing: BodyFraming) -> (s: DirState)
    ensures
        s == body_state_spec(framing),
{
    match framing {
        BodyFraming::NoBody => DirState::Body(BodyState::Length { remaining: 0 }),
        BodyFraming::ContentLength(n) => DirState::Body(BodyState::Length { remaining: n }),
        BodyFraming::Chunked => DirState::Body(BodyState::Chunked(ChunkState::Size)),
        BodyFraming::UntilClose => DirState::Body(BodyState::UntilClose),
    }
}

/// Index of the first blank-line end at or after `i`.
pub open spec fn blank_index(s: Seq<u8>, i: int) -> Option<int>
    decreases s.len() - i,
{
    if i < 0 || i >= s.len() {
        None
    } else if blank_end(s, i) {
        Some(i)
    } else {
        blank_index(s, i + 1)
    }
}

proof fn lemma_blank_index(s: Seq<u8>, from: int, n: int)
    requires
        0 <= from <= n,
        blank_end(s, n),
        forall|i: int| from <= i < n ==> !blank_end(s, i),
    ensures
        blank_index(s, from) == Some(n),
    decreases n - from,
{
    if from < n {
        lemma_blank_index(s, from + 1, n);
    }
}

proof fn lemma_blank_index_none(s: Seq<u8>, from: int)
    requires
        0 <= from,
        forall|i: int| from <= i < s.len() ==> !blank_end(s, i),
    ensures
        blank_index(s, from) is None,
    decreases s.len() - from,
{
    if from < s.len() {
        lemma_blank_index_none(s, from + 1);
    }
}

/// What reading a head out of `buf` gives: `Ok(None)` to wait for more
/// bytes, `Ok(Some(n))` for a head of `n` bytes, or why the direction
/// gives up.
pub open spec fn head_step_spec(buf: Seq<u8>, limits: EngineLimits, dir: Dir) -> Result<
    Option<int>,
    HttpPoison,
> {
    match blank_index(buf, 0) {
        None => if buf.len() > limits.max_head_bytes {
            Err(HttpPoison::HeadOverflow)
        } else {
            Ok(None)
        },
        Some(e) => {
            let raw = buf.take(e + 1);
            if e + 1 > limits.max_head_bytes {
                Err(HttpPoison::HeadOverflow)
            } else if limits.policy != SmugglingPolicy::Observe && head_problem_from(raw, 0) is Some {
                Err(head_problem_from(raw, 0)->0)
            } else if head_parse_spec(raw, dir, limits.max_headers) is None {
                Err(HttpPoison::MalformedHead)
            } else {
                Ok(Some(e + 1))
            }
        },
    }
}

/// Index of the first `;` in `s`, or its length.
pub open spec fn semi_index(s: Seq<u8>, i: int) -> int
    decreases s.len() - i,
{
    if i < 0 || i >= s.len() {
        s.len() as int
    } else if s[i] == 59 {
        i
    } else {
        semi_index(s, i + 1)
    }
}

/// The size a chunk-size line announces: hexadecimal digits before any
/// `;` extension, surrounding whitespace ignored.
pub open spec fn chunk_size_spec(line: Seq<u8>) -> Option<u64> {
    hex_u64(trim(line.take(semi_index(line, 0))))
}

impl DirMachine {
    /// The scan position is consistent with the buffer and state: no
    /// terminator the current state looks for lies before it.
    pub open spec fn scan_ok(&self) -> bool {
        &&& self.scanned <= self.buf@.len()
        &&& match self.state {
            DirState::Head => no_blank_before(self.buf@, self.scanned as int),
            DirState::Body(BodyState::Chunked(ChunkState::Size)) => no_crlf_before(
                self.buf@,
                self.scanned as int,
            ),
            DirState::Body(BodyState::Chunked(ChunkState::Trailer)) => true,
            DirState::Body(_) => self.scanned == 0,
            DirState::Desynced => self.buf@.len() == 0 && self.scanned == 0,
            _ => true,
        }
    }

    /// A direction awaiting its first head.
    pub open spec fn fresh(&self) -> bool {
        &&& self.buf@.len() == 0
        &&& self.state == DirState::Head
        &&& self.poison is None
        &&& !self.close_after_message
        &&& self.scanned == 0
    }

    pub fn new() -> (m: Self)
        ensures
            m.fresh(),
            m.scan_ok(),
    {
        DirMachine {
            buf: Vec::new(),
            state: DirState::Head,
            poison: None,
            close_after_message: false,
            scanned: 0,
        }
    }

    fn reset(&mut self)
        ensures
            final(self).fresh(),
            final(self).scan_ok(),
    {
        self.buf.clear();
        self.state = DirState::Head;
        self.poison = None;
        self.close_after_message = false;
        self.scanned = 0;
    }

    /// Consume `n` bytes from the front of the buffer.
    fn take(&mut self, n: usize) -> (out: Vec<u8>)
        requires
            n <= old(self).buf@.len(),
        ensures
            out@ == old(self).buf@.take(n as int),
            final(self).buf@ == old(self).buf@.skip(n as int),
            final(self).scanned == (if old(self).scanned >= n {
                old(self).scanned - n
            } else {
                0
            }),
            final(self).state == old(self).state,
            final(self).poison == old(self).poison,
            final(self).close_after_message == old(self).close_after_message,
    {
        self.scanned = if self.scanned >= n { self.scanned - n } else { 0 };
        let mut rest = self.buf.split_off(n);
        core::mem::swap(&mut self.buf, &mut rest);
        assert(rest@ =~= old(self).buf@.take(n as int));
        rest
    }

    /// Mark the direction desynced, recording why.
    fn desync(&mut self, reason: HttpPoison) -> (r: HttpPoison)
        ensures
            r == reason,
            final(self).state == DirState::Desynced,
            final(self).poison == Some(reason),
            final(self).buf@.len() == 0,
            final(self).scanned == 0,
            final(self).close_after_message == old(self).close_after_message,
            final(self).scan_ok(),
    {
        self.state = DirState::Desynced;
        self.poison = Some(reason);
        self.buf.clear();
        self.scanned = 0;
        reason
    }

    /// Read a head out of the buffer. On success the head's bytes have
    /// left the buffer and the state is still `Head` for the caller to
    /// move on.
    fn read_head(&mut self, limits: &EngineLimits, dir: Dir) -> (r: Result<Option<Head>, HttpPoison>)
        requires
            old(self).state == DirState::Head,
            old(self).scan_ok(),
        ensures
            final(self).scan_ok(),
            r matches Err(p) ==> head_step_spec(old(self).buf@, *limits, dir) == Err::<
                Option<int>,
                HttpPoison,
            >(p) && final(self).state == DirState::Desynced && final(self).poison == Some(p)
                && final(self).buf@.len() == 0 && final(self).scan_ok(),
            r is Ok ==> final(self).state == DirState::Head && final(self).poison == old(self).poison && final(self).close_after_message == old(self).close_after_message,
            r matches Ok(None) ==> head_step_spec(old(self).buf@, *limits, dir) == Ok::<
                Option<int>,
                HttpPoison,
            >(None) && final(self).buf@ == old(self).buf@ && final(self).scan_ok(),
            r matches Ok(Some(h)) ==> {
                &&& head_step_spec(old(self).buf@, *limits, dir) == Ok::<Option<int>, HttpPoison>(
                    Some(h.raw@.len() as int),
                )
                &&& h.raw@ == old(self).buf@.take(h.raw@.len() as int)
                &&& h.raw@.len() <= old(self).buf@.len()
                &&& final(self).buf@ == old(self).buf@.skip(h.raw@.len() as int)
                &&& final(self).scanned == 0
                &&& Some(head_fields(h)) == head_parse_spec(h.raw@, dir, limits.max_headers)
                &&& h.dir == dir
                &&& h.framing == BodyFraming::NoBody
                &&& !h.interim
                &&& h.applied@.len() == 0
            },
    {
        let found = scan_blank_line(self.buf.as_slice(), &mut self.scanned);
        match found {
            None => {
                proof {
                    lemma_blank_index_none(self.buf@, 0);
                }
                if self.buf.len() > limits.max_head_bytes {
                    return Err(self.desync(HttpPoison::HeadOverflow));
                }
                Ok(None)
            },
            Some(hlen) => {
                proof {
                    lemma_blank_index(self.buf@, 0, hlen - 1);
                }
                if hlen > limits.max_head_bytes {
                    return Err(self.desync(HttpPoison::HeadOverflow));
                }
                let ghost raw = self.buf@.take(hlen as int);
                assert(self.buf@.subrange(0, hlen as int) =~= raw);
                if limits.policy != SmugglingPolicy::Observe {
                    match check_head_bytes(&self.buf.as_slice()[0..hlen]) {
                        Err(reason) => {
                            return Err(self.desync(reason));
                        },
                        Ok(()) => {},
                    }
                }
                let parsed = parse_head(&self.buf.as_slice()[0..hlen], dir, limits.max_headers);
                match parsed {
                    None => Err(self.desync(HttpPoison::MalformedHead)),
                    Some(head) => {
                        let _ = self.take(hlen);
                        Ok(Some(head))
                    },
                }
            },
        }
    }
}

/// Outcome of one body step.
pub enum Progress {
    Event(EngineEvent),
    NeedMore,
    /// State advanced with nothing to report; poll again immediately.
    Again,
}

/// The bytes an event consumed; empty for `End` and `Switch`.
pub open spec fn event_raw(ev: EngineEvent) -> Seq<u8> {
    match ev {
        EngineEvent::Head(h) => h.raw@,
        EngineEvent::Body { decoded, raw } => raw@,
        EngineEvent::Trailers { fields, raw } => raw@,
        EngineEvent::End => Seq::empty(),
        EngineEvent::Switch(_) => Seq::empty(),
    }
}

/// The payload an event carries; empty for all but body events.
pub open spec fn event_payload(ev: EngineEvent) -> Seq<u8> {
    match ev {
        EngineEvent::Body { decoded, raw } => decoded@,
        _ => Seq::empty(),
    }
}

fn find_semi(line: &[u8]) -> (r: usize)
    ensures
        r as int == semi_index(line@, 0),
        r <= line@.len(),
{
    let mut i: usize = 0;
    while i < line.len()
        invariant
            i <= line@.len(),
            semi_index(line@, 0) == semi_index(line@, i as int),
        decreases line@.len() - i,
    {
        if line[i] == 59 {
            return i;
        }
        i += 1;
    }
    line.len()
}

/// Parse the size of a chunk-size line.
pub fn chunk_size(line: &[u8]) -> (r: Option<u64>)
    ensures
        r == chunk_size_spec(line@),
{
    let end = find_semi(line);
    let digits = &line[0..end];
    assert(digits@ =~= line@.take(end as int));
    let (lo, hi) = trim_bounds(digits);
    let t = &digits[lo..hi];
    assert(t@ =~= digits@.subrange(lo as int, hi as int));
    parse_hex(t)
}

/// The event a chunked-body step gives from buffer `buf0` in chunk
/// state `cs`, and the state it leaves: a chunk-size line (no data, a
/// positive size next), chunk data (the bytes themselves), the CR LF
/// after the data (no data), or the trailer section.
pub open spec fn chunk_event(buf0: Seq<u8>, state1: DirState, limits: EngineLimits, cs: ChunkState, ev: EngineEvent) -> bool {
    match cs {
        ChunkState::Size => ev matches EngineEvent::Body { decoded, raw } && decoded@.len()
            == 0 && raw@.len() >= 2 && raw@ == buf0.take(raw@.len() as int)
            && crate::text::first_crlf_from(buf0, 0, raw@.len() - 2)
            && chunk_size_spec(raw@.take(raw@.len() - 2)) == Some(
            state1->Body_0->Chunked_0->remaining,
        ) && state1 is Body && state1->Body_0 is Chunked
            && state1->Body_0->Chunked_0 is Data
            && state1->Body_0->Chunked_0->remaining > 0,
        ChunkState::Data { remaining } => ev matches EngineEvent::Body { decoded, raw }
            && decoded@ == raw@ && raw@.len() <= remaining && raw@ == buf0.take(
            if remaining < buf0.len() {
                remaining as int
            } else {
                buf0.len() as int
            },
        ) && state1 == (if raw@.len()
            == remaining {
            DirState::Body(BodyState::Chunked(ChunkState::DataCrlf))
        } else {
            DirState::Body(
                BodyState::Chunked(
                    ChunkState::Data { remaining: (remaining - raw@.len()) as u64 },
                ),
            )
        }),
        ChunkState::DataCrlf => ev matches EngineEvent::Body { decoded, raw }
            && decoded@.len() == 0 && raw@ == seq![13u8, 10u8] && raw@ == buf0.take(2) && state1
            == DirState::Body(BodyState::Chunked(ChunkState::Size)),
        ChunkState::Trailer => ev matches EngineEvent::Trailers { fields, raw }
            && trailer_len(buf0, raw@.len() as int) && raw@ == buf0.take(raw@.len() as int) && fields.deep_view()
            == trailer_fields(raw@) && raw@.len() <= limits.max_trailer_bytes
            && state1 == DirState::Body(BodyState::Length { remaining: 0 }),
    }
}

/// The event a body step gives from direction state `m0` in body state
/// `body`, and the state `m1` it leaves: the end of the message at zero
/// remaining; a span of a length-delimited body (its own bytes, at most
/// what remains, the rest still to come); a span of a close-delimited
/// body (its own bytes); or a chunked step as [`chunk_event`] says.
pub open spec fn body_event(m0: DirMachine, m1: DirMachine, limits: EngineLimits, body: BodyState, ev: EngineEvent) -> bool {
    match body {
        BodyState::Length { remaining } => if remaining == 0 {
            ev is End || ev is Switch
        } else {
            ev matches EngineEvent::Body { decoded, raw } && decoded@ == raw@ && raw@.len() > 0
                && raw@.len() <= remaining && raw@ == m0.buf@.take(
                if remaining < m0.buf@.len() {
                    remaining as int
                } else {
                    m0.buf@.len() as int
                },
            ) && m1.state == DirState::Body(
                BodyState::Length { remaining: (remaining - raw@.len()) as u64 },
            )
        },
        BodyState::UntilClose => ev matches EngineEvent::Body { decoded, raw } && decoded@ == raw@
            && raw@.len() > 0 && raw@ == m0.buf@ && m1.state == m0.state,
        BodyState::Chunked(cs) => chunk_event(m0.buf@, m1.state, limits, cs, ev),
    }
}

/// What a poll that yields `ev` does to the engine, from `e0` to `e1`:
/// the event's bytes leave the front of the direction's buffer, and the
/// event is the head read by [`head_poll`], or the body step that
/// [`body_event`] describes (after a last-chunk line, the trailer step).
pub open spec fn poll_event(e0: Engine, e1: Engine, dir: Dir, ev: EngineEvent) -> bool {
    &&& e0.machine(dir).buf@ == event_raw(ev) + e1.machine(dir).buf@
    &&& match e0.machine(dir).state {
        DirState::Head => head_poll(e0, e1, dir, Ok(Some(ev))),
        DirState::Body(body) => body_event(e0.machine(dir), e1.machine(dir), e0.limits, body, ev) || (
        body == BodyState::Chunked(ChunkState::Size) && chunk_zero(e0.machine(dir).buf@, e0.limits)
            && chunk_event(
            e0.machine(dir).buf@,
            e1.machine(dir).state,
            e0.limits,
            ChunkState::Trailer,
            ev,
        )),
        _ => false,
    }
}

/// A chunked-body step on this buffer waits for more bytes: no whole
/// chunk-size line within its cap, no chunk data, less than the CR LF
/// after the data, or no whole trailer section within its cap.
pub open spec fn chunk_needs_more(buf: Seq<u8>, limits: EngineLimits, cs: ChunkState) -> bool {
    match cs {
        ChunkState::Size => crate::text::no_crlf_from(buf, 0) && buf.len()
            <= limits.max_chunk_line_bytes,
        ChunkState::Data { remaining } => remaining == 0 || buf.len() == 0,
        ChunkState::DataCrlf => buf.len() < 2,
        ChunkState::Trailer => (forall|k: int| 0 <= k ==> !double_crlf_at(buf, k)) && buf.len()
            <= limits.max_trailer_bytes,
    }
}

/// A chunked-body step on this buffer loses framing: a chunk-size line
/// over its cap or not a hex size, data not followed by CR LF, or a
/// trailer section over its cap.
pub open spec fn chunk_fails(buf: Seq<u8>, limits: EngineLimits, cs: ChunkState) -> bool {
    match cs {
        ChunkState::Size => (crate::text::no_crlf_from(buf, 0) && buf.len()
            > limits.max_chunk_line_bytes) || (exists|e: int|
            crate::text::first_crlf_from(buf, 0, e) && (e > limits.max_chunk_line_bytes
                || chunk_size_spec(buf.take(e)) is None)),
        ChunkState::Data { .. } => false,
        ChunkState::DataCrlf => buf.len() >= 2 && !(buf[0] == 13 && buf[1] == 10),
        ChunkState::Trailer => ((forall|k: int| 0 <= k ==> !double_crlf_at(buf, k)) && buf.len()
            > limits.max_trailer_bytes) || (exists|n: int| trailer_len(buf, n) && n
            > limits.max_trailer_bytes),
    }
}

/// The buffer starts with the last-chunk line, a size of zero within
/// the cap on chunk-size lines.
pub open spec fn chunk_zero(buf: Seq<u8>, limits: EngineLimits) -> bool {
    exists|e: int|
        crate::text::first_crlf_from(buf, 0, e) && e <= limits.max_chunk_line_bytes
            && chunk_size_spec(buf.take(e)) == Some(0u64)
}

/// A body step on this buffer waits for more bytes.
pub open spec fn body_waits(buf: Seq<u8>, limits: EngineLimits, body: BodyState) -> bool {
    match body {
        BodyState::Length { remaining } => remaining > 0 && buf.len() == 0,
        BodyState::UntilClose => buf.len() == 0,
        BodyState::Chunked(cs) => chunk_needs_more(buf, limits, cs),
    }
}

/// A body step on this buffer loses framing.
pub open spec fn body_fails(buf: Seq<u8>, limits: EngineLimits, body: BodyState) -> bool {
    match body {
        BodyState::Chunked(cs) => chunk_fails(buf, limits, cs),
        _ => false,
    }
}

impl DirMachine {
    /// One step of a chunked body.
    fn chunk_step(&mut self, limits: &EngineLimits, cs: ChunkState) -> (r: Result<Progress, HttpPoison>)
        requires
            old(self).state == DirState::Body(BodyState::Chunked(cs)),
            old(self).scan_ok(),
        ensures
            final(self).scan_ok(),
            final(self).close_after_message == old(self).close_after_message,
            r is Err ==> final(self).state == DirState::Desynced && final(self).buf@.len() == 0,
            r matches Err(p) ==> final(self).poison == Some(p),
            r is Ok ==> final(self).poison == old(self).poison,
            (r matches Ok(Progress::NeedMore)) <==> chunk_needs_more(old(self).buf@, *limits, cs),
            r is Err <==> chunk_fails(old(self).buf@, *limits, cs),
            (r matches Ok(Progress::Again)) <==> (cs == ChunkState::Size && chunk_zero(
                old(self).buf@,
                *limits,
            )),
            r matches Ok(Progress::Event(ev)) ==> old(self).buf@ == event_raw(ev) + final(self).buf@ && event_raw(ev).len() > 0,
            r matches Ok(Progress::NeedMore) ==> final(self).buf@ == old(self).buf@
                && final(self).state == old(self).state,
            r matches Ok(Progress::Again) ==> final(self).buf@ == old(self).buf@
                && cs == ChunkState::Size && final(self).state == DirState::Body(
                BodyState::Chunked(ChunkState::Trailer),
            ),
            r matches Ok(Progress::Event(ev)) ==> chunk_event(old(self).buf@, final(self).state, *limits, cs, ev),
    {
        match cs {
            ChunkState::Size => {
                let found = scan_crlf(self.buf.as_slice(), &mut self.scanned);
                let eol = match found {
                    None => {
                        if self.buf.len() > limits.max_chunk_line_bytes {
                            return Err(self.desync(HttpPoison::ChunkLineOverflow));
                        }
                        return Ok(Progress::NeedMore);
                    },
                    Some(e) => e,
                };
                if eol > limits.max_chunk_line_bytes {
                    return Err(self.desync(HttpPoison::ChunkLineOverflow));
                }
                let size = chunk_size(&self.buf.as_slice()[0..eol]);
                let ghost line = self.buf@.take(eol as int);
                assert(self.buf@.subrange(0, eol as int) =~= line);
                match size {
                    None => Err(self.desync(HttpPoison::InvalidChunkSize)),
                    Some(size) => {
                        if size == 0 {
                            self.state = DirState::Body(BodyState::Chunked(ChunkState::Trailer));
                            return Ok(Progress::Again);
                        }
                        assert(crate::text::crlf_at(self.buf@, eol as int));
                        assert(self.buf@.len() == self.buf.len());
                        let raw = self.take(eol + 2);
                        assert(raw@.take(raw@.len() - 2) =~= line);
                        self.state = DirState::Body(
                            BodyState::Chunked(ChunkState::Data { remaining: size }),
                        );
                        assert(old(self).buf@ =~= raw@ + self.buf@);
                        Ok(Progress::Event(EngineEvent::Body { decoded: Vec::new(), raw }))
                    },
                }
            },
            ChunkState::Data { remaining } => {
                let len = self.buf.len() as u64;
                let take: u64 = if remaining < len { remaining } else { len };
                if take == 0 {
                    return Ok(Progress::NeedMore);
                }
                let raw = self.take(take as usize);
                let left = remaining - take;
                self.state = DirState::Body(
                    BodyState::Chunked(
                        if left == 0 {
                            ChunkState::DataCrlf
                        } else {
                            ChunkState::Data { remaining: left }
                        },
                    ),
                );
                assert(old(self).buf@ =~= raw@ + self.buf@);
                let decoded = copy_bytes(raw.as_slice());
                Ok(Progress::Event(EngineEvent::Body { decoded, raw }))
            },
            ChunkState::DataCrlf => {
                if self.buf.len() < 2 {
                    return Ok(Progress::NeedMore);
                }
                if !(self.buf[0] == 13 && self.buf[1] == 10) {
                    return Err(self.desync(HttpPoison::MalformedChunkTerminator));
                }
                let raw = self.take(2);
                assert(raw@ =~= seq![13u8, 10u8]);
                self.state = DirState::Body(BodyState::Chunked(ChunkState::Size));
                assert(old(self).buf@ =~= raw@ + self.buf@);
                Ok(Progress::Event(EngineEvent::Body { decoded: Vec::new(), raw }))
            },
            ChunkState::Trailer => {
                let found = scan_trailer_end(self.buf.as_slice());
                let end = match found {
                    None => {
                        if self.buf.len() > limits.max_trailer_bytes {
                            return Err(self.desync(HttpPoison::TrailerOverflow));
                        }
                        return Ok(Progress::NeedMore);
                    },
                    Some(e) => e,
                };
                if end > limits.max_trailer_bytes {
                    return Err(self.desync(HttpPoison::TrailerOverflow));
                }
                self.scanned = 0;
                let raw = self.take(end);
                let fields = parse_trailer_fields(raw.as_slice());
                self.state = DirState::Body(BodyState::Length { remaining: 0 });
                assert(old(self).buf@ =~= raw@ + self.buf@);
                Ok(Progress::Event(EngineEvent::Trailers { fields, raw }))
            },
        }
    }

    /// One step of a length-delimited or close-delimited body with bytes
    /// still to come.
    fn span_step(&mut self) -> (r: Progress)
        requires
            old(self).scan_ok(),
            (old(self).state matches DirState::Body(BodyState::Length { remaining }) && remaining
                > 0) || old(self).state == DirState::Body(BodyState::UntilClose),
        ensures
            final(self).scan_ok(),
            final(self).poison == old(self).poison,
            final(self).close_after_message == old(self).close_after_message,
            !(r is Again),
            r is NeedMore <==> old(self).buf@.len() == 0,
            r is NeedMore ==> final(self).buf@ == old(self).buf@ && old(self).buf@.len() == 0
                && final(self).state == old(self).state,
            r matches Progress::Event(ev) ==> ev matches EngineEvent::Body { decoded, raw }
                && decoded@ == raw@ && raw@.len() > 0 && old(self).buf@ == raw@ + final(self).buf@,
            r matches Progress::Event(ev) ==> match old(self).state {
                DirState::Body(BodyState::Length { remaining }) => event_raw(ev).len()
                    <= remaining && final(self).state == DirState::Body(
                    BodyState::Length { remaining: (remaining - event_raw(ev).len()) as u64 },
                ) && (event_raw(ev).len() == remaining || final(self).buf@.len() == 0)
                    && event_raw(ev) == old(self).buf@.take(
                    if remaining < old(self).buf@.len() {
                        remaining as int
                    } else {
                        old(self).buf@.len() as int
                    },
                ),
                _ => final(self).buf@.len() == 0 && final(self).state == old(self).state,
            },
    {
        match self.state {
            DirState::Body(BodyState::Length { remaining }) => {
                let len = self.buf.len() as u64;
                let take: u64 = if remaining < len { remaining } else { len };
                if take == 0 {
                    return Progress::NeedMore;
                }
                let raw = self.take(take as usize);
                self.state = DirState::Body(BodyState::Length { remaining: remaining - take });
                assert(old(self).buf@ =~= raw@ + self.buf@);
                let decoded = copy_bytes(raw.as_slice());
                Progress::Event(EngineEvent::Body { decoded, raw })
            },
            _ => {
                let n = self.buf.len();
                if n == 0 {
                    return Progress::NeedMore;
                }
                let raw = self.take(n);
                assert(old(self).buf@ =~= raw@ + self.buf@);
                let decoded = copy_bytes(raw.as_slice());
                Progress::Event(EngineEvent::Body { decoded, raw })
            },
        }
    }
}

/// The shared HTTP/1.x streaming state machine.
#[derive(Debug, Clone)]
pub struct Engine {
    pub limits: EngineLimits,
    pub request: DirMachine,
    pub response: DirMachine,
    /// Requests awaiting a response, in wire order.
    pub pending: Vec<ReqCtx>,
    /// A protocol switch to report once the response head that
    /// announced it has been fully framed.
    pub pending_switch: Option<SwitchKind>,
}

/// The other direction.
pub open spec fn other(dir: Dir) -> Dir {
    match dir {
        Dir::Request => Dir::Response,
        Dir::Response => Dir::Request,
    }
}

/// What is remembered of a request with this method.
pub open spec fn ctx_of(method: Seq<u8>) -> ReqCtx {
    ReqCtx { is_head: eq_ic(method, tok_head()), is_connect: eq_ic(method, tok_connect()) }
}

/// Why a parsed request head is refused: a duplicated `Host` (unless
/// observing), a framing ambiguity, or a full pipeline.
pub open spec fn request_refusal(
    hs: super::types::HeaderSeq,
    policy: SmugglingPolicy,
    pending_len: nat,
    max_pipelined: usize,
) -> Option<HttpPoison> {
    if policy != SmugglingPolicy::Observe && super::types::header_values(
        hs,
        super::framing::tok_host(),
    ).len() > 1 {
        Some(HttpPoison::DuplicateHost)
    } else {
        match request_framing_spec(hs, policy) {
            Err(e) => Some(e),
            Ok(_) => if pending_len >= max_pipelined {
                Some(HttpPoison::PipelineOverflow)
            } else {
                None
            },
        }
    }
}

/// A `2xx` status.
pub open spec fn success_status(status: u16) -> bool {
    200 <= status && status <= 299
}

/// An interim status other than `101`.
pub open spec fn interim_status(status: u16) -> bool {
    100 <= status && status <= 199 && status != 101
}

/// Why a parsed response head is refused: a final response with no
/// request outstanding (unless observing), or a framing ambiguity.
pub open spec fn response_refusal(
    status: u16,
    hs: super::types::HeaderSeq,
    policy: SmugglingPolicy,
    pending: Seq<ReqCtx>,
) -> Option<HttpPoison> {
    if 100 <= status && status <= 199 {
        None
    } else if pending.len() == 0 && policy != SmugglingPolicy::Observe {
        Some(HttpPoison::UnexpectedResponse)
    } else if pending.len() > 0 && pending[0].is_connect && success_status(status) {
        None
    } else {
        match response_framing_spec(
            status,
            pending.len() > 0 && pending[0].is_head,
            hs,
            policy,
        ) {
            Err(e) => Some(e),
            Ok(_) => None,
        }
    }
}

/// The token a `101` response switches to: its first `Upgrade` value.
pub open spec fn upgrade_protocol(hs: super::types::HeaderSeq) -> Seq<u8> {
    match first_header(hs, tok_upgrade()) {
        Some(v) => v,
        None => Seq::empty(),
    }
}

/// `q` with its first element removed, if it has one.
pub open spec fn pop_front(q: Seq<ReqCtx>) -> Seq<ReqCtx> {
    if q.len() > 0 {
        q.drop_first()
    } else {
        q
    }
}

/// How a response head moves the engine from `e0` to `e1`.
pub open spec fn response_head_step(e0: Engine, e1: Engine, h: Head) -> bool {
    let status = h.status;
    if status == 101 {
        &&& h.framing == BodyFraming::NoBody
        &&& !h.interim
        &&& h.applied@.len() == 0
        &&& e1.pending@ == pop_front(e0.pending@)
        &&& e1.pending_switch matches Some(SwitchKind::Upgrade { protocol }) && protocol@
            == upgrade_protocol(h.headers.deep_view())
        &&& e1.response.state == DirState::Body(BodyState::Length { remaining: 0 })
    } else if interim_status(status) {
        &&& h.framing == BodyFraming::NoBody
        &&& h.interim
        &&& h.applied@.len() == 0
        &&& e1.pending@ == e0.pending@
        &&& e1.pending_switch == e0.pending_switch
        &&& e1.response.state == DirState::Head
    } else if e0.pending@.len() > 0 && e0.pending@[0].is_connect && success_status(status) {
        &&& h.framing == BodyFraming::NoBody
        &&& !h.interim
        &&& h.applied@.len() == 0
        &&& e1.pending@ == pop_front(e0.pending@)
        &&& e1.pending_switch == Some(SwitchKind::ConnectTunnel)
        &&& e1.response.state == DirState::Body(BodyState::Length { remaining: 0 })
    } else {
        &&& response_framing_spec(
            status,
            e0.pending@.len() > 0 && e0.pending@[0].is_head,
            h.headers.deep_view(),
            e0.limits.policy,
        ) == Ok::<(BodyFraming, Seq<super::types::Normalization>), HttpPoison>(
            (h.framing, h.applied@),
        )
        &&& !h.interim
        &&& e1.pending@ == pop_front(e0.pending@)
        &&& e1.pending_switch == e0.pending_switch
        &&& e1.response.state == body_state_spec(h.framing)
        &&& e1.response.close_after_message == signals_close_spec(h.headers.deep_view(), h.version)
    }
}

/// How a request head moves the engine from `e0` to `e1`.
pub open spec fn request_head_step(e0: Engine, e1: Engine, h: Head) -> bool {
    &&& request_framing_spec(h.headers.deep_view(), e0.limits.policy) == Ok::<
        (BodyFraming, Seq<super::types::Normalization>),
        HttpPoison,
    >((h.framing, h.applied@))
    &&& !h.interim
    &&& e1.pending@ == e0.pending@.push(ctx_of(h.method@))
    &&& e1.pending_switch == e0.pending_switch
    &&& e1.request.state == body_state_spec(h.framing)
    &&& e1.request.close_after_message == signals_close_spec(h.headers.deep_view(), h.version)
}

impl Engine {
    /// One direction's machine.
    pub open spec fn machine(&self, dir: Dir) -> DirMachine {
        match dir {
            Dir::Request => self.request,
            Dir::Response => self.response,
        }
    }

    /// Both directions' scan positions are consistent.
    pub open spec fn wf(&self) -> bool {
        self.request.scan_ok() && self.response.scan_ok()
    }

    /// A new engine with both directions awaiting a head.
    pub fn new(limits: EngineLimits) -> (e: Self)
        ensures
            e.wf(),
            e.limits == limits,
            e.request.fresh(),
            e.response.fresh(),
            e.pending@.len() == 0,
            e.pending_switch is None,
    {
        Engine {
            limits,
            request: DirMachine::new(),
            response: DirMachine::new(),
            pending: Vec::new(),
            pending_switch: None,
        }
    }

    /// Whether a direction will still parse what it is given.
    pub fn can_consume(&self, dir: Dir) -> (r: bool)
        ensures
            r == (self.machine(dir).state is Head || self.machine(dir).state is Body),
    {
        let st = match dir {
            Dir::Request => self.request.state,
            Dir::Response => self.response.state,
        };
        match st {
            DirState::Head | DirState::Body(_) => true,
            _ => false,
        }
    }

    /// Append bytes to a direction's buffer; they are dropped once the
    /// direction can no longer parse them.
    pub fn push(&mut self, dir: Dir, bytes: &[u8])
        requires
            old(self).wf(),
        ensures
            final(self).wf(),
            final(self).machine(dir).buf@ == (if old(self).machine(dir).state is Head || old(self).machine(dir).state is Body {
                old(self).machine(dir).buf@ + bytes@
            } else {
                old(self).machine(dir).buf@
            }),
            final(self).machine(dir).state == old(self).machine(dir).state,
            final(self).machine(dir).scanned == old(self).machine(dir).scanned,
            final(self).machine(dir).poison == old(self).machine(dir).poison,
            final(self).machine(dir).close_after_message == old(self).machine(dir).close_after_message,
            final(self).machine(other(dir)) == old(self).machine(other(dir)),
            final(self).limits == old(self).limits,
            final(self).pending == old(self).pending,
            final(self).pending_switch == old(self).pending_switch,
    {
        if bytes.len() == 0 || !self.can_consume(dir) {
            assert(bytes@.len() == 0 ==> old(self).machine(dir).buf@ + bytes@ =~= old(self).machine(dir).buf@);
            return;
        }
        match dir {
            Dir::Request => {
                self.request.buf.extend_from_slice(bytes);
                proof {
                    assert(self.request.buf@.take(old(self).request.buf@.len() as int) =~= old(self).request.buf@);
                    assert(self.request.buf@ =~= old(self).request.buf@ + bytes@);
                    lemma_scan_ok_append(old(self).request, self.request);
                }
            },
            Dir::Response => {
                self.response.buf.extend_from_slice(bytes);
                proof {
                    assert(self.response.buf@.take(old(self).response.buf@.len() as int) =~= old(self).response.buf@);
                    assert(self.response.buf@ =~= old(self).response.buf@ + bytes@);
                    lemma_scan_ok_append(old(self).response, self.response);
                }
            },
        }
    }

    /// Whether a direction lost framing.
    pub fn is_desynced(&self, dir: Dir) -> (r: bool)
        ensures
            r == (self.machine(dir).state == DirState::Desynced),
    {
        let st = match dir {
            Dir::Request => self.request.state,
            Dir::Response => self.response.state,
        };
        st == DirState::Desynced
    }

    /// Whether a direction has seen end of stream.
    pub fn is_closed(&self, dir: Dir) -> (r: bool)
        ensures
            r == (self.machine(dir).state == DirState::Closed),
    {
        let st = match dir {
            Dir::Request => self.request.state,
            Dir::Response => self.response.state,
        };
        st == DirState::Closed
    }

    /// Whether a protocol switch handed the connection over.
    pub fn is_tunnelled(&self) -> (r: bool)
        ensures
            r == (self.request.state == DirState::Tunnel),
    {
        self.request.state == DirState::Tunnel
    }

    /// Why a direction gave up, if it did.
    pub fn poison(&self, dir: Dir) -> (r: Option<HttpPoison>)
        ensures
            r == self.machine(dir).poison,
    {
        match dir {
            Dir::Request => self.request.poison,
            Dir::Response => self.response.poison,
        }
    }

    /// Bytes buffered but not yet consumed on a direction.
    pub fn buffered(&self, dir: Dir) -> (r: usize)
        ensures
            r == self.machine(dir).buf@.len(),
    {
        match dir {
            Dir::Request => self.request.buf.len(),
            Dir::Response => self.response.buf.len(),
        }
    }

    /// Reset a direction to its initial state (a TCP reset); resetting
    /// the request side also forgets outstanding requests.
    pub fn reset(&mut self, dir: Dir)
        requires
            old(self).wf(),
        ensures
            final(self).wf(),
            final(self).machine(dir).fresh(),
            final(self).machine(other(dir)) == old(self).machine(other(dir)),
            final(self).pending@ == (if dir == Dir::Request {
                Seq::<ReqCtx>::empty()
            } else {
                old(self).pending@
            }),
            final(self).limits == old(self).limits,
            final(self).pending_switch == old(self).pending_switch,
    {
        match dir {
            Dir::Request => {
                self.request.reset();
                self.pending.clear();
            },
            Dir::Response => {
                self.response.reset();
            },
        }
    }

    /// Put both directions into tunnel state; buffered bytes stay for
    /// [`take_residue`](Self::take_residue).
    fn switch_to_tunnel(&mut self)
        requires
            old(self).wf(),
        ensures
            final(self).wf(),
            final(self).request.state == DirState::Tunnel,
            final(self).response.state == DirState::Tunnel,
            final(self).request.buf@ == old(self).request.buf@,
            final(self).response.buf@ == old(self).response.buf@,
            final(self).request.poison == old(self).request.poison,
            final(self).response.poison == old(self).response.poison,
            final(self).pending@.len() == 0,
            final(self).limits == old(self).limits,
            final(self).pending_switch == old(self).pending_switch,
    {
        self.request.state = DirState::Tunnel;
        self.response.state = DirState::Tunnel;
        self.pending.clear();
    }

    /// Take (and clear) what a direction had buffered when the
    /// connection switched protocols; empty if not tunnelled.
    pub fn take_residue(&mut self, dir: Dir) -> (r: Vec<u8>)
        requires
            old(self).wf(),
        ensures
            final(self).wf(),
            r@ == (if old(self).request.state == DirState::Tunnel {
                old(self).machine(dir).buf@
            } else {
                Seq::empty()
            }),
            old(self).request.state == DirState::Tunnel ==> final(self).machine(dir).buf@.len()
                == 0,
            final(self).machine(dir).state == old(self).machine(dir).state,
            final(self).machine(other(dir)) == old(self).machine(other(dir)),
            final(self).limits == old(self).limits,
    {
        if !self.is_tunnelled() {
            let v: Vec<u8> = Vec::new();
            assert(v@ =~= Seq::<u8>::empty());
            return v;
        }
        match dir {
            Dir::Request => {
                let n = self.request.buf.len();
                let r = self.request.take(n);
                assert(r@ =~= old(self).request.buf@);
                r
            },
            Dir::Response => {
                let n = self.response.buf.len();
                let r = self.response.take(n);
                assert(r@ =~= old(self).response.buf@);
                r
            },
        }
    }

    /// Frame a parsed request head.
    fn finish_request_head(&mut self, head: Head, wants_close: bool) -> (r: Result<
        Option<EngineEvent>,
        HttpPoison,
    >)
        requires
            old(self).wf(),
            old(self).request.state == DirState::Head,
            old(self).request.scanned == 0,
            wants_close == signals_close_spec(head.headers.deep_view(), head.version),
            !head.interim,
        ensures
            final(self).wf(),
            final(self).limits == old(self).limits,
            final(self).response == old(self).response,
            r is Ok <==> request_refusal(
                head.headers.deep_view(),
                old(self).limits.policy,
                old(self).pending@.len(),
                old(self).limits.max_pipelined,
            ) is None,
            r matches Err(p) ==> request_refusal(
                head.headers.deep_view(),
                old(self).limits.policy,
                old(self).pending@.len(),
                old(self).limits.max_pipelined,
            ) == Some(p) && final(self).request.state == DirState::Desynced
                && final(self).request.poison == Some(p) && final(self).request.buf@.len() == 0
                && final(self).pending == old(self).pending && final(self).pending_switch == old(self).pending_switch,
            r matches Ok(o) ==> o matches Some(EngineEvent::Head(h)) && request_head_step(
                *old(self),
                *final(self),
                h,
            ) && head_fields(h) == head_fields(head) && h.raw@ == head.raw@ && h.dir == head.dir
                && final(self).request.buf@ == old(self).request.buf@ && final(self).request.poison
                == old(self).request.poison,
    {
        let policy = self.limits.policy;
        if policy != SmugglingPolicy::Observe {
            match check_single_host(&head.headers) {
                Err(p) => {
                    return Err(self.request.desync(p));
                },
                Ok(()) => {},
            }
        }
        let framed = request_framing(&head.headers, policy);
        let (framing, applied) = match framed {
            Err(reason) => {
                return Err(self.request.desync(reason));
            },
            Ok(v) => v,
        };
        if self.pending.len() >= self.limits.max_pipelined {
            return Err(self.request.desync(HttpPoison::PipelineOverflow));
        }
        let ht = head_tok();
        let ct = connect_tok();
        let ctx = ReqCtx {
            is_head: eq_ignore_ascii_case(head.method.as_slice(), &ht),
            is_connect: eq_ignore_ascii_case(head.method.as_slice(), &ct),
        };
        self.pending.push(ctx);
        let h = Head {
            dir: head.dir,
            method: head.method,
            path: head.path,
            status: head.status,
            reason: head.reason,
            version: head.version,
            headers: head.headers,
            framing,
            interim: false,
            applied,
            raw: head.raw,
        };
        self.request.close_after_message = wants_close;
        self.request.state = body_state(framing);
        Ok(Some(EngineEvent::Head(h)))
    }

    /// Frame a parsed response head, applying the interim and tunnel
    /// rules.
    fn finish_response_head(&mut self, head: Head, wants_close: bool) -> (r: Result<
        Option<EngineEvent>,
        HttpPoison,
    >)
        requires
            old(self).wf(),
            old(self).response.state == DirState::Head,
            old(self).response.scanned == 0,
            wants_close == signals_close_spec(head.headers.deep_view(), head.version),
            !head.interim,
            head.applied@.len() == 0,
            head.framing == BodyFraming::NoBody,
        ensures
            final(self).wf(),
            final(self).limits == old(self).limits,
            final(self).request == old(self).request,
            r is Ok <==> response_refusal(
                head.status,
                head.headers.deep_view(),
                old(self).limits.policy,
                old(self).pending@,
            ) is None,
            r matches Err(p) ==> response_refusal(
                head.status,
                head.headers.deep_view(),
                old(self).limits.policy,
                old(self).pending@,
            ) == Some(p) && final(self).response.state == DirState::Desynced
                && final(self).response.poison == Some(p) && final(self).response.buf@.len() == 0,
            r matches Ok(o) ==> o matches Some(EngineEvent::Head(h)) && response_head_step(
                *old(self),
                *final(self),
                h,
            ) && head_fields(h) == head_fields(head) && h.raw@ == head.raw@ && h.dir == head.dir
                && final(self).response.buf@ == old(self).response.buf@
                && final(self).response.poison == old(self).response.poison,
    {
        let status = head.status;
        if status == 101 {
            let ut = upgrade_tok();
            let protocol = match header_first(&head.headers, &ut) {
                Some(v) => copy_bytes(v),
                None => Vec::new(),
            };
            assert(protocol@ == upgrade_protocol(head.headers.deep_view()));
            if self.pending.len() > 0 {
                let _ = self.pending.remove(0);
            }
            assert(self.pending@ =~= pop_front(old(self).pending@));
            self.pending_switch = Some(SwitchKind::Upgrade { protocol });
            self.response.state = DirState::Body(BodyState::Length { remaining: 0 });
            return Ok(Some(EngineEvent::Head(head)));
        }
        if 100 <= status && status <= 199 {
            let h = Head {
                dir: head.dir,
                method: head.method,
                path: head.path,
                status: head.status,
                reason: head.reason,
                version: head.version,
                headers: head.headers,
                framing: BodyFraming::NoBody,
                interim: true,
                applied: head.applied,
                raw: head.raw,
            };
            self.response.state = DirState::Head;
            return Ok(Some(EngineEvent::Head(h)));
        }
        let has_ctx = self.pending.len() > 0;
        if !has_ctx && self.limits.policy != SmugglingPolicy::Observe {
            return Err(self.response.desync(HttpPoison::UnexpectedResponse));
        }
        let ctx = if has_ctx {
            self.pending.remove(0)
        } else {
            ReqCtx { is_head: false, is_connect: false }
        };
        assert(self.pending@ =~= pop_front(old(self).pending@));
        let is_head_request = has_ctx && ctx.is_head;
        if has_ctx && ctx.is_connect && 200 <= status && status <= 299 {
            self.pending_switch = Some(SwitchKind::ConnectTunnel);
            self.response.state = DirState::Body(BodyState::Length { remaining: 0 });
            return Ok(Some(EngineEvent::Head(head)));
        }
        let framed = response_framing(status, is_head_request, &head.headers, self.limits.policy);
        let (framing, applied) = match framed {
            Err(reason) => {
                return Err(self.response.desync(reason));
            },
            Ok(v) => v,
        };
        let h = Head {
            dir: head.dir,
            method: head.method,
            path: head.path,
            status: head.status,
            reason: head.reason,
            version: head.version,
            headers: head.headers,
            framing,
            interim: false,
            applied,
            raw: head.raw,
        };
        self.response.close_after_message = wants_close;
        self.response.state = body_state(framing);
        Ok(Some(EngineEvent::Head(h)))
    }
}

proof fn lemma_scan_ok_append(m0: DirMachine, m1: DirMachine)
    requires
        m0.scan_ok(),
        m1.state == m0.state,
        m1.scanned == m0.scanned,
        m1.buf@.len() >= m0.buf@.len(),
        m1.buf@.take(m0.buf@.len() as int) == m0.buf@,
        m0.state is Head || m0.state is Body,
    ensures
        m1.scan_ok(),
{
    let k = m0.scanned as int;
    assert forall|j: int| 0 <= j < m0.buf@.len() implies m1.buf@[j] == m0.buf@[j] by {
        assert(m1.buf@.take(m0.buf@.len() as int)[j] == m1.buf@[j]);
    }
    match m0.state {
        DirState::Head => {
            assert forall|i: int| 0 <= i < k implies !blank_end(m1.buf@, i) by {
                assert(!blank_end(m0.buf@, i));
            }
        },
        DirState::Body(BodyState::Chunked(ChunkState::Size)) => {
            assert forall|j: int| 0 <= j && j + 1 < k implies !crate::text::crlf_at(m1.buf@, j) by {
                assert(!crate::text::crlf_at(m0.buf@, j));
            }
        },
        _ => {},
    }
}

/// What reading the next head does to a direction: wait, refuse with a
/// reason, or take a head of the given length.
pub open spec fn head_verdict(e: Engine, dir: Dir) -> Result<Option<int>, HttpPoison> {
    let buf = e.machine(dir).buf@;
    match head_step_spec(buf, e.limits, dir) {
        Err(p) => Err(p),
        Ok(None) => Ok(None),
        Ok(Some(n)) => {
            let f = head_parse_spec(buf.take(n), dir, e.limits.max_headers)->0;
            let refusal = match dir {
                Dir::Request => request_refusal(
                    f.5,
                    e.limits.policy,
                    e.pending@.len(),
                    e.limits.max_pipelined,
                ),
                Dir::Response => response_refusal(f.2, f.5, e.limits.policy, e.pending@),
            };
            match refusal {
                Some(p) => Err(p),
                None => Ok(Some(n)),
            }
        },
    }
}

/// A poll of this direction yields nothing for now: it is desynced,
/// closed or tunnelled, or its buffer holds no whole step yet.
pub open spec fn poll_waits(e: Engine, dir: Dir) -> bool {
    let m = e.machine(dir);
    match m.state {
        DirState::Head => if dir == Dir::Request && preface_spec(e.request.buf@) == PrefaceMatch::Yes {
            false
        } else if dir == Dir::Request && preface_spec(e.request.buf@) == PrefaceMatch::Partial {
            true
        } else {
            head_verdict(e, dir) == Ok::<Option<int>, HttpPoison>(None)
        },
        DirState::Body(BodyState::Chunked(ChunkState::Size)) => chunk_needs_more(
            m.buf@,
            e.limits,
            ChunkState::Size,
        ) || (chunk_zero(m.buf@, e.limits) && chunk_needs_more(m.buf@, e.limits, ChunkState::Trailer)),
        DirState::Body(body) => body_waits(m.buf@, e.limits, body),
        _ => true,
    }
}

/// A poll of this direction loses framing.
pub open spec fn poll_fails(e: Engine, dir: Dir) -> bool {
    let m = e.machine(dir);
    match m.state {
        DirState::Head => !(dir == Dir::Request && (preface_spec(e.request.buf@) == PrefaceMatch::Yes
            || preface_spec(e.request.buf@) == PrefaceMatch::Partial)) && head_verdict(e, dir) is Err,
        DirState::Body(BodyState::Chunked(ChunkState::Size)) => chunk_fails(
            m.buf@,
            e.limits,
            ChunkState::Size,
        ) || (chunk_zero(m.buf@, e.limits) && chunk_fails(m.buf@, e.limits, ChunkState::Trailer)),
        DirState::Body(body) => body_fails(m.buf@, e.limits, body),
        _ => false,
    }
}

/// What a poll does to a direction that awaits a head.
pub open spec fn head_poll(
    e0: Engine,
    e1: Engine,
    dir: Dir,
    r: Result<Option<EngineEvent>, HttpPoison>,
) -> bool {
    if dir == Dir::Request && preface_spec(e0.request.buf@) == PrefaceMatch::Yes {
        &&& r matches Ok(Some(EngineEvent::Switch(SwitchKind::Http2PriorKnowledge)))
        &&& e1.request.state == DirState::Tunnel
        &&& e1.response.state == DirState::Tunnel
        &&& e1.request.buf@ == e0.request.buf@
        &&& e1.response.buf@ == e0.response.buf@
        &&& e1.pending@.len() == 0
    } else if dir == Dir::Request && preface_spec(e0.request.buf@) == PrefaceMatch::Partial {
        r matches Ok(None) && e1 == e0
    } else {
        &&& r matches Err(p) ==> head_verdict(e0, dir) == Err::<Option<int>, HttpPoison>(p)
        &&& head_verdict(e0, dir) matches Err(p) ==> r == Err::<Option<EngineEvent>, HttpPoison>(p)
        &&& (r matches Ok(None) <==> head_verdict(e0, dir) == Ok::<Option<int>, HttpPoison>(None))
        &&& r matches Ok(None) ==> {
            &&& e1.machine(dir).buf@ == e0.machine(dir).buf@
            &&& e1.machine(dir).state == e0.machine(dir).state
            &&& e1.machine(dir).poison == e0.machine(dir).poison
            &&& e1.pending == e0.pending
            &&& e1.pending_switch == e0.pending_switch
        }
        &&& r matches Ok(Some(ev)) ==> ev matches EngineEvent::Head(h) && {
            &&& head_verdict(e0, dir) == Ok::<Option<int>, HttpPoison>(Some(h.raw@.len() as int))
            &&& Some(head_fields(h)) == head_parse_spec(h.raw@, dir, e0.limits.max_headers)
            &&& h.dir == dir
            &&& match dir {
                Dir::Request => request_head_step(e0, e1, h),
                Dir::Response => response_head_step(e0, e1, h),
            }
        }
    }
}

impl Engine {
    fn poll_head(&mut self, dir: Dir) -> (r: Result<Option<EngineEvent>, HttpPoison>)
        requires
            old(self).wf(),
            old(self).machine(dir).state == DirState::Head,
        ensures
            final(self).wf(),
            final(self).limits == old(self).limits,
            head_poll(*old(self), *final(self), dir, r),
            r matches Ok(Some(ev)) ==> old(self).machine(dir).buf@ == event_raw(ev) + final(self).machine(dir).buf@,
            r matches Ok(None) ==> final(self).machine(dir).buf@ == old(self).machine(dir).buf@,
            r matches Err(p) ==> final(self).machine(dir).state == DirState::Desynced && final(self).machine(dir).poison == Some(p) && final(self).machine(dir).buf@.len() == 0,
            !(r matches Ok(Some(EngineEvent::Switch(_)))) ==> final(self).machine(other(dir))
                == old(self).machine(other(dir)),
            r matches Ok(Some(EngineEvent::Switch(_))) ==> final(self).machine(other(dir)).buf@
                == old(self).machine(other(dir)).buf@,
            r is Err && dir == Dir::Request ==> final(self).pending == old(self).pending
                && final(self).pending_switch == old(self).pending_switch,
    {
        if dir == Dir::Request {
            match preface_match(self.request.buf.as_slice()) {
                PrefaceMatch::Yes => {
                    self.switch_to_tunnel();
                    return Ok(Some(EngineEvent::Switch(SwitchKind::Http2PriorKnowledge)));
                },
                PrefaceMatch::Partial => {
                    return Ok(None);
                },
                PrefaceMatch::No => {},
            }
        }
        let limits = self.limits;
        let ghost buf0 = old(self).machine(dir).buf@;
        let read = match dir {
            Dir::Request => self.request.read_head(&limits, dir),
            Dir::Response => self.response.read_head(&limits, dir),
        };
        let head = match read {
            Err(p) => {
                return Err(p);
            },
            Ok(None) => {
                return Ok(None);
            },
            Ok(Some(h)) => h,
        };
        let ghost mid = self.machine(dir).buf@;
        proof {
            assert(buf0.take(head.raw@.len() as int) == head.raw@);
            assert(mid == buf0.skip(head.raw@.len() as int));
            assert(buf0 =~= head.raw@ + mid);
        }
        let wants_close = signals_close(&head.headers, head.version);
        match dir {
            Dir::Request => {
                let r = self.finish_request_head(head, wants_close);
                proof {
                    if r is Ok {
                        assert(self.request.buf@ == mid);
                    }
                }
                r
            },
            Dir::Response => {
                let r = self.finish_response_head(head, wants_close);
                proof {
                    if r is Ok {
                        assert(self.response.buf@ == mid);
                    }
                }
                r
            },
        }
    }

    /// The zero-remaining step: report a pending protocol switch, or end
    /// the message.
    fn end_message(&mut self, dir: Dir) -> (ev: EngineEvent)
        requires
            old(self).wf(),
            old(self).machine(dir).state == DirState::Body(BodyState::Length { remaining: 0 }),
        ensures
            final(self).wf(),
            final(self).limits == old(self).limits,
            final(self).machine(dir).buf@ == old(self).machine(dir).buf@,
            final(self).machine(other(dir)).buf@ == old(self).machine(other(dir)).buf@,
            final(self).machine(dir).poison == old(self).machine(dir).poison,
            old(self).pending_switch matches Some(k) ==> ev == EngineEvent::Switch(k)
                && final(self).request.state == DirState::Tunnel && final(self).response.state
                == DirState::Tunnel && final(self).pending@.len() == 0
                && final(self).pending_switch is None,
            old(self).pending_switch is None ==> ev == EngineEvent::End && final(self).machine(dir).state == (if old(self).machine(dir).close_after_message {
                DirState::Closed
            } else {
                DirState::Head
            }) && final(self).machine(other(dir)) == old(self).machine(other(dir))
                && final(self).pending == old(self).pending && final(self).pending_switch is None,
    {
        match self.pending_switch.take() {
            Some(kind) => {
                self.switch_to_tunnel();
                EngineEvent::Switch(kind)
            },
            None => {
                match dir {
                    Dir::Request => {
                        self.request.state = if self.request.close_after_message {
                            DirState::Closed
                        } else {
                            DirState::Head
                        };
                    },
                    Dir::Response => {
                        self.response.state = if self.response.close_after_message {
                            DirState::Closed
                        } else {
                            DirState::Head
                        };
                    },
                }
                EngineEvent::End
            },
        }
    }

    fn body_step(&mut self, dir: Dir, body: BodyState) -> (r: Result<Progress, HttpPoison>)
        requires
            old(self).wf(),
            old(self).machine(dir).state == DirState::Body(body),
        ensures
            final(self).wf(),
            final(self).limits == old(self).limits,
            r matches Ok(Progress::Event(ev)) ==> old(self).machine(dir).buf@ == event_raw(ev)
                + final(self).machine(dir).buf@,
            r matches Ok(Progress::NeedMore) ==> final(self).machine(dir).buf@ == old(self).machine(dir).buf@,
            r matches Ok(Progress::Again) ==> final(self).machine(dir).buf@ == old(self).machine(dir).buf@ && final(self).machine(dir).state == DirState::Body(
                BodyState::Chunked(ChunkState::Trailer),
            ) && body == BodyState::Chunked(ChunkState::Size),
            r matches Err(p) ==> final(self).machine(dir).state == DirState::Desynced && final(self).machine(dir).poison == Some(p) && final(self).machine(dir).buf@.len() == 0,
            !(r matches Ok(Progress::Event(EngineEvent::Switch(_)))) ==> final(self).machine(other(dir)) == old(self).machine(other(dir)),
            final(self).machine(other(dir)).buf@ == old(self).machine(other(dir)).buf@,
            body == (BodyState::Length { remaining: 0 }) ==> (r matches Ok(Progress::Event(ev)) && (
            ev is End || ev is Switch)),
            (r matches Ok(Progress::NeedMore)) <==> body_waits(old(self).machine(dir).buf@, old(self).limits, body),
            r is Err <==> body_fails(old(self).machine(dir).buf@, old(self).limits, body),
            (r matches Ok(Progress::Again)) <==> (body == BodyState::Chunked(ChunkState::Size)
                && chunk_zero(old(self).machine(dir).buf@, old(self).limits)),
            !(r matches Ok(Progress::Event(_))) ==> final(self).pending == old(self).pending
                && final(self).pending_switch == old(self).pending_switch,
            r matches Ok(Progress::Event(ev)) ==> body_event(
                old(self).machine(dir),
                final(self).machine(dir),
                old(self).limits,
                body,
                ev,
            ),
    {
        match body {
            BodyState::Length { remaining } => {
                if remaining == 0 {
                    let ev = self.end_message(dir);
                    return Ok(Progress::Event(ev));
                }
                match dir {
                    Dir::Request => Ok(self.request.span_step()),
                    Dir::Response => Ok(self.response.span_step()),
                }
            },
            BodyState::UntilClose => {
                match dir {
                    Dir::Request => Ok(self.request.span_step()),
                    Dir::Response => Ok(self.response.span_step()),
                }
            },
            BodyState::Chunked(cs) => {
                let limits = self.limits;
                match dir {
                    Dir::Request => self.request.chunk_step(&limits, cs),
                    Dir::Response => self.response.chunk_step(&limits, cs),
                }
            },
        }
    }

    /// Advance one step on a direction: `Ok(Some(event))` is progress
    /// (call again), `Ok(None)` means more bytes are needed or the
    /// direction is finished, `Err(reason)` means framing was lost and
    /// the direction is now desynced.
    ///
    /// Every byte a step consumes leaves the buffer inside that step's
    /// event: the buffer before is the event's `raw` followed by the
    /// buffer after.
    pub fn poll(&mut self, dir: Dir) -> (r: Result<Option<EngineEvent>, HttpPoison>)
        requires
            old(self).wf(),
        ensures
            final(self).wf(),
            final(self).limits == old(self).limits,
            r matches Ok(Some(ev)) ==> old(self).machine(dir).buf@ == event_raw(ev) + final(self).machine(dir).buf@,
            r matches Ok(None) ==> final(self).machine(dir).buf@ == old(self).machine(dir).buf@,
            r matches Err(p) ==> final(self).machine(dir).state == DirState::Desynced && final(self).machine(dir).poison == Some(p) && final(self).machine(dir).buf@.len() == 0,
            final(self).machine(other(dir)).buf@ == old(self).machine(other(dir)).buf@,
            !(r matches Ok(Some(EngineEvent::Switch(_)))) ==> final(self).machine(other(dir))
                == old(self).machine(other(dir)),
            (old(self).machine(dir).state is Desynced || old(self).machine(dir).state is Closed
                || old(self).machine(dir).state is Tunnel) ==> (r matches Ok(None) && *final(self)
                == *old(self)),
            old(self).machine(dir).state is Head ==> head_poll(*old(self), *final(self), dir, r),
            old(self).machine(dir).state == DirState::Body(BodyState::Length { remaining: 0 })
                ==> (r matches Ok(Some(ev)) && (ev is End || ev is Switch)),
            r matches Ok(Some(EngineEvent::Body { decoded, raw })) ==> (old(self).machine(dir).state is Body),
            (r matches Ok(None)) <==> poll_waits(*old(self), dir),
            r is Err <==> poll_fails(*old(self), dir),
            r matches Ok(None) ==> final(self).pending == old(self).pending
                && final(self).pending_switch == old(self).pending_switch,
            r is Err && dir == Dir::Request ==> final(self).pending == old(self).pending
                && final(self).pending_switch == old(self).pending_switch,
            r matches Ok(Some(ev)) ==> poll_event(*old(self), *final(self), dir, ev),
            old(self).machine(dir).state matches DirState::Body(body) ==> (r matches Ok(Some(ev))
                ==> (body_event(old(self).machine(dir), final(self).machine(dir), old(self).limits, body, ev)
                || (body == BodyState::Chunked(ChunkState::Size) && chunk_zero(
                old(self).machine(dir).buf@,
                old(self).limits,
            ) && chunk_event(
                old(self).machine(dir).buf@,
                final(self).machine(dir).state,
                old(self).limits,
                ChunkState::Trailer,
                ev,
            )))),
    {
        let state = match dir {
            Dir::Request => self.request.state,
            Dir::Response => self.response.state,
        };
        match state {
            DirState::Desynced | DirState::Closed | DirState::Tunnel => Ok(None),
            DirState::Head => self.poll_head(dir),
            DirState::Body(body) => {
                let first = self.body_step(dir, body);
                match first {
                    Err(p) => Err(p),
                    Ok(Progress::Event(ev)) => Ok(Some(ev)),
                    Ok(Progress::NeedMore) => Ok(None),
                    Ok(Progress::Again) => {
                        let second = self.body_step(dir, BodyState::Chunked(ChunkState::Trailer));
                        match second {
                            Err(p) => Err(p),
                            Ok(Progress::Event(ev)) => Ok(Some(ev)),
                            Ok(_) => Ok(None),
                        }
                    },
                }
            },
        }
    }

    /// Signal end of stream on a direction. A close-delimited body ends
    /// here; a desync or a tunnel is kept; anything else closes cleanly.
    pub fn fin(&mut self, dir: Dir) -> (r: Option<EngineEvent>)
        requires
            old(self).wf(),
        ensures
            final(self).wf(),
            final(self).limits == old(self).limits,
            final(self).machine(other(dir)) == old(self).machine(other(dir)),
            final(self).pending == old(self).pending,
            final(self).pending_switch == old(self).pending_switch,
            final(self).machine(dir).poison == old(self).machine(dir).poison,
            final(self).machine(dir).state == (match old(self).machine(dir).state {
                DirState::Desynced => DirState::Desynced,
                DirState::Tunnel => DirState::Tunnel,
                _ => DirState::Closed,
            }),
            old(self).machine(dir).state == DirState::Body(BodyState::UntilClose) ==> (r matches Some(
                EngineEvent::Body { decoded, raw },
            ) && decoded@ == raw@ && raw@ == old(self).machine(dir).buf@ && final(self).machine(dir).buf@.len() == 0),
            old(self).machine(dir).state != DirState::Body(BodyState::UntilClose) ==> r is None
                && final(self).machine(dir).buf@ == old(self).machine(dir).buf@,
    {
        match dir {
            Dir::Request => fin_machine(&mut self.request),
            Dir::Response => fin_machine(&mut self.response),
        }
    }
}

fn fin_machine(m: &mut DirMachine) -> (r: Option<EngineEvent>)
    requires
        old(m).scan_ok(),
    ensures
        final(m).scan_ok(),
        final(m).poison == old(m).poison,
        final(m).close_after_message == old(m).close_after_message,
        final(m).state == (match old(m).state {
            DirState::Desynced => DirState::Desynced,
            DirState::Tunnel => DirState::Tunnel,
            _ => DirState::Closed,
        }),
        old(m).state == DirState::Body(BodyState::UntilClose) ==> (r matches Some(
            EngineEvent::Body { decoded, raw },
        ) && decoded@ == raw@ && raw@ == old(m).buf@ && final(m).buf@.len() == 0),
        old(m).state != DirState::Body(BodyState::UntilClose) ==> r is None && final(m).buf@ == old(m).buf@ && final(m).scanned == old(m).scanned,
{
    let st = m.state;
    match st {
        DirState::Desynced | DirState::Tunnel => None,
        DirState::Body(BodyState::UntilClose) => {
            m.state = DirState::Closed;
            let n = m.buf.len();
            let raw = m.take(n);
            assert(raw@ =~= old(m).buf@);
            let decoded = copy_bytes(raw.as_slice());
            Some(EngineEvent::Body { decoded, raw })
        },
        _ => {
            m.state = DirState::Closed;
            None
        },
    }
}

} // verus!
