//! HTTP/2 stream heads and the parser's configuration.

use vstd::prelude::*;

use super::conn::{
    begin_model, complete_model, continue_model, dir_at, drive_frames, drive_model, drive_steps,
    fail_model, finish_model, frame_model, push_model, settings_model, with_buf, with_dir, with_event,
    BlockView, ConnView, DirView, EventView, StreamState,
};
use super::error::Http2Error;
use super::frame::{parse_frame, parse_frame_spec, parse_settings, Frame, FrameView, FrameKind, ACK, END_HEADERS, END_STREAM};
use super::hpack::HpackDecoder;
use crate::event::FlowSide;
use std::collections::{HashMap, VecDeque};
use crate::text::{copy_bytes, parse_u16, u16_from_chars, utf8_str};
use vstd::string::{StrSliceExecFns, StringSliceAdditionalSpecFns};
use vstd::utf8::{decode_utf8, valid_utf8};

verus! {

broadcast use vstd::std_specs::hash::group_hash_axioms;

/// A stream's decoded header block, surfaced when it completes.
#[derive(Debug, Clone)]
pub struct StreamHead {
    pub stream_id: u32,
    pub dir: FlowSide,
    /// Decoded fields in wire order, pseudo-headers included.
    pub fields: Vec<(Vec<u8>, Vec<u8>)>,
    /// `END_STREAM` was set on the `HEADERS` frame.
    pub end_stream: bool,
}

/// The value of the first field named exactly `name`.
pub open spec fn field_of(fields: Seq<(Seq<u8>, Seq<u8>)>, name: Seq<u8>) -> Option<Seq<u8>>
    decreases fields.len(),
{
    if fields.len() == 0 {
        None
    } else if fields[0].0 == name {
        Some(fields[0].1)
    } else {
        field_of(fields.drop_first(), name)
    }
}

/// The value of the first field named exactly `name`, as text.
pub open spec fn field_text(fields: Seq<(Seq<u8>, Seq<u8>)>, name: Seq<u8>) -> Option<Seq<char>> {
    match field_of(fields, name) {
        Some(v) => if valid_utf8(v) {
            Some(decode_utf8(v))
        } else {
            None
        },
        None => None,
    }
}

pub(crate) fn bytes_eq(a: &[u8], b: &[u8]) -> (r: bool)
    ensures
        r == (a@ == b@),
{
    if a.len() != b.len() {
        return false;
    }
    let mut i: usize = 0;
    while i < a.len()
        invariant
            i <= a@.len(),
            a@.len() == b@.len(),
            forall|j: int| 0 <= j < i ==> a@[j] == b@[j],
        decreases a@.len() - i,
    {
        if a[i] != b[i] {
            return false;
        }
        i += 1;
    }
    assert(a@ =~= b@);
    true
}

impl StreamHead {
    /// The first field whose name is exactly the bytes `name`.
    pub(crate) fn field_bytes(&self, name: &[u8]) -> (r: Option<&[u8]>)
        ensures
            r matches Some(v) ==> field_of(self.fields.deep_view(), name@) == Some(v@),
            r is None ==> field_of(self.fields.deep_view(), name@) is None,
    {
        let ghost fs = self.fields.deep_view();
        let mut i: usize = 0;
        assert(fs.skip(0) =~= fs);
        while i < self.fields.len()
            invariant
                i <= self.fields.len(),
                fs == self.fields.deep_view(),
                field_of(fs, name@) == field_of(fs.skip(i as int), name@),
            decreases self.fields.len() - i,
        {
            assert(fs.skip(i as int)[0] == fs[i as int]);
            assert(fs.skip(i as int).drop_first() =~= fs.skip(i + 1));
            assert(fs[i as int] == (self.fields[i as int].0@, self.fields[i as int].1@));
            if bytes_eq(self.fields[i].0.as_slice(), name) {
                return Some(self.fields[i].1.as_slice());
            }
            i += 1;
        }
        None
    }

    /// The first field named exactly `name`.
    pub fn field(&self, name: &str) -> (r: Option<&[u8]>)
        ensures
            r matches Some(v) ==> field_of(self.fields.deep_view(), name.spec_bytes()) == Some(v@),
            r is None ==> field_of(self.fields.deep_view(), name.spec_bytes()) is None,
    {
        let n = name.as_bytes_vec();
        self.field_bytes(n.as_slice())
    }

    /// The first field named exactly `name`, as UTF-8 text.
    pub fn field_str(&self, name: &str) -> (r: Option<&str>)
        ensures
            r matches Some(s) ==> field_text(self.fields.deep_view(), name.spec_bytes()) == Some(s@),
            r is None ==> field_text(self.fields.deep_view(), name.spec_bytes()) is None,
    {
        let n = name.as_bytes_vec();
        self.text_field_bytes(n.as_slice())
    }

    /// The first field whose name is exactly the bytes `name`, as text.
    fn text_field_bytes(&self, name: &[u8]) -> (r: Option<&str>)
        ensures
            r matches Some(s) ==> field_text(self.fields.deep_view(), name@) == Some(s@),
            r is None ==> field_text(self.fields.deep_view(), name@) is None,
    {
        match self.field_bytes(name) {
            Some(v) => utf8_str(v),
            None => None,
        }
    }

    /// `:method`.
    pub fn method(&self) -> (r: Option<&str>)
        ensures
            r matches Some(s) ==> field_text(self.fields.deep_view(), seq![58u8, 109, 101, 116, 104, 111, 100]) == Some(s@),
            r is None ==> field_text(self.fields.deep_view(), seq![58u8, 109, 101, 116, 104, 111, 100]) is None,
    {
        let n: [u8; 7] = [58u8, 109, 101, 116, 104, 111, 100];
        self.text_field_bytes(&n)
    }

    /// `:path`.
    pub fn path(&self) -> (r: Option<&str>)
        ensures
            r matches Some(s) ==> field_text(self.fields.deep_view(), seq![58u8, 112, 97, 116, 104]) == Some(s@),
            r is None ==> field_text(self.fields.deep_view(), seq![58u8, 112, 97, 116, 104]) is None,
    {
        let n: [u8; 5] = [58u8, 112, 97, 116, 104];
        self.text_field_bytes(&n)
    }

    /// `:authority`.
    pub fn authority(&self) -> (r: Option<&str>)
        ensures
            r matches Some(s) ==> field_text(self.fields.deep_view(), seq![58u8, 97, 117, 116, 104, 111, 114, 105, 116, 121]) == Some(s@),
            r is None ==> field_text(self.fields.deep_view(), seq![58u8, 97, 117, 116, 104, 111, 114, 105, 116, 121]) is None,
    {
        let n: [u8; 10] = [58u8, 97, 117, 116, 104, 111, 114, 105, 116, 121];
        self.text_field_bytes(&n)
    }

    /// `:scheme`.
    pub fn scheme(&self) -> (r: Option<&str>)
        ensures
            r matches Some(s) ==> field_text(self.fields.deep_view(), seq![58u8, 115, 99, 104, 101, 109, 101]) == Some(s@),
            r is None ==> field_text(self.fields.deep_view(), seq![58u8, 115, 99, 104, 101, 109, 101]) is None,
    {
        let n: [u8; 7] = [58u8, 115, 99, 104, 101, 109, 101];
        self.text_field_bytes(&n)
    }

    /// `:status`, parsed as a number, on a response.
    pub fn status(&self) -> (r: Option<u16>)
        ensures
            r == (match field_text(self.fields.deep_view(), seq![58u8, 115, 116, 97, 116, 117, 115]) {
                Some(t) => u16_from_chars(t),
                None => None,
            }),
    {
        let n: [u8; 7] = [58u8, 115, 116, 97, 116, 117, 115];
        match self.text_field_bytes(&n) {
            Some(t) => parse_u16(t),
            None => None,
        }
    }

    /// `content-type`.
    pub fn content_type(&self) -> (r: Option<&str>)
        ensures
            r matches Some(s) ==> field_text(self.fields.deep_view(), seq![99u8, 111, 110, 116, 101, 110, 116, 45, 116, 121, 112, 101]) == Some(s@),
            r is None ==> field_text(self.fields.deep_view(), seq![99u8, 111, 110, 116, 101, 110, 116, 45, 116, 121, 112, 101]) is None,
    {
        let n: [u8; 12] = [99u8, 111, 110, 116, 101, 110, 116, 45, 116, 121, 112, 101];
        self.text_field_bytes(&n)
    }
}

/// Configuration knobs for the HTTP/2 parser.
#[derive(Debug, Clone, Copy, PartialEq, Eq, Structural)]
pub struct Http2Config {
    /// Largest frame payload accepted.
    pub max_frame_size: u32,
    /// Cap on one assembled field block.
    pub max_header_block_bytes: usize,
    /// Hard cap on the HPACK dynamic table.
    pub max_hpack_table_bytes: usize,
    /// Cap on concurrently tracked streams.
    pub max_concurrent_streams: usize,
    /// Cap on buffered, not yet framed bytes.
    pub max_buffered_bytes: usize,
}

impl Http2Config {
    /// The same configuration with another frame-size cap.
    pub fn with_max_frame_size(self, n: u32) -> (c: Self)
        ensures
            c == (Http2Config { max_frame_size: n, ..self }),
    {
        Http2Config { max_frame_size: n, ..self }
    }

    /// The same configuration with another field-block cap.
    pub fn with_max_header_block_bytes(self, n: usize) -> (c: Self)
        ensures
            c == (Http2Config { max_header_block_bytes: n, ..self }),
    {
        Http2Config { max_header_block_bytes: n, ..self }
    }

    /// The same configuration with another HPACK table cap.
    pub fn with_max_hpack_table_bytes(self, n: usize) -> (c: Self)
        ensures
            c == (Http2Config { max_hpack_table_bytes: n, ..self }),
    {
        Http2Config { max_hpack_table_bytes: n, ..self }
    }

    /// The same configuration with another stream cap.
    pub fn with_max_concurrent_streams(self, n: usize) -> (c: Self)
        ensures
            c == (Http2Config { max_concurrent_streams: n, ..self }),
    {
        Http2Config { max_concurrent_streams: n, ..self }
    }

    /// The same configuration with another buffer cap.
    pub fn with_max_buffered_bytes(self, n: usize) -> (c: Self)
        ensures
            c == (Http2Config { max_buffered_bytes: n, ..self }),
    {
        Http2Config { max_buffered_bytes: n, ..self }
    }

    /// The frame-size cap in force: the configured one, lowered so a
    /// whole frame fits the buffer cap.
    pub fn effective_max_frame_size(&self) -> (r: u32)
        ensures
            ({
                let by_buffer = if self.max_buffered_bytes >= 9 {
                    self.max_buffered_bytes - 9
                } else {
                    0
                };
                let b = if by_buffer > u32::MAX {
                    u32::MAX as int
                } else {
                    by_buffer as int
                };
                r == (if b < self.max_frame_size {
                    b
                } else {
                    self.max_frame_size as int
                })
            }),
    {
        let by_buffer: usize = if self.max_buffered_bytes >= 9 {
            self.max_buffered_bytes - 9
        } else {
            0
        };
        let b: u32 = if by_buffer as u64 > 4294967295u64 {
            u32::MAX
        } else {
            by_buffer as u32
        };
        if b < self.max_frame_size {
            b
        } else {
            self.max_frame_size
        }
    }
}

impl Default for Http2Config {
    fn default() -> (c: Self)
        ensures
            c.max_frame_size == 1048576,
            c.max_header_block_bytes == 65536,
            c.max_hpack_table_bytes == 65536,
            c.max_concurrent_streams == 256,
            c.max_buffered_bytes == 1048576,
    {
        Http2Config {
            max_frame_size: 1048576,
            max_header_block_bytes: 65536,
            max_hpack_table_bytes: 65536,
            max_concurrent_streams: 256,
            max_buffered_bytes: 1048576,
        }
    }
}


/// The 24-octet client connection preface (RFC 9113 §3.4).
pub const PREFACE: [u8; 24] = [
    80u8, 82, 73, 32, 42, 32, 72, 84, 84, 80, 47, 50, 46, 48, 13, 10, 13, 10, 83, 77, 13, 10, 13, 10,
];

/// The preface as bytes.
pub open spec fn preface_bytes() -> Seq<u8> {
    seq![80u8, 82, 73, 32, 42, 32, 72, 84, 84, 80, 47, 50, 46, 48, 13, 10, 13, 10, 83, 77, 13, 10, 13, 10]
}

/// One step of progress on an HTTP/2 connection.
#[derive(Debug, Clone)]
pub enum Http2Event {
    /// A complete field block: request or response headers.
    Head(StreamHead),
    /// `DATA` payload for a stream; not retained by the parser.
    Body { stream_id: u32, dir: FlowSide, data: Vec<u8> },
    /// A field block after the head: trailers.
    Trailers { stream_id: u32, dir: FlowSide, fields: Vec<(Vec<u8>, Vec<u8>)> },
    /// The stream is complete in this direction.
    End { stream_id: u32, dir: FlowSide },
    /// The stream was cancelled (`RST_STREAM`).
    StreamReset { stream_id: u32, error_code: u32 },
    /// The peer is winding the connection down (`GOAWAY`).
    GoAway { last_stream_id: u32, error_code: u32 },
}

#[derive(Debug, Clone)]
struct PartialBlock {
    /// The stream the `CONTINUATION` frames must arrive on.
    continuation_stream: u32,
    /// The stream the block describes (the promised one, for a push).
    describes_stream: u32,
    bytes: Vec<u8>,
    end_stream: bool,
}

#[derive(Debug, Clone)]
struct H2Dir {
    buf: Vec<u8>,
    hpack: HpackDecoder,
    partial: Option<PartialBlock>,
    max_frame_size: u32,
    preface_seen: bool,
    done: bool,
}

/// The field-block bytes an open block holds.
spec fn partial_len(p: Option<PartialBlock>) -> nat {
    match p {
        Some(b) => b.bytes@.len(),
        None => 0,
    }
}

spec fn dir_ok(d: H2Dir, cfg: Http2Config) -> bool {
    &&& d.hpack.wf()
    &&& d.buf@.len() <= cfg.max_buffered_bytes
    &&& partial_len(d.partial) <= cfg.max_header_block_bytes
}

/// An event as plain values.
pub open spec fn event_view(e: Http2Event) -> EventView {
    match e {
        Http2Event::Head(h) => EventView::Head {
            stream_id: h.stream_id,
            dir: h.dir,
            fields: h.fields.deep_view(),
            end_stream: h.end_stream,
        },
        Http2Event::Body { stream_id, dir, data } => EventView::Body { stream_id, dir, data: data@ },
        Http2Event::Trailers { stream_id, dir, fields } => EventView::Trailers {
            stream_id,
            dir,
            fields: fields.deep_view(),
        },
        Http2Event::End { stream_id, dir } => EventView::End { stream_id, dir },
        Http2Event::StreamReset { stream_id, error_code } => EventView::StreamReset { stream_id, error_code },
        Http2Event::GoAway { last_stream_id, error_code } => EventView::GoAway { last_stream_id, error_code },
    }
}

/// Events as plain values.
pub open spec fn events_view(es: Seq<Http2Event>) -> Seq<EventView> {
    es.map_values(|e: Http2Event| event_view(e))
}

spec fn block_view(p: Option<PartialBlock>) -> Option<BlockView> {
    match p {
        Some(b) => Some(
            BlockView {
                continuation_stream: b.continuation_stream,
                describes_stream: b.describes_stream,
                bytes: b.bytes@,
                end_stream: b.end_stream,
            },
        ),
        None => None,
    }
}

spec fn dir_view(d: H2Dir) -> DirView {
    DirView {
        buf: d.buf@,
        table: d.hpack@,
        partial: block_view(d.partial),
        max_frame_size: d.max_frame_size,
        preface_seen: d.preface_seen,
        done: d.done,
    }
}

/// An HTTP/2 parser for one connection, both directions.
#[derive(Debug, Clone)]
pub struct Http2Parser {
    config: Http2Config,
    request: H2Dir,
    response: H2Dir,
    streams: HashMap<u32, StreamState>,
    events: VecDeque<Http2Event>,
    error: Option<Http2Error>,
}

fn new_dir(cfg: &Http2Config) -> (d: H2Dir)
    ensures
        dir_ok(d, *cfg),
        d.buf@.len() == 0,
        !d.done,
        !d.preface_seen,
        d.partial is None,
{
    H2Dir {
        buf: Vec::new(),
        hpack: HpackDecoder::new(4096, cfg.max_hpack_table_bytes),
        partial: None,
        max_frame_size: cfg.effective_max_frame_size(),
        preface_seen: false,
        done: false,
    }
}

/// The bytes seen so far agree with the preface.
fn preface_prefix_ok(buf: &[u8]) -> (r: bool)
    ensures
        r == (forall|i: int| 0 <= i < buf@.len() && i < 24 ==> buf@[i] == preface_bytes()[i]),
{
    let pre = PREFACE;
    assert(pre@ == preface_bytes());
    let n = if buf.len() < 24 {
        buf.len()
    } else {
        24
    };
    let mut i: usize = 0;
    while i < n
        invariant
            i <= n <= 24,
            n <= buf@.len(),
            n == (if buf@.len() < 24 { buf@.len() as int } else { 24 }),
            pre@ == preface_bytes(),
            forall|j: int| 0 <= j < i ==> buf@[j] == preface_bytes()[j],
        decreases n - i,
    {
        if buf[i] != pre[i] {
            return false;
        }
        i += 1;
    }
    true
}

fn read_be32(p: &[u8], i: usize) -> (r: u32)
    requires
        i + 4 <= p@.len(),
    ensures
        r == super::frame::be32(p@, i as int),
{
    assert(p@.len() == p.len());
    (p[i] as u32) * 16777216 + (p[i + 1] as u32) * 65536 + (p[i + 2] as u32) * 256 + (p[i + 3] as u32)
}

impl Http2Parser {
    /// The parser's invariant: each direction's buffer, open field block
    /// and HPACK table within their caps, the tracked streams within
    /// theirs, and a failed connection holding nothing.
    pub closed spec fn wf(&self) -> bool {
        &&& dir_ok(self.request, self.config)
        &&& dir_ok(self.response, self.config)
        &&& self.streams@.dom().finite()
        &&& self.streams@.dom().len() <= self.config.max_concurrent_streams
        &&& self.error is Some ==> {
            &&& self.request.done
            &&& self.response.done
            &&& self.request.buf@.len() == 0
            &&& self.response.buf@.len() == 0
            &&& self.streams@.dom().len() == 0
        }
    }

    /// The whole connection as plain values.
    pub closed spec fn view_spec(&self) -> ConnView {
        ConnView {
            config: self.config,
            request: dir_view(self.request),
            response: dir_view(self.response),
            streams: self.streams@,
            events: events_view(self.events@),
            error: self.error,
        }
    }

    /// The configuration.
    pub closed spec fn config_spec(&self) -> Http2Config {
        self.config
    }

    /// Why the connection failed, if it did.
    pub closed spec fn error_spec(&self) -> Option<Http2Error> {
        self.error
    }

    /// The events not yet taken, oldest first.
    pub closed spec fn events_spec(&self) -> Seq<Http2Event> {
        self.events@
    }

    /// Bytes buffered on one side.
    pub closed spec fn buffered_spec(&self, dir: FlowSide) -> nat {
        match dir {
            FlowSide::Initiator => self.request.buf@.len(),
            FlowSide::Responder => self.response.buf@.len(),
        }
    }

    /// One side's buffer holds nothing more to parse: on the initiator
    /// before the preface, fewer than its 24 bytes, all matching it;
    /// otherwise no complete frame.
    spec fn idle(&self, dir: FlowSide) -> bool {
        match dir {
            FlowSide::Initiator => if !self.request.preface_seen {
                &&& self.request.buf@.len() < 24
                &&& forall|i: int| 0 <= i < self.request.buf@.len() ==> self.request.buf@[i]
                    == preface_bytes()[i]
            } else {
                parse_frame_spec(self.request.buf@, self.request.max_frame_size) == Ok::<Option<FrameView>, Http2Error>(None)
            },
            FlowSide::Responder => parse_frame_spec(self.response.buf@, self.response.max_frame_size)
                == Ok::<Option<FrameView>, Http2Error>(None),
        }
    }

    /// One side will take no more bytes.
    pub closed spec fn done_spec(&self, dir: FlowSide) -> bool {
        match dir {
            FlowSide::Initiator => self.request.done,
            FlowSide::Responder => self.response.done,
        }
    }

    /// The number of streams tracked.
    pub closed spec fn streams_spec(&self) -> nat {
        self.streams@.dom().len()
    }

    /// `new` is `self` with more events queued and nothing else about
    /// the connection's limits or failure changed.
    spec fn steady(&self, new: &Self) -> bool {
        &&& new.wf()
        &&& new.config == self.config
        &&& new.error == self.error
        &&& new.request.done == self.request.done
        &&& new.response.done == self.response.done
        &&& new.events@.len() >= self.events@.len()
        &&& new.events@.take(self.events@.len() as int) == self.events@
    }

    /// A parser with the default caps.
    pub fn new() -> (p: Self)
        ensures
            p.wf(),
            p.error_spec() is None,
            p.events_spec().len() == 0,
            p.streams_spec() == 0,
            p.config_spec().max_frame_size == 1048576,
            p.config_spec().max_buffered_bytes == 1048576,
            p.config_spec().max_concurrent_streams == 256,
    {
        Http2Parser::with_config(Http2Config::default())
    }

    /// A parser with the given caps.
    pub fn with_config(config: Http2Config) -> (p: Self)
        ensures
            p.wf(),
            p.error_spec() is None,
            p.events_spec().len() == 0,
            p.streams_spec() == 0,
            p.buffered_spec(FlowSide::Initiator) == 0,
            p.buffered_spec(FlowSide::Responder) == 0,
            !p.done_spec(FlowSide::Initiator),
            !p.done_spec(FlowSide::Responder),
            p.config_spec() == config,
    {
        let p = Http2Parser {
            request: new_dir(&config),
            response: new_dir(&config),
            config,
            streams: HashMap::new(),
            events: VecDeque::new(),
            error: None,
        };
        assert(p.streams@.dom() =~= Set::<u32>::empty());
        p
    }

    /// Whether the connection failed.
    pub fn is_failed(&self) -> (r: bool)
        ensures
            r == self.error_spec() is Some,
    {
        self.error.is_some()
    }

    /// Why the connection failed, if it did.
    pub fn error(&self) -> (r: Option<Http2Error>)
        ensures
            r == self.error_spec(),
    {
        self.error
    }

    /// Bytes buffered but not yet framed on one side.
    pub fn buffered(&self, dir: FlowSide) -> (r: usize)
        ensures
            r == self.buffered_spec(dir),
    {
        match dir {
            FlowSide::Initiator => self.request.buf.len(),
            FlowSide::Responder => self.response.buf.len(),
        }
    }

    /// The number of streams tracked.
    pub fn tracked_streams(&self) -> (r: usize)
        requires
            self.wf(),
        ensures
            r == self.streams_spec(),
    {
        self.streams.len()
    }

    /// Take the oldest queued event.
    pub fn next_event(&mut self) -> (r: Option<Http2Event>)
        ensures
            final(self).wf() == old(self).wf(),
            final(self).config_spec() == old(self).config_spec(),
            final(self).error_spec() == old(self).error_spec(),
            final(self).streams_spec() == old(self).streams_spec(),
            old(self).events_spec().len() == 0 ==> r is None && final(self).events_spec().len() == 0,
            old(self).events_spec().len() > 0 ==> r == Some(old(self).events_spec()[0])
                && final(self).events_spec() == old(self).events_spec().drop_first(),
            forall|d: FlowSide| final(self).buffered_spec(d) == old(self).buffered_spec(d)
                && final(self).done_spec(d) == old(self).done_spec(d),
    {
        self.events.pop_front()
    }

    /// Give up on the connection: nothing further can be trusted once
    /// the shared HPACK state or the framing is in doubt. The first
    /// failure is the one reported.
    fn fail(&mut self, e: Http2Error)
        requires
            old(self).wf(),
        ensures
            final(self).wf(),
            final(self).config == old(self).config,
            final(self).error == (match old(self).error {
                Some(x) => Some(x),
                None => Some(e),
            }),
            final(self).request.done && final(self).response.done,
            final(self).events@ == old(self).events@,
            final(self).view_spec() == fail_model(old(self).view_spec(), e),
    {
        if self.error.is_none() {
            self.error = Some(e);
        }
        self.request.done = true;
        self.response.done = true;
        self.request.buf = Vec::new();
        self.response.buf = Vec::new();
        self.streams.clear();
        assert(self.streams@.dom() =~= Set::<u32>::empty());
    }

    fn push_event(&mut self, ev: Http2Event)
        requires
            old(self).wf(),
        ensures
            old(self).steady(final(self)),
            final(self).events@ == old(self).events@.push(ev),
            final(self).request == old(self).request,
            final(self).response == old(self).response,
            final(self).streams@ == old(self).streams@,
            final(self).view_spec() == with_event(old(self).view_spec(), event_view(ev)),
    {
        self.events.push_back(ev);
        assert(events_view(self.events@) =~= events_view(old(self).events@).push(event_view(ev)));
        assert(self.events@.take(old(self).events@.len() as int) =~= old(self).events@);
    }

    fn finish_stream(&mut self, stream_id: u32, dir: FlowSide)
        requires
            old(self).wf(),
        ensures
            old(self).steady(final(self)),
            final(self).request == old(self).request,
            final(self).response == old(self).response,
            final(self).events@ == old(self).events@.push(Http2Event::End { stream_id, dir }),
            final(self).view_spec() == finish_model(old(self).view_spec(), stream_id, dir),
    {
        self.push_event(Http2Event::End { stream_id, dir });
        match dir {
            FlowSide::Responder => {
                let ghost before = self.streams@;
                self.streams.remove(&stream_id);
                proof {
                    assert(self.streams@.dom() =~= before.dom().remove(stream_id));
                    vstd::set_lib::lemma_len_subset(self.streams@.dom(), before.dom());
                }
            },
            FlowSide::Initiator => {},
        }
    }

    #[verifier::rlimit(30)]
    fn complete_block(&mut self, dir: FlowSide, stream_id: u32, block: &[u8], end_stream: bool) -> (r: Result<(), Http2Error>)
        requires
            old(self).wf(),
            old(self).error is None,
        ensures
            old(self).steady(final(self)),
            final(self).request.buf == old(self).request.buf,
            final(self).response.buf == old(self).response.buf,
            final(self).request.partial == old(self).request.partial,
            final(self).response.partial == old(self).response.partial,
            final(self).request.max_frame_size == old(self).request.max_frame_size,
            final(self).response.max_frame_size == old(self).response.max_frame_size,
            final(self).request.preface_seen == old(self).request.preface_seen,
            final(self).response.preface_seen == old(self).response.preface_seen,
            (final(self).view_spec(), r) == complete_model(old(self).view_spec(), dir, stream_id, block@, end_stream),
    {
        let decoded = match dir {
            FlowSide::Initiator => self.request.hpack.decode(block),
            FlowSide::Responder => self.response.hpack.decode(block),
        };
        assert(self.events@.take(old(self).events@.len() as int) =~= old(self).events@);
        let fields = match decoded {
            Ok(f) => f,
            Err(e) => {
                return Err(e);
            },
        };
        let known = self.streams.contains_key(&stream_id);
        if !known && self.streams.len() >= self.config.max_concurrent_streams {
            return Err(Http2Error::TooManyStreams);
        }
        let mut state = match self.streams.get(&stream_id) {
            Some(s) => *s,
            None => StreamState { head_seen_request: false, head_seen_response: false },
        };
        let is_trailers = match dir {
            FlowSide::Initiator => {
                let seen = state.head_seen_request;
                state.head_seen_request = true;
                seen
            },
            FlowSide::Responder => {
                let seen = state.head_seen_response;
                state.head_seen_response = true;
                seen
            },
        };
        let ghost before = self.streams@;
        let ghost e0 = self.events@;
        self.streams.insert(stream_id, state);
        proof {
            assert(self.streams@.dom() =~= before.dom().insert(stream_id));
            if known {
                assert(before.dom().insert(stream_id) =~= before.dom());
            } else {
                assert(before.dom().len() < self.config.max_concurrent_streams);
            }
            assert(self.streams@.dom().len() <= self.config.max_concurrent_streams);
            assert(self.wf());
        }
        if is_trailers {
            self.push_event(Http2Event::Trailers { stream_id, dir, fields });
        } else {
            self.push_event(Http2Event::Head(StreamHead { stream_id, dir, fields, end_stream }));
        }
        let ghost e1 = self.events@;
        if end_stream {
            self.finish_stream(stream_id, dir);
        }
        assert(self.events@.take(e0.len() as int) =~= e0) by {
            assert(self.events@.take(e1.len() as int) == e1);
            assert(e1.take(e0.len() as int) == e0);
        }
        Ok(())
    }
}

impl Http2Parser {
    /// Whether the bytes after `old` in the events queue were only
    /// appended, and the dirs' buffers and preface state untouched.
    spec fn frame_step(&self, new: &Self) -> bool {
        &&& self.steady(new)
        &&& new.request.buf == self.request.buf
        &&& new.response.buf == self.response.buf
        &&& new.request.preface_seen == self.request.preface_seen
        &&& new.response.preface_seen == self.response.preface_seen
    }

    fn begin_block(&mut self, dir: FlowSide, f: Frame) -> (r: Result<(), Http2Error>)
        requires
            old(self).wf(),
            old(self).error is None,
        ensures
            old(self).frame_step(final(self)),
            (final(self).view_spec(), r) == begin_model(
                old(self).view_spec(),
                dir,
                f.flags,
                f.stream_id,
                f.payload@,
                f.promised_stream_id,
            ),
    {
        if f.payload.len() > self.config.max_header_block_bytes {
            assert(self.events@.take(old(self).events@.len() as int) =~= old(self).events@);
            return Err(Http2Error::HeaderListTooLong);
        }
        let describes_stream = match f.promised_stream_id {
            Some(p) => p,
            None => f.stream_id,
        };
        let end_stream = f.promised_stream_id.is_none() && f.has(END_STREAM);
        if f.has(END_HEADERS) {
            self.complete_block(dir, describes_stream, f.payload.as_slice(), end_stream)
        } else {
            let block = PartialBlock {
                continuation_stream: f.stream_id,
                describes_stream,
                bytes: f.payload,
                end_stream,
            };
            match dir {
                FlowSide::Initiator => {
                    self.request.partial = Some(block);
                },
                FlowSide::Responder => {
                    self.response.partial = Some(block);
                },
            }
            assert(self.events@.take(old(self).events@.len() as int) =~= old(self).events@);
            Ok(())
        }
    }

    fn continue_block(&mut self, dir: FlowSide, f: Frame) -> (r: Result<(), Http2Error>)
        requires
            old(self).wf(),
            old(self).error is None,
        ensures
            old(self).frame_step(final(self)),
            (final(self).view_spec(), r) == continue_model(old(self).view_spec(), dir, f.flags, f.payload@),
    {
        assert(self.events@.take(old(self).events@.len() as int) =~= old(self).events@);
        let cap = self.config.max_header_block_bytes;
        let taken = match dir {
            FlowSide::Initiator => self.request.partial.take(),
            FlowSide::Responder => self.response.partial.take(),
        };
        let mut partial = match taken {
            Some(p) => p,
            None => {
                return Err(Http2Error::UnexpectedContinuation);
            },
        };
        if f.payload.len() > cap || partial.bytes.len() > cap - f.payload.len() {
            match dir {
                FlowSide::Initiator => {
                    self.request.partial = Some(partial);
                },
                FlowSide::Responder => {
                    self.response.partial = Some(partial);
                },
            }
            return Err(Http2Error::HeaderListTooLong);
        }
        partial.bytes.extend_from_slice(f.payload.as_slice());
        if !f.has(END_HEADERS) {
            match dir {
                FlowSide::Initiator => {
                    self.request.partial = Some(partial);
                },
                FlowSide::Responder => {
                    self.response.partial = Some(partial);
                },
            }
            return Ok(());
        }
        proof {
            let c0 = old(self).view_spec();
            let d = dir_at(c0, dir);
            assert(self.view_spec() =~= with_dir(c0, dir, DirView { partial: None, ..d }));
            assert(partial.bytes@ =~= d.partial->0.bytes + f.payload@);
        }
        self.complete_block(dir, partial.describes_stream, partial.bytes.as_slice(), partial.end_stream)
    }

    fn apply_settings(&mut self, dir: FlowSide, payload: &[u8]) -> (r: Result<(), Http2Error>)
        requires
            old(self).wf(),
            old(self).error is None,
        ensures
            old(self).frame_step(final(self)),
            final(self).events@ == old(self).events@,
            (final(self).view_spec(), r) == settings_model(old(self).view_spec(), dir, payload@),
    {
        assert(self.events@.take(old(self).events@.len() as int) =~= old(self).events@);
        let s = match parse_settings(payload) {
            Ok(s) => s,
            Err(e) => {
                return Err(e);
            },
        };
        let hard = self.config.max_hpack_table_bytes;
        let ceiling = self.config.effective_max_frame_size();
        match s.header_table_size {
            Some(n) => {
                let m = if (n as usize) < hard {
                    n as usize
                } else {
                    hard
                };
                match dir {
                    FlowSide::Initiator => self.response.hpack.set_max_size(m),
                    FlowSide::Responder => self.request.hpack.set_max_size(m),
                }
            },
            None => {},
        }
        match s.max_frame_size {
            Some(n) => {
                let m = if n < ceiling {
                    n
                } else {
                    ceiling
                };
                match dir {
                    FlowSide::Initiator => {
                        self.response.max_frame_size = m;
                    },
                    FlowSide::Responder => {
                        self.request.max_frame_size = m;
                    },
                }
            },
            None => {},
        }
        Ok(())
    }

    fn handle_frame(&mut self, dir: FlowSide, f: Frame) -> (r: Result<(), Http2Error>)
        requires
            old(self).wf(),
            old(self).error is None,
        ensures
            old(self).frame_step(final(self)),
            (final(self).view_spec(), r) == frame_model(
                old(self).view_spec(),
                dir,
                f.kind,
                f.flags,
                f.stream_id,
                f.payload@,
                f.promised_stream_id,
            ),
    {
        assert(self.events@.take(old(self).events@.len() as int) =~= old(self).events@);
        let open = match dir {
            FlowSide::Initiator => match &self.request.partial {
                Some(p) => Some(p.continuation_stream),
                None => None,
            },
            FlowSide::Responder => match &self.response.partial {
                Some(p) => Some(p.continuation_stream),
                None => None,
            },
        };
        let is_continuation = match f.kind {
            FrameKind::Continuation => true,
            _ => false,
        };
        match open {
            Some(id) => {
                if !is_continuation || f.stream_id != id {
                    return Err(Http2Error::InterleavedContinuation);
                }
            },
            None => {},
        }
        match f.kind {
            FrameKind::Headers | FrameKind::PushPromise => self.begin_block(dir, f),
            FrameKind::Continuation => {
                if open.is_none() {
                    return Err(Http2Error::UnexpectedContinuation);
                }
                self.continue_block(dir, f)
            },
            FrameKind::Data => {
                let end = f.has(END_STREAM);
                let stream_id = f.stream_id;
                if f.payload.len() > 0 {
                    self.push_event(Http2Event::Body { stream_id, dir, data: f.payload });
                }
                let ghost e1 = self.events@;
                if end {
                    self.finish_stream(stream_id, dir);
                }
                assert(self.events@.take(old(self).events@.len() as int) =~= old(self).events@) by {
                    assert(self.events@.take(e1.len() as int) == e1);
                    assert(e1.take(old(self).events@.len() as int) == old(self).events@);
                }
                Ok(())
            },
            FrameKind::Settings => {
                if !f.has(ACK) {
                    self.apply_settings(dir, f.payload.as_slice())
                } else {
                    Ok(())
                }
            },
            FrameKind::RstStream => {
                if f.payload.len() < 4 {
                    return Err(Http2Error::MalformedFrame);
                }
                let code = read_be32(f.payload.as_slice(), 0);
                let ghost before = self.streams@;
                self.streams.remove(&f.stream_id);
                proof {
                    assert(self.streams@.dom() =~= before.dom().remove(f.stream_id));
                    vstd::set_lib::lemma_len_subset(self.streams@.dom(), before.dom());
                }
                self.push_event(Http2Event::StreamReset { stream_id: f.stream_id, error_code: code });
                Ok(())
            },
            FrameKind::GoAway => {
                if f.payload.len() < 8 {
                    return Err(Http2Error::MalformedFrame);
                }
                let last = read_be32(f.payload.as_slice(), 0) & 0x7fff_ffff;
                let code = read_be32(f.payload.as_slice(), 4);
                self.push_event(Http2Event::GoAway { last_stream_id: last, error_code: code });
                Ok(())
            },
            FrameKind::WindowUpdate | FrameKind::Priority | FrameKind::Ping | FrameKind::Unknown(_) => Ok(()),
        }
    }
}

impl Http2Parser {
    proof fn lemma_steady_trans(a: &Self, b: &Self, c: &Self)
        requires
            a.steady(b),
            b.steady(c),
        ensures
            a.steady(c),
    {
        assert(c.events@.take(a.events@.len() as int) =~= b.events@.take(a.events@.len() as int));
    }

    fn drive_inner(&mut self, dir: FlowSide) -> (r: Result<(), Http2Error>)
        requires
            old(self).wf(),
            old(self).error is None,
        ensures
            old(self).steady(final(self)),
            r is Ok ==> final(self).idle(dir),
            (final(self).view_spec(), r) == drive_steps(old(self).view_spec(), dir),
    {
        assert(self.events@.take(old(self).events@.len() as int) =~= old(self).events@);
        let ghost goal = drive_steps(old(self).view_spec(), dir);
        let is_init = match dir {
            FlowSide::Initiator => true,
            FlowSide::Responder => false,
        };
        if is_init && !self.request.preface_seen {
            if !preface_prefix_ok(self.request.buf.as_slice()) {
                return Err(Http2Error::BadPreface);
            }
            let len = self.request.buf.len();
            if len < 24 {
                return Ok(());
            }
            let rest = copy_bytes(&self.request.buf.as_slice()[24..len]);
            self.request.buf = rest;
            self.request.preface_seen = true;
            proof {
                let c0 = old(self).view_spec();
                assert(self.view_spec() =~= with_dir(
                    c0,
                    dir,
                    DirView { buf: c0.request.buf.skip(24), preface_seen: true, ..c0.request },
                ));
            }
        }
        loop
            invariant
                self.wf(),
                self.error is None,
                old(self).steady(self),
                dir == FlowSide::Initiator ==> self.request.preface_seen,
                goal == drive_steps(old(self).view_spec(), dir),
                goal == drive_frames(self.view_spec(), dir, dir_at(self.view_spec(), dir).buf),
            decreases self.buffered_spec(dir),
        {
            let ghost c = self.view_spec();
            let max = match dir {
                FlowSide::Initiator => self.request.max_frame_size,
                FlowSide::Responder => self.response.max_frame_size,
            };
            let parsed = match dir {
                FlowSide::Initiator => parse_frame(self.request.buf.as_slice(), max),
                FlowSide::Responder => parse_frame(self.response.buf.as_slice(), max),
            };
            let (f, used) = match parsed {
                Err(e) => {
                    return Err(e);
                },
                Ok(None) => {
                    return Ok(());
                },
                Ok(Some(p)) => p,
            };
            match dir {
                FlowSide::Initiator => {
                    let len = self.request.buf.len();
                    let rest = copy_bytes(&self.request.buf.as_slice()[used..len]);
                    self.request.buf = rest;
                },
                FlowSide::Responder => {
                    let len = self.response.buf.len();
                    let rest = copy_bytes(&self.response.buf.as_slice()[used..len]);
                    self.response.buf = rest;
                },
            }
            let ghost mid = *self;
            proof {
                assert(self.events@.take(self.events@.len() as int) =~= self.events@);
                let buf = dir_at(c, dir).buf;
                assert(used > 0);
                assert(self.view_spec() =~= with_buf(c, dir, buf.skip(used as int)));
            }
            match self.handle_frame(dir, f) {
                Err(e) => {
                    proof {
                        Self::lemma_steady_trans(old(self), &mid, self);
                    }
                    return Err(e);
                },
                Ok(()) => {},
            }
            proof {
                Self::lemma_steady_trans(old(self), &mid, self);
            }
        }
    }

    fn drive(&mut self, dir: FlowSide)
        requires
            old(self).wf(),
            old(self).error is None,
        ensures
            final(self).wf(),
            final(self).config == old(self).config,
            final(self).events@.len() >= old(self).events@.len(),
            final(self).events@.take(old(self).events@.len() as int) == old(self).events@,
            final(self).error is None ==> final(self).idle(dir),
            final(self).error is Some ==> final(self).request.done && final(self).response.done,
            final(self).view_spec() == drive_model(old(self).view_spec(), dir),
    {
        match self.drive_inner(dir) {
            Ok(()) => {},
            Err(e) => self.fail(e),
        }
    }

    /// Offer bytes from one side; returns how many were taken. Nothing
    /// is taken once the connection failed or the side is done, and
    /// never more than the room left under the buffering cap. A side
    /// whose buffer is full and unparsable fails the connection with
    /// `BufferOverflow` rather than stalling in silence. Events are
    /// only ever appended; the first failure is kept.
    pub fn push(&mut self, dir: FlowSide, data: &[u8]) -> (n: usize)
        requires
            old(self).wf(),
        ensures
            final(self).wf(),
            final(self).config_spec() == old(self).config_spec(),
            final(self).events_spec().len() >= old(self).events_spec().len(),
            final(self).events_spec().take(old(self).events_spec().len() as int) == old(self).events_spec(),
            old(self).error_spec() is Some ==> final(self).error_spec() == old(self).error_spec(),
            (old(self).error_spec() is Some || old(self).done_spec(dir)) ==> n == 0
                && final(self).events_spec() == old(self).events_spec()
                && final(self).buffered_spec(dir) == old(self).buffered_spec(dir),
            ({
                let room = if old(self).config_spec().max_buffered_bytes > old(self).buffered_spec(dir) {
                    old(self).config_spec().max_buffered_bytes - old(self).buffered_spec(dir)
                } else {
                    0
                };
                (old(self).error_spec() is None && !old(self).done_spec(dir)) ==> {
                    &&& room == 0 ==> n == 0 && final(self).error_spec() == Some(Http2Error::BufferOverflow)
                    &&& room > 0 ==> n == (if room < data@.len() {
                        room
                    } else {
                        data@.len() as int
                    })
                }
            }),
            (final(self).view_spec(), n as int) == push_model(old(self).view_spec(), dir, data@),
    {
        let done = match dir {
            FlowSide::Initiator => self.request.done,
            FlowSide::Responder => self.response.done,
        };
        if self.error.is_some() || done {
            return 0;
        }
        let buffered = match dir {
            FlowSide::Initiator => self.request.buf.len(),
            FlowSide::Responder => self.response.buf.len(),
        };
        let room = if self.config.max_buffered_bytes > buffered {
            self.config.max_buffered_bytes - buffered
        } else {
            0
        };
        if room == 0 {
            self.fail(Http2Error::BufferOverflow);
            assert(self.events@.take(old(self).events@.len() as int) =~= old(self).events@);
            return 0;
        }
        let take = if room < data.len() {
            room
        } else {
            data.len()
        };
        let part = &data[0..take];
        match dir {
            FlowSide::Initiator => self.request.buf.extend_from_slice(part),
            FlowSide::Responder => self.response.buf.extend_from_slice(part),
        }
        proof {
            let c0 = old(self).view_spec();
            assert(part@ =~= data@.take(take as int));
            assert(self.view_spec() =~= with_buf(c0, dir, dir_at(c0, dir).buf + data@.take(take as int)));
        }
        self.drive(dir);
        take
    }
}

} // verus!
