//! What an HTTP/2 connection parser does, as plain values: the state of
//! each direction, the tracked streams, the queued events and the
//! failure, and how a frame, a run of buffered bytes and a push change
//! them.

use vstd::prelude::*;

use super::error::Http2Error;
use super::frame::{be32, parse_frame_spec, settings_of, FrameKind, ACK, END_HEADERS, END_STREAM};
use super::hpack::{decode_block_spec, set_max_spec, FieldView, TableView};
use super::stream::{preface_bytes, Http2Config};
use crate::event::FlowSide;

verus! {

/// Which heads a stream has shown, per direction.
#[derive(Debug, Clone, Copy, Default)]
pub struct StreamState {
    pub head_seen_request: bool,
    pub head_seen_response: bool,
}

/// An event, as plain values.
pub enum EventView {
    Head { stream_id: u32, dir: FlowSide, fields: Seq<FieldView>, end_stream: bool },
    Body { stream_id: u32, dir: FlowSide, data: Seq<u8> },
    Trailers { stream_id: u32, dir: FlowSide, fields: Seq<FieldView> },
    End { stream_id: u32, dir: FlowSide },
    StreamReset { stream_id: u32, error_code: u32 },
    GoAway { last_stream_id: u32, error_code: u32 },
}

/// A field block whose `CONTINUATION` frames are still to come.
#[verifier::ext_equal]
pub struct BlockView {
    pub continuation_stream: u32,
    pub describes_stream: u32,
    pub bytes: Seq<u8>,
    pub end_stream: bool,
}

/// One direction: its unframed bytes, HPACK table, open field block,
/// frame-size cap, whether the preface was seen, and whether it takes
/// no more bytes.
#[verifier::ext_equal]
pub struct DirView {
    pub buf: Seq<u8>,
    pub table: TableView,
    pub partial: Option<BlockView>,
    pub max_frame_size: u32,
    pub preface_seen: bool,
    pub done: bool,
}

/// A whole connection.
#[verifier::ext_equal]
pub struct ConnView {
    pub config: Http2Config,
    pub request: DirView,
    pub response: DirView,
    pub streams: Map<u32, StreamState>,
    pub events: Seq<EventView>,
    pub error: Option<Http2Error>,
}

/// The state of one direction.
pub open spec fn dir_at(c: ConnView, dir: FlowSide) -> DirView {
    match dir {
        FlowSide::Initiator => c.request,
        FlowSide::Responder => c.response,
    }
}

/// The connection with one direction replaced.
pub open spec fn with_dir(c: ConnView, dir: FlowSide, d: DirView) -> ConnView {
    match dir {
        FlowSide::Initiator => ConnView { request: d, ..c },
        FlowSide::Responder => ConnView { response: d, ..c },
    }
}

/// The other direction.
pub open spec fn opposite(dir: FlowSide) -> FlowSide {
    match dir {
        FlowSide::Initiator => FlowSide::Responder,
        FlowSide::Responder => FlowSide::Initiator,
    }
}

/// An event queued.
pub open spec fn with_event(c: ConnView, e: EventView) -> ConnView {
    ConnView { events: c.events.push(e), ..c }
}

/// The end of a stream in one direction; the responder's end stops
/// tracking the stream.
pub open spec fn finish_model(c: ConnView, stream_id: u32, dir: FlowSide) -> ConnView {
    let c1 = with_event(c, EventView::End { stream_id, dir });
    match dir {
        FlowSide::Responder => ConnView { streams: c1.streams.remove(stream_id), ..c1 },
        FlowSide::Initiator => c1,
    }
}

/// A complete field block for a stream: decoded with the direction's
/// table (which keeps what the decoding did to it even on failure);
/// a new stream beyond the cap is refused; the first block of a stream
/// in a direction is its head, later ones are trailers; `END_STREAM`
/// ends the stream.
pub open spec fn complete_model(c: ConnView, dir: FlowSide, stream_id: u32, block: Seq<u8>, end_stream: bool) -> (ConnView, Result<(), Http2Error>) {
    let d = dir_at(c, dir);
    let (t, res) = decode_block_spec(d.table, block, 0);
    let c1 = with_dir(c, dir, DirView { table: t, ..d });
    match res {
        Err(e) => (c1, Err(e)),
        Ok(fields) => {
            let known = c.streams.contains_key(stream_id);
            if !known && c.streams.dom().len() >= c.config.max_concurrent_streams {
                (c1, Err(Http2Error::TooManyStreams))
            } else {
                let st0 = if known {
                    c.streams[stream_id]
                } else {
                    StreamState { head_seen_request: false, head_seen_response: false }
                };
                let is_trailers = match dir {
                    FlowSide::Initiator => st0.head_seen_request,
                    FlowSide::Responder => st0.head_seen_response,
                };
                let st1 = match dir {
                    FlowSide::Initiator => StreamState { head_seen_request: true, ..st0 },
                    FlowSide::Responder => StreamState { head_seen_response: true, ..st0 },
                };
                let ev = if is_trailers {
                    EventView::Trailers { stream_id, dir, fields }
                } else {
                    EventView::Head { stream_id, dir, fields, end_stream }
                };
                let c2 = with_event(ConnView { streams: c1.streams.insert(stream_id, st1), ..c1 }, ev);
                if end_stream {
                    (finish_model(c2, stream_id, dir), Ok(()))
                } else {
                    (c2, Ok(()))
                }
            }
        },
    }
}

/// A `HEADERS` or `PUSH_PROMISE` frame: refused past the block cap;
/// with `END_HEADERS` a complete block (for the promised stream, and
/// never ending it, on a push), else an open block.
pub open spec fn begin_model(c: ConnView, dir: FlowSide, flags: u8, stream_id: u32, payload: Seq<u8>, promised: Option<u32>) -> (ConnView, Result<(), Http2Error>) {
    if payload.len() > c.config.max_header_block_bytes {
        (c, Err(Http2Error::HeaderListTooLong))
    } else {
        let describes = match promised {
            Some(p) => p,
            None => stream_id,
        };
        let end_stream = promised is None && flags & END_STREAM != 0;
        if flags & END_HEADERS != 0 {
            complete_model(c, dir, describes, payload, end_stream)
        } else {
            let d = dir_at(c, dir);
            (
                with_dir(
                    c,
                    dir,
                    DirView {
                        partial: Some(
                            BlockView {
                                continuation_stream: stream_id,
                                describes_stream: describes,
                                bytes: payload,
                                end_stream,
                            },
                        ),
                        ..d
                    },
                ),
                Ok(()),
            )
        }
    }
}

/// A `CONTINUATION` frame: refused without an open block or past the
/// block cap; appended to the open block, which `END_HEADERS` completes.
pub open spec fn continue_model(c: ConnView, dir: FlowSide, flags: u8, payload: Seq<u8>) -> (ConnView, Result<(), Http2Error>) {
    let d = dir_at(c, dir);
    let cap = c.config.max_header_block_bytes;
    match d.partial {
        None => (c, Err(Http2Error::UnexpectedContinuation)),
        Some(p) => if payload.len() > cap || p.bytes.len() > cap - payload.len() {
            (c, Err(Http2Error::HeaderListTooLong))
        } else {
            let bytes = p.bytes + payload;
            if flags & END_HEADERS == 0 {
                (with_dir(c, dir, DirView { partial: Some(BlockView { bytes, ..p }), ..d }), Ok(()))
            } else {
                complete_model(
                    with_dir(c, dir, DirView { partial: None, ..d }),
                    dir,
                    p.describes_stream,
                    bytes,
                    p.end_stream,
                )
            }
        },
    }
}

/// The frame-size cap in force for a configuration.
pub open spec fn frame_cap(cfg: Http2Config) -> u32 {
    let by_buffer = if cfg.max_buffered_bytes >= 9 {
        cfg.max_buffered_bytes - 9
    } else {
        0
    };
    let b = if by_buffer > u32::MAX {
        u32::MAX as int
    } else {
        by_buffer as int
    };
    (if b < cfg.max_frame_size {
        b
    } else {
        cfg.max_frame_size as int
    }) as u32
}

/// A `SETTINGS` frame from one side: malformed unless whole settings;
/// its table size (capped by the configuration) resizes the table that
/// decodes the other side, and its frame size (capped likewise) becomes
/// the other side's frame-size cap.
pub open spec fn settings_model(c: ConnView, dir: FlowSide, payload: Seq<u8>) -> (ConnView, Result<(), Http2Error>) {
    if payload.len() % 6 != 0 {
        (c, Err(Http2Error::MalformedFrame))
    } else {
        let s = settings_of(payload, payload.len() / 6);
        let o = opposite(dir);
        let c1 = match s.header_table_size {
            Some(n) => {
                let hard = c.config.max_hpack_table_bytes;
                let m = if (n as int) < hard {
                    n as int
                } else {
                    hard as int
                };
                let d = dir_at(c, o);
                with_dir(c, o, DirView { table: set_max_spec(d.table, m), ..d })
            },
            None => c,
        };
        let c2 = match s.max_frame_size {
            Some(n) => {
                let ceiling = frame_cap(c.config);
                let m = if n < ceiling {
                    n
                } else {
                    ceiling
                };
                let d = dir_at(c1, o);
                with_dir(c1, o, DirView { max_frame_size: m, ..d })
            },
            None => c1,
        };
        (c2, Ok(()))
    }
}

/// One frame on one side. While a field block is open only its
/// `CONTINUATION` frames may come. `DATA` queues its payload (if any)
/// and may end the stream; `RST_STREAM` stops tracking the stream;
/// `GOAWAY` is queued; `SETTINGS` without `ACK` applies; the rest are
/// ignored. A frame too short for its fields is malformed.
pub open spec fn frame_model(c: ConnView, dir: FlowSide, kind: FrameKind, flags: u8, stream_id: u32, payload: Seq<u8>, promised: Option<u32>) -> (ConnView, Result<(), Http2Error>) {
    let d = dir_at(c, dir);
    let open = match d.partial {
        Some(p) => Some(p.continuation_stream),
        None => None,
    };
    if open is Some && (kind != FrameKind::Continuation || stream_id != open->0) {
        (c, Err(Http2Error::InterleavedContinuation))
    } else {
        match kind {
            FrameKind::Headers => begin_model(c, dir, flags, stream_id, payload, promised),
            FrameKind::PushPromise => begin_model(c, dir, flags, stream_id, payload, promised),
            FrameKind::Continuation => if open is None {
                (c, Err(Http2Error::UnexpectedContinuation))
            } else {
                continue_model(c, dir, flags, payload)
            },
            FrameKind::Data => {
                let c1 = if payload.len() > 0 {
                    with_event(c, EventView::Body { stream_id, dir, data: payload })
                } else {
                    c
                };
                if flags & END_STREAM != 0 {
                    (finish_model(c1, stream_id, dir), Ok(()))
                } else {
                    (c1, Ok(()))
                }
            },
            FrameKind::Settings => if flags & ACK == 0 {
                settings_model(c, dir, payload)
            } else {
                (c, Ok(()))
            },
            FrameKind::RstStream => if payload.len() < 4 {
                (c, Err(Http2Error::MalformedFrame))
            } else {
                (
                    with_event(
                        ConnView { streams: c.streams.remove(stream_id), ..c },
                        EventView::StreamReset { stream_id, error_code: be32(payload, 0) },
                    ),
                    Ok(()),
                )
            },
            FrameKind::GoAway => if payload.len() < 8 {
                (c, Err(Http2Error::MalformedFrame))
            } else {
                (
                    with_event(
                        c,
                        EventView::GoAway {
                            last_stream_id: be32(payload, 0) & 0x7fff_ffff,
                            error_code: be32(payload, 4),
                        },
                    ),
                    Ok(()),
                )
            },
            _ => (c, Ok(())),
        }
    }
}

/// The side's buffer replaced.
pub open spec fn with_buf(c: ConnView, dir: FlowSide, buf: Seq<u8>) -> ConnView {
    let d = dir_at(c, dir);
    with_dir(c, dir, DirView { buf, ..d })
}

/// Frame after frame from the front of `buf`, each leaving the buffer
/// before it applies, until no whole frame is left or a frame fails.
pub open spec fn drive_frames(c: ConnView, dir: FlowSide, buf: Seq<u8>) -> (ConnView, Result<(), Http2Error>)
    decreases buf.len(),
{
    match parse_frame_spec(buf, dir_at(c, dir).max_frame_size) {
        Err(e) => (c, Err(e)),
        Ok(None) => (c, Ok(())),
        Ok(Some((kind, flags, sid, payload, promised, n))) => if n <= 0 || n > buf.len() {
            (c, Ok(()))
        } else {
            let rest = buf.skip(n);
            let (c1, r) = frame_model(with_buf(c, dir, rest), dir, kind, flags, sid, payload, promised);
            if r is Err {
                (c1, r)
            } else {
                drive_frames(c1, dir, rest)
            }
        },
    }
}

/// A failed connection: the first error kept, both sides done, no
/// buffered bytes and no tracked streams.
pub open spec fn fail_model(c: ConnView, e: Http2Error) -> ConnView {
    ConnView {
        error: match c.error {
            Some(x) => Some(x),
            None => Some(e),
        },
        request: DirView { done: true, buf: Seq::empty(), ..c.request },
        response: DirView { done: true, buf: Seq::empty(), ..c.response },
        streams: Map::empty(),
        ..c
    }
}

/// The bytes agree with the connection preface as far as they go.
pub open spec fn preface_prefix(buf: Seq<u8>) -> bool {
    forall|i: int| 0 <= i < buf.len() && i < 24 ==> buf[i] == preface_bytes()[i]
}

/// Parse what one side has buffered: on the initiator first the 24-byte
/// preface (a mismatch is an error, a partial one waits), then whole
/// frames until one fails. The connection and the outcome, before a
/// failure is recorded.
pub open spec fn drive_steps(c: ConnView, dir: FlowSide) -> (ConnView, Result<(), Http2Error>) {
    if dir == FlowSide::Initiator && !c.request.preface_seen {
        if !preface_prefix(c.request.buf) {
            (c, Err(Http2Error::BadPreface))
        } else if c.request.buf.len() < 24 {
            (c, Ok(()))
        } else {
            let c1 = with_dir(
                c,
                dir,
                DirView { buf: c.request.buf.skip(24), preface_seen: true, ..c.request },
            );
            drive_frames(c1, dir, c1.request.buf)
        }
    } else {
        drive_frames(c, dir, dir_at(c, dir).buf)
    }
}

/// Parse what one side has buffered, as [`drive_steps`] says; a failure
/// fails the connection.
pub open spec fn drive_model(c: ConnView, dir: FlowSide) -> ConnView {
    match drive_steps(c, dir) {
        (c2, Err(e)) => fail_model(c2, e),
        (c2, Ok(())) => c2,
    }
}

/// Offer bytes from one side: nothing once failed or done; a full
/// buffer fails the connection; otherwise as many bytes as fit are
/// buffered and parsed. The new connection and the count taken.
pub open spec fn push_model(c: ConnView, dir: FlowSide, data: Seq<u8>) -> (ConnView, int) {
    let d = dir_at(c, dir);
    if c.error is Some || d.done {
        (c, 0)
    } else {
        let room = if c.config.max_buffered_bytes > d.buf.len() {
            c.config.max_buffered_bytes - d.buf.len()
        } else {
            0
        };
        if room == 0 {
            (fail_model(c, Http2Error::BufferOverflow), 0)
        } else {
            let take = if room < data.len() {
                room
            } else {
                data.len() as int
            };
            (drive_model(with_buf(c, dir, d.buf + data.take(take)), dir), take)
        }
    }
}

} // verus!
