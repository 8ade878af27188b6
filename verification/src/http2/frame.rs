//! The HTTP/2 frame layer: the 9-octet frame header, padding and
//! priority stripping, `SETTINGS` payloads, and framing a field block
//! as `HEADERS` plus `CONTINUATION` frames.

use vstd::prelude::*;

use super::error::Http2Error;

verus! {

/// Fixed frame-header size: length(24) type(8) flags(8) R(1)+id(31).
pub const FRAME_HEADER_LEN: usize = 9;

/// Frame flags, by the bit each type gives it.
pub const END_STREAM: u8 = 0x1;
pub const ACK: u8 = 0x1;
pub const END_HEADERS: u8 = 0x4;
pub const PADDED: u8 = 0x8;
pub const PRIORITY: u8 = 0x20;

/// The 24-octet client connection preface.
pub fn preface() -> (p: [u8; 24])
    ensures
        p@ == super::super::http::framing::h2_preface(),
{
    [
        80u8, 82, 73, 32, 42, 32, 72, 84, 84, 80, 47, 50, 46, 48, 13, 10, 13, 10, 83, 77, 13, 10,
        13, 10,
    ]
}

/// Frame types this parser distinguishes; others are kept as `Unknown`.
#[derive(Debug, Clone, Copy, PartialEq, Eq, Structural)]
pub enum FrameKind {
    Data,
    Headers,
    Priority,
    RstStream,
    Settings,
    PushPromise,
    Ping,
    GoAway,
    WindowUpdate,
    Continuation,
    Unknown(u8),
}

/// The frame type a type octet names.
pub open spec fn kind_of(b: u8) -> FrameKind {
    match b {
        0u8 => FrameKind::Data,
        1u8 => FrameKind::Headers,
        2u8 => FrameKind::Priority,
        3u8 => FrameKind::RstStream,
        4u8 => FrameKind::Settings,
        5u8 => FrameKind::PushPromise,
        6u8 => FrameKind::Ping,
        7u8 => FrameKind::GoAway,
        8u8 => FrameKind::WindowUpdate,
        9u8 => FrameKind::Continuation,
        other => FrameKind::Unknown(other),
    }
}

impl FrameKind {
    pub fn from_byte(b: u8) -> (k: FrameKind)
        ensures
            k == kind_of(b),
    {
        match b {
            0u8 => FrameKind::Data,
            1u8 => FrameKind::Headers,
            2u8 => FrameKind::Priority,
            3u8 => FrameKind::RstStream,
            4u8 => FrameKind::Settings,
            5u8 => FrameKind::PushPromise,
            6u8 => FrameKind::Ping,
            7u8 => FrameKind::GoAway,
            8u8 => FrameKind::WindowUpdate,
            9u8 => FrameKind::Continuation,
            other => FrameKind::Unknown(other),
        }
    }
}

/// One parsed frame: header fields and the payload with padding,
/// priority prefix and promised stream id removed.
#[derive(Debug, Clone)]
pub struct Frame {
    pub kind: FrameKind,
    pub flags: u8,
    pub stream_id: u32,
    pub payload: Vec<u8>,
    /// The stream a `PUSH_PROMISE` reserves.
    pub promised_stream_id: Option<u32>,
}

impl Frame {
    /// Whether a flag bit is set.
    pub fn has(&self, flag: u8) -> (r: bool)
        ensures
            r == (self.flags & flag != 0),
    {
        self.flags & flag != 0
    }
}

/// A 24-bit big-endian number.
pub open spec fn be24(s: Seq<u8>, i: int) -> nat {
    (s[i] as nat) * 65536 + (s[i + 1] as nat) * 256 + (s[i + 2] as nat)
}

/// A 31-bit stream identifier: four big-endian octets, reserved bit
/// cleared.
pub open spec fn stream_id_at(s: Seq<u8>, i: int) -> u32 {
    (((s[i] % 128) as nat) * 16777216 + (s[i + 1] as nat) * 65536 + (s[i + 2] as nat) * 256 + (s[i
        + 3] as nat)) as u32
}

/// How many bytes the frame at the head of `buf` occupies: `Ok(None)`
/// until all of it has arrived.
pub open spec fn frame_len_spec(buf: Seq<u8>, max_frame_size: u32) -> Result<Option<int>, Http2Error> {
    if buf.len() < 9 {
        Ok(None)
    } else if be24(buf, 0) > max_frame_size {
        Err(Http2Error::FrameTooLarge)
    } else if buf.len() < 9 + be24(buf, 0) {
        Ok(None)
    } else {
        Ok(Some((9 + be24(buf, 0)) as int))
    }
}

fn read_be24(buf: &[u8], i: usize) -> (r: u32)
    requires
        i + 3 <= buf@.len(),
    ensures
        r as nat == be24(buf@, i as int),
        r < 16777216,
{
    (buf[i] as u32) * 65536 + (buf[i + 1] as u32) * 256 + (buf[i + 2] as u32)
}

fn read_stream_id(buf: &[u8], i: usize) -> (r: u32)
    requires
        i + 4 <= buf@.len(),
    ensures
        r == stream_id_at(buf@, i as int),
{
    ((buf[i] % 128) as u32) * 16777216 + (buf[i + 1] as u32) * 65536 + (buf[i + 2] as u32) * 256
        + (buf[i + 3] as u32)
}

/// How many bytes the frame at the head of `buf` occupies, reading
/// only its header.
pub fn peek_frame_len(buf: &[u8], max_frame_size: u32) -> (r: Result<Option<usize>, Http2Error>)
    ensures
        match (r, frame_len_spec(buf@, max_frame_size)) {
            (Ok(Some(n)), Ok(Some(m))) => n == m,
            (Ok(None), Ok(None)) => true,
            (Err(e), Err(f)) => e == f,
            _ => false,
        },
{
    if buf.len() < 9 {
        return Ok(None);
    }
    let length = read_be24(buf, 0);
    if length > max_frame_size {
        return Err(Http2Error::FrameTooLarge);
    }
    let total = 9 + length as usize;
    if buf.len() < total {
        return Ok(None);
    }
    Ok(Some(total))
}

/// The frame at the head of `buf` as plain values: kind, flags,
/// stream id, payload, promised stream id, and bytes consumed.
pub type FrameView = (FrameKind, u8, u32, Seq<u8>, Option<u32>, int);

/// Read one frame from the front of `buf`: padding stripped from
/// `DATA`/`HEADERS`/`PUSH_PROMISE` with `PADDED`, the 5-byte priority
/// prefix from `HEADERS` with `PRIORITY`, the promised stream id from
/// `PUSH_PROMISE`; padding longer than the payload or a payload too
/// short for its prefix is malformed.
pub open spec fn parse_frame_spec(buf: Seq<u8>, max_frame_size: u32) -> Result<
    Option<FrameView>,
    Http2Error,
> {
    match frame_len_spec(buf, max_frame_size) {
        Err(e) => Err(e),
        Ok(None) => Ok(None),
        Ok(Some(total)) => {
            let kind = kind_of(buf[3]);
            let flags = buf[4];
            let sid = stream_id_at(buf, 5);
            let p0 = buf.subrange(9, total);
            let padded = (kind == FrameKind::Data || kind == FrameKind::Headers || kind
                == FrameKind::PushPromise) && flags & PADDED != 0;
            if padded && (p0.len() == 0 || p0[0] + 1 > p0.len()) {
                Err(Http2Error::MalformedFrame)
            } else {
                let p1 = if padded {
                    p0.subrange(1, p0.len() - p0[0])
                } else {
                    p0
                };
                let prio = kind == FrameKind::Headers && flags & PRIORITY != 0;
                if prio && p1.len() < 5 {
                    Err(Http2Error::MalformedFrame)
                } else {
                    let p2 = if prio {
                        p1.skip(5)
                    } else {
                        p1
                    };
                    if kind == FrameKind::PushPromise {
                        if p2.len() < 4 {
                            Err(Http2Error::MalformedFrame)
                        } else {
                            Ok(
                                Some(
                                    (kind, flags, sid, p2.skip(4), Some(stream_id_at(p2, 0)), total),
                                ),
                            )
                        }
                    } else {
                        Ok(Some((kind, flags, sid, p2, None, total)))
                    }
                }
            }
        },
    }
}

/// Try to read one frame from the front of `buf`; `Ok(None)` until it
/// has fully arrived. On success, the frame and the bytes it occupies.
pub fn parse_frame(buf: &[u8], max_frame_size: u32) -> (r: Result<Option<(Frame, usize)>, Http2Error>)
    ensures
        match (r, parse_frame_spec(buf@, max_frame_size)) {
            (Ok(Some((f, n))), Ok(Some(v))) => v == (
                f.kind,
                f.flags,
                f.stream_id,
                f.payload@,
                f.promised_stream_id,
                n as int,
            ),
            (Ok(None), Ok(None)) => true,
            (Err(e), Err(g)) => e == g,
            _ => false,
        },
{
    let total = match peek_frame_len(buf, max_frame_size) {
        Err(e) => {
            return Err(e);
        },
        Ok(None) => {
            return Ok(None);
        },
        Ok(Some(t)) => t,
    };
    let kind = FrameKind::from_byte(buf[3]);
    let flags = buf[4];
    let stream_id = read_stream_id(buf, 5);
    let mut lo: usize = 9;
    let mut hi: usize = total;
    let ghost p0 = buf@.subrange(9, total as int);
    let padded = (kind == FrameKind::Data || kind == FrameKind::Headers || kind
        == FrameKind::PushPromise) && flags & PADDED != 0;
    if padded {
        if hi == lo {
            return Err(Http2Error::MalformedFrame);
        }
        let pad_len = buf[lo] as usize;
        assert(p0[0] == buf@[9]);
        if pad_len + 1 > hi - lo {
            return Err(Http2Error::MalformedFrame);
        }
        lo = lo + 1;
        hi = hi - pad_len;
    }
    let ghost p1 = buf@.subrange(lo as int, hi as int);
    assert(p1 =~= (if padded {
        p0.subrange(1, p0.len() - p0[0])
    } else {
        p0
    }));
    let prio = kind == FrameKind::Headers && flags & PRIORITY != 0;
    if prio {
        if hi - lo < 5 {
            return Err(Http2Error::MalformedFrame);
        }
        lo = lo + 5;
    }
    let ghost p2 = buf@.subrange(lo as int, hi as int);
    assert(p2 =~= (if prio {
        p1.skip(5)
    } else {
        p1
    }));
    let mut promised: Option<u32> = None;
    if kind == FrameKind::PushPromise {
        if hi - lo < 4 {
            return Err(Http2Error::MalformedFrame);
        }
        let id = read_stream_id(buf, lo);
        assert(id == stream_id_at(p2, 0));
        promised = Some(id);
        lo = lo + 4;
    }
    let payload = crate::text::copy_bytes(&buf[lo..hi]);
    assert(kind == FrameKind::PushPromise ==> payload@ =~= p2.skip(4));
    assert(kind != FrameKind::PushPromise ==> payload@ =~= p2);
    Ok(Some((Frame { kind, flags, stream_id, payload, promised_stream_id: promised }, total)))
}

// ── writing ───────────────────────────────────────────────────────

/// A frame on the wire: 24-bit length, type, flags, 32-bit stream id,
/// payload.
pub open spec fn frame_wire(kind: u8, flags: u8, stream_id: u32, payload: Seq<u8>) -> Seq<u8> {
    let len = payload.len();
    seq![
        ((len / 65536) % 256) as u8,
        ((len / 256) % 256) as u8,
        (len % 256) as u8,
        kind,
        flags,
        ((stream_id / 16777216) % 256) as u8,
        ((stream_id / 65536) % 256) as u8,
        ((stream_id / 256) % 256) as u8,
        (stream_id % 256) as u8,
    ] + payload
}

/// `max_frame_size` clamped into `16384..=16777215`.
pub open spec fn clamp_frame_size(m: u32) -> nat {
    if m < 16384 {
        16384
    } else if m > 16777215 {
        16777215
    } else {
        m as nat
    }
}

/// The frames carrying `block` from `off` on, `chunk` bytes at a time:
/// `HEADERS` first then `CONTINUATION`; `END_HEADERS` on the last,
/// `END_STREAM` on the first when asked for.
#[verifier::opaque]
pub open spec fn frames_from(
    block: Seq<u8>,
    off: nat,
    first: bool,
    end_stream: bool,
    stream_id: u32,
    chunk: nat,
) -> Seq<u8>
    decreases block.len() - off,
{
    if chunk == 0 {
        Seq::empty()
    } else {
        let last = off + chunk >= block.len();
        let end: int = if last {
            block.len() as int
        } else {
            (off + chunk) as int
        };
        let part = block.subrange(off as int, end);
        let fl = (if last {
            4u8
        } else {
            0u8
        }) + (if first && end_stream {
            1u8
        } else {
            0u8
        });
        let kind = if first {
            1u8
        } else {
            9u8
        };
        let this = frame_wire(kind, fl as u8, stream_id, part);
        if last {
            this
        } else {
            this + frames_from(block, off + chunk, false, end_stream, stream_id, chunk)
        }
    }
}

/// Frame a field block as `HEADERS` plus as many `CONTINUATION` frames
/// as the clamped frame size requires; stream 0 and the reserved bit
/// are refused.
pub open spec fn write_headers_spec(
    stream_id: u32,
    block: Seq<u8>,
    end_stream: bool,
    max_frame_size: u32,
) -> Result<Seq<u8>, Http2Error> {
    if stream_id == 0 || stream_id > 0x7fff_ffff {
        Err(Http2Error::InvalidStreamId)
    } else {
        Ok(frames_from(block, 0, true, end_stream, stream_id, clamp_frame_size(max_frame_size)))
    }
}

fn push_frame_header(out: &mut Vec<u8>, len: u32, kind: u8, flags: u8, stream_id: u32)
    requires
        len < 16777216,
    ensures
        final(out)@ == old(out)@ + seq![
            ((len / 65536) % 256) as u8,
            ((len / 256) % 256) as u8,
            (len % 256) as u8,
            kind,
            flags,
            ((stream_id / 16777216) % 256) as u8,
            ((stream_id / 65536) % 256) as u8,
            ((stream_id / 256) % 256) as u8,
            (stream_id % 256) as u8,
        ],
{
    out.push(((len / 65536) % 256) as u8);
    out.push(((len / 256) % 256) as u8);
    out.push((len % 256) as u8);
    out.push(kind);
    out.push(flags);
    out.push(((stream_id / 16777216) % 256) as u8);
    out.push(((stream_id / 65536) % 256) as u8);
    out.push(((stream_id / 256) % 256) as u8);
    out.push((stream_id % 256) as u8);
}

proof fn lemma_frames_step(
    block: Seq<u8>,
    off: nat,
    first: bool,
    end_stream: bool,
    stream_id: u32,
    chunk: nat,
)
    requires
        chunk > 0,
        off <= block.len(),
    ensures
        ({
            let last = off + chunk >= block.len();
            let end = if last {
                block.len() as int
            } else {
                (off + chunk) as int
            };
            let fl = (if last {
                4u8
            } else {
                0u8
            }) + (if first && end_stream {
                1u8
            } else {
                0u8
            });
            let kind = if first {
                1u8
            } else {
                9u8
            };
            let this = frame_wire(kind, fl as u8, stream_id, block.subrange(off as int, end));
            frames_from(block, off, first, end_stream, stream_id, chunk) == if last {
                this
            } else {
                this + frames_from(block, off + chunk, false, end_stream, stream_id, chunk)
            }
        }),
{
    reveal(frames_from);
}

/// Frame a field block as `HEADERS` plus `CONTINUATION` frames.
pub fn write_headers(stream_id: u32, block: &[u8], end_stream: bool, max_frame_size: u32) -> (r:
    Result<Vec<u8>, Http2Error>)
    ensures
        match (r, write_headers_spec(stream_id, block@, end_stream, max_frame_size)) {
            (Ok(v), Ok(w)) => v@ == w,
            (Err(e), Err(f)) => e == f,
            _ => false,
        },
{
    if stream_id == 0 || stream_id > 0x7fff_ffff {
        return Err(Http2Error::InvalidStreamId);
    }
    let chunk: usize = if max_frame_size < 16384 {
        16384
    } else if max_frame_size > 16777215 {
        16777215
    } else {
        max_frame_size as usize
    };
    let ghost target = frames_from(block@, 0, true, end_stream, stream_id, chunk as nat);
    let mut out: Vec<u8> = Vec::new();
    let mut off: usize = 0;
    let mut first = true;
    loop
        invariant
            off <= block@.len(),
            chunk >= 16384,
            chunk <= 16777215,
            first ==> off == 0,
            stream_id != 0 && stream_id <= 0x7fff_ffff,
            chunk as nat == clamp_frame_size(max_frame_size),
            target == frames_from(block@, 0, true, end_stream, stream_id, chunk as nat),
            out@ + frames_from(block@, off as nat, first, end_stream, stream_id, chunk as nat)
                == target,
        decreases block@.len() - off,
    {
        let last = block.len() - off <= chunk;
        let end = if last {
            block.len()
        } else {
            off + chunk
        };
        let fl: u8 = (if last {
            4u8
        } else {
            0u8
        }) + (if first && end_stream {
            1u8
        } else {
            0u8
        });
        let kind: u8 = if first {
            1
        } else {
            9
        };
        let part = &block[off..end];
        let ghost before = out@;
        push_frame_header(&mut out, (end - off) as u32, kind, fl, stream_id);
        out.extend_from_slice(part);
        proof {
            lemma_frames_step(block@, off as nat, first, end_stream, stream_id, chunk as nat);
            assert(part@ == block@.subrange(off as int, end as int));
            assert(out@ =~= before + frame_wire(kind, fl, stream_id, part@));
        }
        if last {
            return Ok(out);
        }
        off = off + chunk;
        first = false;
    }
}

// ── SETTINGS ──────────────────────────────────────────────────────

/// The `SETTINGS` parameters that affect framing.
#[derive(Debug, Clone, Copy, Default, PartialEq, Eq, Structural)]
pub struct Settings {
    pub header_table_size: Option<u32>,
    pub max_frame_size: Option<u32>,
    pub max_header_list_size: Option<u32>,
}

/// A 16-bit big-endian number.
pub open spec fn be16(s: Seq<u8>, i: int) -> nat {
    (s[i] as nat) * 256 + (s[i + 1] as nat)
}

/// A 32-bit big-endian number.
pub open spec fn be32(s: Seq<u8>, i: int) -> u32 {
    ((s[i] as nat) * 16777216 + (s[i + 1] as nat) * 65536 + (s[i + 2] as nat) * 256 + (s[i
        + 3] as nat)) as u32
}

/// The settings of the first `n` 6-octet entries: each known parameter
/// takes the value of its last entry.
pub open spec fn settings_of(p: Seq<u8>, n: nat) -> Settings
    decreases n,
{
    if n == 0 {
        Settings { header_table_size: None, max_frame_size: None, max_header_list_size: None }
    } else {
        let s = settings_of(p, (n - 1) as nat);
        let i = (n - 1) * 6;
        let id = be16(p, i);
        let v = be32(p, i + 2);
        if id == 1 {
            Settings { header_table_size: Some(v), ..s }
        } else if id == 5 {
            Settings { max_frame_size: Some(v), ..s }
        } else if id == 6 {
            Settings { max_header_list_size: Some(v), ..s }
        } else {
            s
        }
    }
}

/// Parse a `SETTINGS` payload: 6-octet entries; a length that is not a
/// multiple of 6 is malformed.
pub fn parse_settings(payload: &[u8]) -> (r: Result<Settings, Http2Error>)
    ensures
        payload@.len() % 6 != 0 ==> r == Err::<Settings, Http2Error>(Http2Error::MalformedFrame),
        payload@.len() % 6 == 0 ==> r == Ok::<Settings, Http2Error>(
            settings_of(payload@, payload@.len() / 6),
        ),
{
    if payload.len() % 6 != 0 {
        return Err(Http2Error::MalformedFrame);
    }
    let mut s = Settings { header_table_size: None, max_frame_size: None, max_header_list_size: None };
    let n = payload.len() / 6;
    let mut k: usize = 0;
    while k < n
        invariant
            k <= n,
            n == payload@.len() / 6,
            payload@.len() % 6 == 0,
            s == settings_of(payload@, k as nat),
        decreases n - k,
    {
        assert(k * 6 + 6 <= payload@.len()) by (nonlinear_arith)
            requires
                k < n,
                n == payload@.len() / 6,
                payload@.len() % 6 == 0,
        ;
        assert(payload@.len() == payload.len());
        let i = k * 6;
        let id = (payload[i] as u32) * 256 + (payload[i + 1] as u32);
        let value = (payload[i + 2] as u32) * 16777216 + (payload[i + 3] as u32) * 65536
            + (payload[i + 4] as u32) * 256 + (payload[i + 5] as u32);
        if id == 1 {
            s.header_table_size = Some(value);
        } else if id == 5 {
            s.max_frame_size = Some(value);
        } else if id == 6 {
            s.max_header_list_size = Some(value);
        }
        k += 1;
    }
    Ok(s)
}

// ── reading back what was written ─────────────────────────────────

proof fn lemma_frame_wire_fields(kind: u8, flags: u8, stream_id: u32, payload: Seq<u8>, rest: Seq<u8>)
    requires
        payload.len() < 16777216,
        stream_id <= 0x7fff_ffff,
    ensures
        ({
            let w = frame_wire(kind, flags, stream_id, payload) + rest;
            &&& w.len() >= 9 + payload.len() as int
            &&& be24(w, 0) == payload.len()
            &&& w[3] == kind
            &&& w[4] == flags
            &&& stream_id_at(w, 5) == stream_id
            &&& w.subrange(9, 9 + payload.len() as int) == payload
            &&& w.skip(9 + payload.len() as int) == rest
        }),
{
    let w = frame_wire(kind, flags, stream_id, payload) + rest;
    let len = payload.len();
    let b0 = ((len / 65536) % 256) as nat;
    let b1 = ((len / 256) % 256) as nat;
    let b2 = (len % 256) as nat;
    assert(b0 * 65536 + b1 * 256 + b2 == len) by (nonlinear_arith)
        requires
            len < 16777216,
            b0 == (len / 65536) % 256,
            b1 == (len / 256) % 256,
            b2 == len % 256,
    ;
    assert(w[0] as nat == b0 && w[1] as nat == b1 && w[2] as nat == b2);
    let s = stream_id as nat;
    let c0 = (s / 16777216) % 256;
    let c1 = (s / 65536) % 256;
    let c2 = (s / 256) % 256;
    let c3 = s % 256;
    assert(c0 < 128 && (c0 % 128) * 16777216 + c1 * 65536 + c2 * 256 + c3 == s) by (nonlinear_arith)
        requires
            s <= 0x7fff_ffff,
            c0 == (s / 16777216) % 256,
            c1 == (s / 65536) % 256,
            c2 == (s / 256) % 256,
            c3 == s % 256,
    ;
    assert(w[5] as nat == c0 && w[6] as nat == c1 && w[7] as nat == c2 && w[8] as nat == c3);
    assert(w.subrange(9, 9 + payload.len() as int) =~= payload);
    assert(w.skip(9 + payload.len() as int) =~= rest);
}

/// A `HEADERS` or `CONTINUATION` frame written with no padding or
/// priority flag reads back as what was written, stopping right after
/// it, whenever the reader's frame-size limit admits its payload.
pub proof fn lemma_frame_round_trip(
    kind: u8,
    flags: u8,
    stream_id: u32,
    payload: Seq<u8>,
    rest: Seq<u8>,
    max_frame_size: u32,
)
    requires
        kind == 1 || kind == 9,
        flags == 0 || flags == 1 || flags == 4 || flags == 5,
        stream_id <= 0x7fff_ffff,
        payload.len() <= max_frame_size,
        payload.len() < 16777216,
    ensures
        parse_frame_spec(frame_wire(kind, flags, stream_id, payload) + rest, max_frame_size) == Ok::<
            Option<FrameView>,
            Http2Error,
        >(Some((kind_of(kind), flags, stream_id, payload, None, 9 + payload.len() as int))),
{
    lemma_frame_wire_fields(kind, flags, stream_id, payload, rest);
    assert(flags & PADDED == 0 && flags & PRIORITY == 0) by (bit_vector)
        requires
            flags == 0 || flags == 1 || flags == 4 || flags == 5,
    ;
}

/// The frames [`write_headers`] emits for a block read back one after
/// another: each is the next chunk of the block, `HEADERS` first and
/// `CONTINUATION` after, `END_HEADERS` only on the last and
/// `END_STREAM` only on the first when asked for, all on the one
/// stream — whenever the reader's frame-size limit admits a chunk.
pub proof fn lemma_headers_read_back(
    block: Seq<u8>,
    off: nat,
    first: bool,
    end_stream: bool,
    stream_id: u32,
    chunk: nat,
    rest: Seq<u8>,
    max_frame_size: u32,
)
    requires
        0 < chunk < 16777216,
        chunk <= max_frame_size,
        off <= block.len(),
        1 <= stream_id <= 0x7fff_ffff,
    ensures
        ({
            let last = off + chunk >= block.len();
            let end = if last {
                block.len() as int
            } else {
                (off + chunk) as int
            };
            let part = block.subrange(off as int, end);
            let fl = ((if last {
                4u8
            } else {
                0u8
            }) + (if first && end_stream {
                1u8
            } else {
                0u8
            })) as u8;
            let next = if last {
                rest
            } else {
                frames_from(block, off + chunk, false, end_stream, stream_id, chunk) + rest
            };
            parse_frame_spec(
                frames_from(block, off, first, end_stream, stream_id, chunk) + rest,
                max_frame_size,
            ) == Ok::<Option<FrameView>, Http2Error>(
                Some(
                    (
                        if first {
                            FrameKind::Headers
                        } else {
                            FrameKind::Continuation
                        },
                        fl,
                        stream_id,
                        part,
                        None,
                        9 + part.len() as int,
                    ),
                ),
            ) && (frames_from(block, off, first, end_stream, stream_id, chunk) + rest).skip(
                9 + part.len() as int,
            ) == next
        }),
{
    lemma_frames_step(block, off, first, end_stream, stream_id, chunk);
    let last = off + chunk >= block.len();
    let end = if last {
        block.len() as int
    } else {
        (off + chunk) as int
    };
    let part = block.subrange(off as int, end);
    let fl = ((if last {
        4u8
    } else {
        0u8
    }) + (if first && end_stream {
        1u8
    } else {
        0u8
    })) as u8;
    let kind = if first {
        1u8
    } else {
        9u8
    };
    let tail = if last {
        rest
    } else {
        frames_from(block, off + chunk, false, end_stream, stream_id, chunk) + rest
    };
    let this = frame_wire(kind, fl, stream_id, part);
    assert(frames_from(block, off, first, end_stream, stream_id, chunk) + rest =~= this + tail);
    lemma_frame_round_trip(kind, fl, stream_id, part, tail, max_frame_size);
    lemma_frame_wire_fields(kind, fl, stream_id, part, tail);
}


/// The frames at the front of a buffer, read one after another until
/// one is incomplete or malformed.
pub open spec fn frame_seq(buf: Seq<u8>, limit: u32) -> Seq<FrameView>
    decreases buf.len(),
{
    match parse_frame_spec(buf, limit) {
        Ok(Some(f)) => if 0 < f.5 && f.5 <= buf.len() {
            seq![f] + frame_seq(buf.skip(f.5), limit)
        } else {
            Seq::empty()
        },
        _ => Seq::empty(),
    }
}

/// The payloads of frames, joined.
pub open spec fn payloads(fs: Seq<FrameView>) -> Seq<u8>
    decreases fs.len(),
{
    if fs.len() == 0 {
        Seq::empty()
    } else {
        fs[0].3 + payloads(fs.drop_first())
    }
}

/// The frames of a split field block: `HEADERS` first (when `first`)
/// and `CONTINUATION` after, all on `stream_id`, none carrying more than
/// `chunk` bytes or a promised stream, `END_HEADERS` on the last only
/// and `END_STREAM` on the first only when asked for.
pub open spec fn split_frames(fs: Seq<FrameView>, first: bool, end_stream: bool, stream_id: u32, chunk: nat) -> bool {
    forall|i: int|
        0 <= i < fs.len() ==> {
            &&& (#[trigger] fs[i]).0 == (if i == 0 && first {
                FrameKind::Headers
            } else {
                FrameKind::Continuation
            })
            &&& fs[i].1 == ((if i == fs.len() - 1 {
                4u8
            } else {
                0u8
            }) + (if i == 0 && first && end_stream {
                1u8
            } else {
                0u8
            })) as u8
            &&& fs[i].2 == stream_id
            &&& fs[i].3.len() <= chunk
            &&& fs[i].4 is None
        }
}

/// How many frames a block of `n` bytes takes, `c` bytes at a time:
/// one for an empty block, else `n / c` rounded up.
pub open spec fn frame_count(n: nat, c: nat) -> nat
    decreases n,
{
    if c == 0 || n <= c {
        1
    } else {
        1 + frame_count((n - c) as nat, c)
    }
}

proof fn lemma_split_from(
    block: Seq<u8>,
    off: nat,
    first: bool,
    end_stream: bool,
    stream_id: u32,
    chunk: nat,
    limit: u32,
)
    requires
        0 < chunk < 16777216,
        chunk <= limit,
        off <= block.len(),
        1 <= stream_id <= 0x7fff_ffff,
    ensures
        frame_seq(frames_from(block, off, first, end_stream, stream_id, chunk), limit).len() >= 1,
        frame_seq(frames_from(block, off, first, end_stream, stream_id, chunk), limit).len()
            == frame_count((block.len() - off) as nat, chunk),
        payloads(frame_seq(frames_from(block, off, first, end_stream, stream_id, chunk), limit))
            == block.subrange(off as int, block.len() as int),
        split_frames(
            frame_seq(frames_from(block, off, first, end_stream, stream_id, chunk), limit),
            first,
            end_stream,
            stream_id,
            chunk,
        ),
    decreases block.len() - off,
{
    let w = frames_from(block, off, first, end_stream, stream_id, chunk);
    lemma_headers_read_back(block, off, first, end_stream, stream_id, chunk, Seq::empty(), limit);
    lemma_frames_step(block, off, first, end_stream, stream_id, chunk);
    assert(w + Seq::<u8>::empty() =~= w);
    let last = off + chunk >= block.len();
    let end = if last {
        block.len() as int
    } else {
        (off + chunk) as int
    };
    let part = block.subrange(off as int, end);
    let f = parse_frame_spec(w, limit)->Ok_0->Some_0;
    assert(f.5 == 9 + part.len());
    assert(w.len() >= 9 + part.len());
    let fs = frame_seq(w, limit);
    if last {
        assert(w.skip(f.5) =~= Seq::<u8>::empty());
        assert(frame_seq(Seq::<u8>::empty(), limit) =~= Seq::<FrameView>::empty());
        assert(fs =~= seq![f]);
        assert(payloads(fs.drop_first()) =~= Seq::<u8>::empty());
        assert(payloads(fs) =~= block.subrange(off as int, block.len() as int));
    } else {
        let next = frames_from(block, off + chunk, false, end_stream, stream_id, chunk);
        assert(w.skip(f.5) =~= next);
        lemma_split_from(block, off + chunk, false, end_stream, stream_id, chunk, limit);
        let gs = frame_seq(next, limit);
        assert(fs =~= seq![f] + gs);
        assert(fs.drop_first() =~= gs);
        assert(payloads(fs) =~= block.subrange(off as int, block.len() as int));
        assert forall|i: int| 0 <= i < fs.len() implies {
            &&& (#[trigger] fs[i]).0 == (if i == 0 && first {
                FrameKind::Headers
            } else {
                FrameKind::Continuation
            })
            &&& fs[i].1 == ((if i == fs.len() - 1 {
                4u8
            } else {
                0u8
            }) + (if i == 0 && first && end_stream {
                1u8
            } else {
                0u8
            })) as u8
            &&& fs[i].2 == stream_id
            &&& fs[i].3.len() <= chunk
            &&& fs[i].4 is None
        } by {
            if i > 0 {
                assert(fs[i] == gs[i - 1]);
            }
        }
    }
}

/// A field block split by [`write_headers`] reads back, by any reader
/// whose frame-size limit admits the split size, as `HEADERS` then
/// `CONTINUATION` frames on the stream, as many as the block needs at
/// the split size, whose payloads join to exactly the block, each
/// within the split size, with `END_HEADERS` on the last
/// frame only and `END_STREAM` on the first only when asked for.
pub proof fn lemma_write_headers_split(
    stream_id: u32,
    block: Seq<u8>,
    end_stream: bool,
    max_frame_size: u32,
    limit: u32,
)
    requires
        1 <= stream_id <= 0x7fff_ffff,
        clamp_frame_size(max_frame_size) <= limit,
    ensures
        write_headers_spec(stream_id, block, end_stream, max_frame_size) matches Ok(w) && {
            let fs = frame_seq(w, limit);
            &&& fs.len() >= 1
            &&& fs.len() == frame_count(block.len(), clamp_frame_size(max_frame_size))
            &&& payloads(fs) == block
            &&& split_frames(fs, true, end_stream, stream_id, clamp_frame_size(max_frame_size))
        },
{
    let chunk = clamp_frame_size(max_frame_size);
    lemma_split_from(block, 0, true, end_stream, stream_id, chunk, limit);
    assert(block.subrange(0, block.len() as int) =~= block);
}

/// The frame type registry of RFC 9113, section 11.2: a frame's kind is
/// named by its type octet alone, DATA 0x0, HEADERS 0x1, PRIORITY 0x2,
/// RST_STREAM 0x3, SETTINGS 0x4, PUSH_PROMISE 0x5, PING 0x6, GOAWAY 0x7,
/// WINDOW_UPDATE 0x8 and CONTINUATION 0x9; any other octet is an unknown
/// type that keeps its number.
pub proof fn lemma_frame_type_registry(b: u8)
    ensures
        kind_of(b) == FrameKind::Data <==> b == 0,
        kind_of(b) == FrameKind::Headers <==> b == 1,
        kind_of(b) == FrameKind::Priority <==> b == 2,
        kind_of(b) == FrameKind::RstStream <==> b == 3,
        kind_of(b) == FrameKind::Settings <==> b == 4,
        kind_of(b) == FrameKind::PushPromise <==> b == 5,
        kind_of(b) == FrameKind::Ping <==> b == 6,
        kind_of(b) == FrameKind::GoAway <==> b == 7,
        kind_of(b) == FrameKind::WindowUpdate <==> b == 8,
        kind_of(b) == FrameKind::Continuation <==> b == 9,
        kind_of(b) is Unknown <==> b > 9,
        kind_of(b) is Unknown ==> kind_of(b) == FrameKind::Unknown(b),
{
}

/// A frame that [`parse_frame`] reads has the kind its type octet
/// `buf[3]` names in the RFC 9113 registry.
pub proof fn lemma_parsed_frame_kind(buf: Seq<u8>, max_frame_size: u32)
    ensures
        parse_frame_spec(buf, max_frame_size) matches Ok(Some((kind, _, _, _, _, _))) ==> (
        (kind == FrameKind::Data <==> buf[3] == 0) && (kind == FrameKind::Headers <==> buf[3] == 1)
            && (kind == FrameKind::Priority <==> buf[3] == 2) && (kind == FrameKind::RstStream
            <==> buf[3] == 3) && (kind == FrameKind::Settings <==> buf[3] == 4) && (kind
            == FrameKind::PushPromise <==> buf[3] == 5) && (kind == FrameKind::Ping <==> buf[3]
            == 6) && (kind == FrameKind::GoAway <==> buf[3] == 7) && (kind
            == FrameKind::WindowUpdate <==> buf[3] == 8) && (kind == FrameKind::Continuation
            <==> buf[3] == 9) && (kind is Unknown ==> kind == FrameKind::Unknown(buf[3]))),
{
    lemma_frame_type_registry(buf[3]);
}

/// The SETTINGS parameters this parser keeps, by their RFC 9113 registry
/// identifiers: SETTINGS_HEADER_TABLE_SIZE 0x1, SETTINGS_MAX_FRAME_SIZE
/// 0x5 and SETTINGS_MAX_HEADER_LIST_SIZE 0x6. Each 6-octet entry is a
/// 16-bit identifier and a 32-bit value, big-endian; the `n`-th entry
/// sets the parameter it names to its value and leaves the others as the
/// entries before it left them, and an entry with any other identifier
/// changes nothing. No entry leaves every parameter unset.
pub proof fn lemma_settings_registry(p: Seq<u8>, n: nat)
    requires
        n >= 1,
    ensures
        settings_of(p, 0) == (Settings {
            header_table_size: None,
            max_frame_size: None,
            max_header_list_size: None,
        }),
        ({
            let i = (n - 1) * 6;
            let id = p[i] * 256 + p[i + 1];
            let v = p[i + 2] * 16777216 + p[i + 3] * 65536 + p[i + 4] * 256 + p[i + 5];
            let before = settings_of(p, (n - 1) as nat);
            let after = settings_of(p, n);
            &&& id == 1 ==> (after.header_table_size matches Some(x) && x == v)
                && after.max_frame_size == before.max_frame_size && after.max_header_list_size
                == before.max_header_list_size
            &&& id == 5 ==> (after.max_frame_size matches Some(x) && x == v)
                && after.header_table_size == before.header_table_size
                && after.max_header_list_size == before.max_header_list_size
            &&& id == 6 ==> (after.max_header_list_size matches Some(x) && x == v)
                && after.header_table_size == before.header_table_size && after.max_frame_size
                == before.max_frame_size
            &&& id != 1 && id != 5 && id != 6 ==> after == before
        }),
{
    let i = (n - 1) * 6;
    let v = p[i + 2] * 16777216 + p[i + 3] * 65536 + p[i + 4] * 256 + p[i + 5];
    assert(0 <= v < 0x1_0000_0000);
}

/// The frame flag bits of RFC 9113, section 6: END_STREAM 0x1 (ACK 0x1
/// on SETTINGS and PING), END_HEADERS 0x4, PADDED 0x8 and PRIORITY 0x20,
/// each a single bit, and the bits this parser reads are distinct.
pub proof fn lemma_frame_flag_bits()
    ensures
        END_STREAM == 1 && ACK == 1 && END_HEADERS == 4 && PADDED == 8 && PRIORITY == 32,
        END_STREAM & END_HEADERS == 0 && END_STREAM & PADDED == 0 && END_STREAM & PRIORITY == 0
            && END_HEADERS & PADDED == 0 && END_HEADERS & PRIORITY == 0 && PADDED & PRIORITY == 0,
{
    assert(1u8 & 4u8 == 0 && 1u8 & 8u8 == 0 && 1u8 & 32u8 == 0 && 4u8 & 8u8 == 0 && 4u8 & 32u8
        == 0 && 8u8 & 32u8 == 0) by (bit_vector);
}

} // verus!
