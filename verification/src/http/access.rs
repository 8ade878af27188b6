//! Access records derived from the proxy's event stream: who asked for
//! what, what came back, how big it was, and whether the connection was
//! refused. No body byte is retained, only counted.

use vstd::prelude::*;

use super::poison::HttpPoison;
use super::proxy::HttpEvent;
use super::types::{authority_source, authority_spec, status_class_of, HttpVersion};
use crate::event::FlowSide;
use crate::text::{copy_bytes, utf8_str};
use vstd::utf8::{decode_utf8, valid_utf8};

verus! {

/// How an exchange ended.
#[derive(Debug, Clone, Copy, PartialEq, Eq, Structural)]
pub enum HttpAccessOutcome {
    /// A response completed.
    Completed,
    /// The connection ended before a response.
    NoResponse,
    /// The connection was poisoned, for this reason.
    Refused { reason: HttpPoison },
    /// The connection switched protocols.
    Switched,
}

/// One access-log line.
#[derive(Debug, Clone)]
pub struct HttpAccessRecord {
    pub method: Vec<u8>,
    pub path: Vec<u8>,
    /// The routing host, when the request's authority was acceptable.
    pub authority: Option<String>,
    pub version: HttpVersion,
    /// The final status, for a completed exchange.
    pub status: Option<u16>,
    /// Request body wire bytes, framing included.
    pub request_body_bytes: u64,
    /// Response body wire bytes, for a completed exchange.
    pub response_body_bytes: u64,
    pub outcome: HttpAccessOutcome,
}

impl HttpAccessRecord {
    /// The method as UTF-8 text.
    pub fn method_str(&self) -> (r: Option<&str>)
        ensures
            r matches Some(s) ==> valid_utf8(self.method@) && s@ == decode_utf8(self.method@),
            r is None ==> !valid_utf8(self.method@),
    {
        utf8_str(self.method.as_slice())
    }

    /// The request-target as UTF-8 text.
    pub fn path_str(&self) -> (r: Option<&str>)
        ensures
            r matches Some(s) ==> valid_utf8(self.path@) && s@ == decode_utf8(self.path@),
            r is None ==> !valid_utf8(self.path@),
    {
        utf8_str(self.path.as_slice())
    }

    /// The status class, when there is a status from 100 to 599.
    pub fn status_class(&self) -> (r: Option<u8>)
        ensures
            r == (match self.status {
                Some(s) => status_class_of(s),
                None => None,
            }),
    {
        match self.status {
            Some(s) => {
                let cls = s / 100;
                if 1 <= cls && cls <= 5 {
                    Some(cls as u8)
                } else {
                    None
                }
            },
            None => None,
        }
    }
}

/// A request awaiting its response, as plain values.
pub struct PendingView {
    pub method: Seq<u8>,
    pub path: Seq<u8>,
    pub authority: Option<Seq<char>>,
    pub version: HttpVersion,
    pub body_bytes: u64,
    /// Its body is over (or a response started).
    pub complete: bool,
}

/// A record as plain values.
pub struct RecordView {
    pub method: Seq<u8>,
    pub path: Seq<u8>,
    pub authority: Option<Seq<char>>,
    pub version: HttpVersion,
    pub status: Option<u16>,
    pub request_body_bytes: u64,
    pub response_body_bytes: u64,
    pub outcome: HttpAccessOutcome,
}

/// The log's state as plain values.
pub struct LogView {
    pub pending: Seq<PendingView>,
    pub response_bytes: u64,
    pub status: Option<u16>,
    pub switched: bool,
}

/// The plain values of a record.
pub open spec fn record_view(r: HttpAccessRecord) -> RecordView {
    RecordView {
        method: r.method@,
        path: r.path@,
        authority: match r.authority {
            Some(a) => Some(a@),
            None => None,
        },
        version: r.version,
        status: r.status,
        request_body_bytes: r.request_body_bytes,
        response_body_bytes: r.response_body_bytes,
        outcome: r.outcome,
    }
}

/// The plain values of a run of records.
pub open spec fn records_view(rs: Seq<HttpAccessRecord>) -> Seq<RecordView> {
    rs.map_values(|r: HttpAccessRecord| record_view(r))
}

/// A counter plus a byte count, stopping at `u64::MAX`.
pub open spec fn add_bytes(c: u64, n: nat) -> u64 {
    if c + n > u64::MAX {
        u64::MAX
    } else {
        (c + n) as u64
    }
}

/// Index of the oldest request whose body is still open.
pub open spec fn first_open(ps: Seq<PendingView>, i: int) -> Option<int>
    decreases ps.len() - i,
{
    if i < 0 || i >= ps.len() {
        None
    } else if !ps[i].complete {
        Some(i)
    } else {
        first_open(ps, i + 1)
    }
}

/// Request body bytes go to the oldest request whose body is open.
pub open spec fn count_request_bytes(ps: Seq<PendingView>, n: nat) -> Seq<PendingView> {
    match first_open(ps, 0) {
        Some(i) => ps.update(i, PendingView { body_bytes: add_bytes(ps[i].body_bytes, n), ..ps[i] }),
        None => ps,
    }
}

/// The record a finished exchange makes: status and response bytes
/// only for a completed one.
pub open spec fn make_record(lv: LogView, p: PendingView, outcome: HttpAccessOutcome) -> RecordView {
    let completed = outcome is Completed;
    RecordView {
        method: p.method,
        path: p.path,
        authority: p.authority,
        version: p.version,
        status: if completed {
            lv.status
        } else {
            None
        },
        request_body_bytes: p.body_bytes,
        response_body_bytes: if completed {
            lv.response_bytes
        } else {
            0
        },
        outcome,
    }
}

/// The routing host of a request head, when its authority is
/// acceptable.
pub open spec fn head_authority(path: Seq<u8>, hs: super::types::HeaderSeq) -> Option<Seq<char>> {
    match authority_source(path, hs) {
        Ok(raw) => match authority_spec(raw) {
            Ok((h, _)) => Some(h),
            Err(_) => None,
        },
        Err(_) => None,
    }
}

/// What one event does to the log: a request head queues a request; a
/// final response head marks the oldest request answered and restarts
/// the response count; body and trailer bytes are counted; the end of
/// a request body closes it; the end of a response pairs it with the
/// oldest request into a completed record; a protocol switch is noted.
pub open spec fn observe_spec(lv: LogView, ev: HttpEvent) -> (LogView, Seq<RecordView>) {
    match ev {
        HttpEvent::RequestHead(h) => (
            LogView {
                pending: lv.pending.push(
                    PendingView {
                        method: h.method@,
                        path: h.path@,
                        authority: head_authority(h.path@, h.headers.deep_view()),
                        version: h.version,
                        body_bytes: 0,
                        complete: false,
                    },
                ),
                ..lv
            },
            Seq::empty(),
        ),
        HttpEvent::ResponseHead(h) => if h.interim {
            (lv, Seq::empty())
        } else {
            (
                LogView {
                    pending: if lv.pending.len() > 0 {
                        lv.pending.update(0, PendingView { complete: true, ..lv.pending[0] })
                    } else {
                        lv.pending
                    },
                    response_bytes: 0,
                    status: Some(h.status),
                    ..lv
                },
                Seq::empty(),
            )
        },
        HttpEvent::Body { dir, raw, .. } => match dir {
            FlowSide::Initiator => (
                LogView { pending: count_request_bytes(lv.pending, raw@.len()), ..lv },
                Seq::empty(),
            ),
            FlowSide::Responder => (
                LogView { response_bytes: add_bytes(lv.response_bytes, raw@.len()), ..lv },
                Seq::empty(),
            ),
        },
        HttpEvent::Trailers { dir, raw, .. } => match dir {
            FlowSide::Initiator => (
                LogView { pending: count_request_bytes(lv.pending, raw@.len()), ..lv },
                Seq::empty(),
            ),
            FlowSide::Responder => (
                LogView { response_bytes: add_bytes(lv.response_bytes, raw@.len()), ..lv },
                Seq::empty(),
            ),
        },
        HttpEvent::End { dir } => match dir {
            FlowSide::Initiator => (
                LogView {
                    pending: match first_open(lv.pending, 0) {
                        Some(i) => lv.pending.update(i, PendingView { complete: true, ..lv.pending[i] }),
                        None => lv.pending,
                    },
                    ..lv
                },
                Seq::empty(),
            ),
            FlowSide::Responder => (
                LogView {
                    pending: if lv.pending.len() > 0 {
                        lv.pending.drop_first()
                    } else {
                        lv.pending
                    },
                    response_bytes: 0,
                    status: None,
                    ..lv
                },
                if lv.pending.len() > 0 {
                    seq![make_record(lv, lv.pending[0], HttpAccessOutcome::Completed)]
                } else {
                    Seq::empty()
                },
            ),
        },
        HttpEvent::SwitchProtocols { .. } => (LogView { switched: true, ..lv }, Seq::empty()),
    }
}

/// How the connection's remaining requests end at close: refused when
/// poisoned, switched after a protocol switch, else unanswered.
pub open spec fn finish_outcome(poison: Option<HttpPoison>, switched: bool) -> HttpAccessOutcome {
    match poison {
        Some(reason) => HttpAccessOutcome::Refused { reason },
        None => if switched {
            HttpAccessOutcome::Switched
        } else {
            HttpAccessOutcome::NoResponse
        },
    }
}

#[derive(Debug, Clone)]
struct Pending {
    method: Vec<u8>,
    path: Vec<u8>,
    authority: Option<String>,
    version: HttpVersion,
    body_bytes: u64,
    complete: bool,
}

spec fn pending_view(p: Pending) -> PendingView {
    PendingView {
        method: p.method@,
        path: p.path@,
        authority: match p.authority {
            Some(a) => Some(a@),
            None => None,
        },
        version: p.version,
        body_bytes: p.body_bytes,
        complete: p.complete,
    }
}

/// Derives access records from an [`HttpEvent`] stream.
#[derive(Debug, Clone)]
pub struct HttpAccessLog {
    pending: Vec<Pending>,
    response_bytes: u64,
    status: Option<u16>,
    switched: bool,
}

impl View for HttpAccessLog {
    type V = LogView;

    closed spec fn view(&self) -> LogView {
        LogView {
            pending: self.pending@.map_values(|p: Pending| pending_view(p)),
            response_bytes: self.response_bytes,
            status: self.status,
            switched: self.switched,
        }
    }
}

fn push_record(out: &mut Vec<HttpAccessRecord>, r: HttpAccessRecord)
    ensures
        final(out)@ == old(out)@.push(r),
        records_view(final(out)@) == records_view(old(out)@).push(record_view(r)),
{
    out.push(r);
    assert(records_view(out@) =~= records_view(old(out)@).push(record_view(r)));
}

impl HttpAccessLog {
    /// An empty log.
    pub fn new() -> (l: Self)
        ensures
            l@ == (LogView { pending: Seq::empty(), response_bytes: 0, status: None, switched: false }),
    {
        let l = HttpAccessLog { pending: Vec::new(), response_bytes: 0, status: None, switched: false };
        assert(l@.pending =~= Seq::<PendingView>::empty());
        l
    }

    fn first_open_index(&self) -> (r: Option<usize>)
        ensures
            r matches Some(i) ==> first_open(self@.pending, 0) == Some(i as int) && i < self@.pending.len(),
            r is None ==> first_open(self@.pending, 0) is None,
    {
        let mut i: usize = 0;
        while i < self.pending.len()
            invariant
                i <= self@.pending.len(),
                self@.pending.len() == self.pending@.len(),
                first_open(self@.pending, 0) == first_open(self@.pending, i as int),
            decreases self@.pending.len() - i,
        {
            assert(self@.pending[i as int] == pending_view(self.pending@[i as int]));
            if !self.pending[i].complete {
                return Some(i);
            }
            i += 1;
        }
        None
    }

    fn count_request(&mut self, n: usize)
        ensures
            final(self)@ == (LogView { pending: count_request_bytes(old(self)@.pending, n as nat), ..old(self)@ }),
    {
        match self.first_open_index() {
            Some(i) => {
                let ghost before = self@;
                let mut p = self.pending.remove(i);
                p.body_bytes = p.body_bytes.saturating_add(n as u64);
                self.pending.insert(i, p);
                assert(self@.pending =~= before.pending.update(
                    i as int,
                    PendingView { body_bytes: add_bytes(before.pending[i as int].body_bytes, n as nat), ..before.pending[i as int] },
                ));
            },
            None => {},
        }
    }

    /// Take one event into account, appending the records it
    /// completes, as [`observe_spec`] says.
    pub fn observe(&mut self, event: &HttpEvent, out: &mut Vec<HttpAccessRecord>)
        ensures
            final(self)@ == observe_spec(old(self)@, *event).0,
            final(out)@.take(old(out)@.len() as int) == old(out)@,
            records_view(final(out)@) == records_view(old(out)@) + observe_spec(old(self)@, *event).1,
    {
        let ghost o0 = out@;
        match event {
            HttpEvent::RequestHead(head) => {
                let authority = match head.authority() {
                    Ok(a) => Some(a.host),
                    Err(_) => None,
                };
                let ghost before = self@;
                self.pending.push(
                    Pending {
                        method: copy_bytes(head.method.as_slice()),
                        path: copy_bytes(head.path.as_slice()),
                        authority,
                        version: head.version,
                        body_bytes: 0,
                        complete: false,
                    },
                );
                assert(self@.pending =~= observe_spec(before, *event).0.pending);
                assert(records_view(out@) =~= records_view(o0) + Seq::<RecordView>::empty());
            },
            HttpEvent::ResponseHead(head) => {
                if !head.interim {
                    self.response_bytes = 0;
                    let ghost before = self@;
                    if self.pending.len() > 0 {
                        let mut p = self.pending.remove(0);
                        p.complete = true;
                        self.pending.insert(0, p);
                    }
                    self.status = Some(head.status);
                    assert(self@.pending =~= observe_spec(old(self)@, *event).0.pending);
                }
                assert(records_view(out@) =~= records_view(o0) + Seq::<RecordView>::empty());
            },
            HttpEvent::Body { dir, raw, .. } => {
                match dir {
                    FlowSide::Initiator => self.count_request(raw.len()),
                    FlowSide::Responder => {
                        self.response_bytes = self.response_bytes.saturating_add(raw.len() as u64);
                    },
                }
                assert(records_view(out@) =~= records_view(o0) + Seq::<RecordView>::empty());
            },
            HttpEvent::Trailers { dir, raw, .. } => {
                match dir {
                    FlowSide::Initiator => self.count_request(raw.len()),
                    FlowSide::Responder => {
                        self.response_bytes = self.response_bytes.saturating_add(raw.len() as u64);
                    },
                }
                assert(records_view(out@) =~= records_view(o0) + Seq::<RecordView>::empty());
            },
            HttpEvent::End { dir } => {
                match dir {
                    FlowSide::Initiator => {
                        match self.first_open_index() {
                            Some(i) => {
                                let ghost before = self@;
                                let mut p = self.pending.remove(i);
                                p.complete = true;
                                self.pending.insert(i, p);
                                assert(self@.pending =~= before.pending.update(
                                    i as int,
                                    PendingView { complete: true, ..before.pending[i as int] },
                                ));
                            },
                            None => {},
                        }
                        assert(records_view(out@) =~= records_view(o0) + Seq::<RecordView>::empty());
                    },
                    FlowSide::Responder => {
                        let ghost before = self@;
                        let popped = if self.pending.len() > 0 {
                            Some(self.pending.remove(0))
                        } else {
                            None
                        };
                        match popped {
                            Some(p) => {
                                assert(self@.pending =~= before.pending.drop_first());
                                assert(pending_view(p) == before.pending[0]);
                                let r = self.record(p, HttpAccessOutcome::Completed);
                                push_record(out, r);
                                assert(records_view(out@) =~= records_view(o0) + seq![
                                    make_record(before, before.pending[0], HttpAccessOutcome::Completed),
                                ]);
                            },
                            None => {
                                assert(records_view(out@) =~= records_view(o0) + Seq::<RecordView>::empty());
                            },
                        }
                        self.response_bytes = 0;
                        self.status = None;
                    },
                }
            },
            HttpEvent::SwitchProtocols { .. } => {
                self.switched = true;
                assert(records_view(out@) =~= records_view(o0) + Seq::<RecordView>::empty());
            },
        }
        assert(out@.take(o0.len() as int) =~= o0);
    }

    /// At connection close, every request still pending becomes a
    /// record with the close's outcome; the log is then empty.
    pub fn finish(&mut self, poison: Option<HttpPoison>, out: &mut Vec<HttpAccessRecord>)
        ensures
            final(self)@ == (LogView { pending: Seq::empty(), response_bytes: 0, status: None, switched: false }),
            final(out)@.take(old(out)@.len() as int) == old(out)@,
            records_view(final(out)@) == records_view(old(out)@) + old(self)@.pending.map_values(
                |p: PendingView| make_record(old(self)@, p, finish_outcome(poison, old(self)@.switched)),
            ),
    {
        let outcome = match poison {
            Some(reason) => HttpAccessOutcome::Refused { reason },
            None => if self.switched {
                HttpAccessOutcome::Switched
            } else {
                HttpAccessOutcome::NoResponse
            },
        };
        let ghost l0 = self@;
        let ghost o0 = out@;
        let ghost all = l0.pending.map_values(|p: PendingView| make_record(l0, p, outcome));
        let n0 = self.pending.len();
        assert(l0.pending.len() == n0);
        assert(l0.pending.skip(0) =~= l0.pending);
        assert(all.take(0) =~= Seq::<RecordView>::empty());
        assert(records_view(out@) =~= records_view(o0) + all.take(0));
        let mut k: usize = 0;
        while self.pending.len() > 0
            invariant
                self@.response_bytes == l0.response_bytes,
                self@.status == l0.status,
                self@.switched == l0.switched,
                k <= l0.pending.len(),
                l0.pending.len() <= usize::MAX,
                self@.pending == l0.pending.skip(k as int),
                out@.len() >= o0.len(),
                out@.take(o0.len() as int) == o0,
                records_view(out@) == records_view(o0) + all.take(k as int),
                all == l0.pending.map_values(|p: PendingView| make_record(l0, p, outcome)),
                outcome == finish_outcome(poison, l0.switched),
            decreases self@.pending.len(),
        {
            let ghost before = self@;
            let ghost ob = out@;
            assert(before.pending[0] == pending_view(self.pending@[0]));
            assert(l0.pending.skip(k as int)[0] == l0.pending[k as int]);
            let popped = self.pending.remove(0);
            match Some(popped) {
                Some(p) => {
                    assert(self@.pending =~= before.pending.drop_first());
                    assert(pending_view(p) == l0.pending[k as int]);
                    let r = self.record(p, outcome);
                    assert(record_view(r) == make_record(l0, l0.pending[k as int], outcome));
                    assert(all[k as int] == make_record(l0, l0.pending[k as int], outcome));
                    push_record(out, r);
                    assert(all.take(k + 1) =~= all.take(k as int).push(all[k as int]));
                    assert(records_view(out@) =~= records_view(o0) + all.take(k + 1));
                    assert(out@.take(o0.len() as int) =~= ob.take(o0.len() as int));
                    assert(l0.pending.skip(k + 1) =~= l0.pending.skip(k as int).drop_first());
                    k += 1;
                },
                None => {},
            }
        }
        assert(all.take(k as int) =~= all);
        self.response_bytes = 0;
        self.status = None;
        self.switched = false;
        assert(self@.pending =~= Seq::<PendingView>::empty());
    }

    fn record(&self, p: Pending, outcome: HttpAccessOutcome) -> (r: HttpAccessRecord)
        ensures
            record_view(r) == make_record(self@, pending_view(p), outcome),
    {
        let completed = match outcome {
            HttpAccessOutcome::Completed => true,
            _ => false,
        };
        HttpAccessRecord {
            method: p.method,
            path: p.path,
            authority: p.authority,
            version: p.version,
            status: if completed {
                self.status
            } else {
                None
            },
            request_body_bytes: p.body_bytes,
            response_body_bytes: if completed {
                self.response_bytes
            } else {
                0
            },
            outcome,
        }
    }
}

impl Default for HttpAccessLog {
    fn default() -> (l: Self)
        ensures
            l@ == (LogView { pending: Seq::empty(), response_bytes: 0, status: None, switched: false }),
    {
        HttpAccessLog::new()
    }
}

} // verus!
