//! [`HttpExchangeParser`]: stitches each request to the response that
//! answers it on the same flow, and emits one [`HttpExchange`] per
//! logical exchange.

use std::collections::VecDeque;
use std::time::Duration;

use vstd::prelude::*;

use crate::event::{duration_from_nanos, duration_of_nanos, ts_nanos, Timestamp};

use super::parser::{MessageView, ParseOutput, StateView};
use super::session::{drain_spec, message_view, HttpMessage, HttpParser};
use super::types::{status_class_of, HttpConfig, HttpRequest, HttpResponse};

verus! {

/// Outcome of an observed HTTP exchange.
#[derive(Debug, Clone, Copy, PartialEq, Eq, Structural)]
pub enum HttpOutcome {
    /// Request and matching response received.
    Completed,
    /// Request observed, but the flow ended before a response.
    NoResponse,
    /// The flow was reset mid-exchange.
    Reset,
}

/// One HTTP request and the response to it, when one came.
#[derive(Debug, Clone)]
pub struct HttpExchange {
    pub request: HttpRequest,
    pub response: Option<HttpResponse>,
    pub elapsed: Option<Duration>,
    pub request_ts: Timestamp,
    pub response_ts: Option<Timestamp>,
    pub outcome: HttpOutcome,
}

impl HttpExchange {
    /// The response's status class, `status / 100`, when there is a
    /// response with a status from 100 to 599.
    pub fn status_class(&self) -> (r: Option<u8>)
        ensures
            r == (match self.response {
                Some(resp) => status_class_of(resp.status),
                None => None,
            }),
    {
        match &self.response {
            Some(r) => r.status_class(),
            None => None,
        }
    }

    /// The exchange completed with a `2xx` response.
    pub fn is_success(&self) -> (b: bool)
        ensures
            b == (self.response matches Some(resp) && status_class_of(resp.status) == Some(2u8)),
    {
        match self.status_class() {
            Some(c) => c == 2,
            None => false,
        }
    }

    /// The exchange completed with a `4xx` or `5xx` response.
    pub fn is_error(&self) -> (b: bool)
        ensures
            b == (self.response matches Some(resp) && (status_class_of(resp.status) == Some(4u8)
                || status_class_of(resp.status) == Some(5u8))),
    {
        match self.status_class() {
            Some(c) => c == 4 || c == 5,
            None => false,
        }
    }
}

/// The requests among parsed messages, in order.
pub open spec fn requests_of(ms: Seq<MessageView>) -> Seq<MessageView>
    decreases ms.len(),
{
    if ms.len() == 0 {
        Seq::empty()
    } else {
        let p = requests_of(ms.drop_last());
        if ms.last().0.0 {
            p.push(ms.last())
        } else {
            p
        }
    }
}

/// The responses among parsed messages, in order.
pub open spec fn responses_of(ms: Seq<MessageView>) -> Seq<MessageView>
    decreases ms.len(),
{
    if ms.len() == 0 {
        Seq::empty()
    } else {
        let p = responses_of(ms.drop_last());
        if !ms.last().0.0 {
            p.push(ms.last())
        } else {
            p
        }
    }
}

/// `q` is `base` with each of `reqs` queued after it, stamped `ts`.
pub open spec fn queued(
    base: Seq<(HttpRequest, Timestamp)>,
    q: Seq<(HttpRequest, Timestamp)>,
    reqs: Seq<MessageView>,
    ts: Timestamp,
) -> bool {
    &&& q.len() == base.len() + reqs.len()
    &&& q.take(base.len() as int) == base
    &&& forall|j: int|
        0 <= j < reqs.len() ==> ParseOutput::Request(#[trigger] q[base.len() + j].0)@ == reqs[j]
            && q[base.len() + j].1 == ts
}

/// Nanoseconds from `from` to `to`, zero if the clock went backwards.
pub open spec fn elapsed_spec(from: Timestamp, to: Timestamp) -> u64 {
    if ts_nanos(to) >= ts_nanos(from) {
        (ts_nanos(to) - ts_nanos(from)) as u64
    } else {
        0
    }
}

/// `out` is `base` followed by one completed exchange per answered
/// request: the `j`-th queued request paired with the `j`-th response,
/// for as many as both have. With `ts`, the response carries that
/// timestamp and the time elapsed since the request; without, neither.
pub open spec fn answered(
    base: Seq<HttpExchange>,
    out: Seq<HttpExchange>,
    pending: Seq<(HttpRequest, Timestamp)>,
    resps: Seq<MessageView>,
    ts: Option<Timestamp>,
) -> bool {
    let k = if resps.len() < pending.len() {
        resps.len()
    } else {
        pending.len()
    };
    &&& out.len() == base.len() + k
    &&& out.take(base.len() as int) == base
    &&& forall|j: int|
        0 <= j < k ==> {
            let x = #[trigger] out[base.len() + j];
            &&& x.request == pending[j].0
            &&& x.request_ts == pending[j].1
            &&& x.response matches Some(r) && ParseOutput::Response(r)@ == resps[j]
            &&& x.response_ts == ts
            &&& x.elapsed == match ts {
                Some(t) => Some(duration_from_nanos(elapsed_spec(pending[j].1, t))),
                None => None,
            }
            &&& x.outcome == HttpOutcome::Completed
        }
}

/// `out` is `base` followed by one exchange with no response per entry
/// of `q`, with the given outcome.
pub open spec fn unanswered(
    base: Seq<HttpExchange>,
    out: Seq<HttpExchange>,
    q: Seq<(HttpRequest, Timestamp)>,
    outcome: HttpOutcome,
) -> bool {
    &&& out.len() == base.len() + q.len()
    &&& out.take(base.len() as int) == base
    &&& forall|j: int|
        0 <= j < q.len() ==> {
            let x = #[trigger] out[base.len() + j];
            &&& x.request == q[j].0
            &&& x.request_ts == q[j].1
            &&& x.response is None
            &&& x.response_ts is None
            &&& x.elapsed is None
            &&& x.outcome == outcome
        }
}

fn elapsed_nanos(from: Timestamp, to: Timestamp) -> (n: u64)
    ensures
        n == elapsed_spec(from, to),
{
    let a: u64 = from.sec as u64 * 1_000_000_000 + from.nsec as u64;
    let b: u64 = to.sec as u64 * 1_000_000_000 + to.nsec as u64;
    if b >= a {
        b - a
    } else {
        0
    }
}

/// Stitches requests to responses on one flow. Pipelined requests are
/// matched to responses first in, first out; a flow that ends with
/// requests still waiting reports them with no response, and a reset
/// reports the ones in flight as reset.
#[derive(Debug, Clone)]
pub struct HttpExchangeParser {
    inner: HttpParser,
    pending: VecDeque<(HttpRequest, Timestamp)>,
    reset: VecDeque<(HttpRequest, Timestamp)>,
}

impl HttpExchangeParser {
    /// The per-flow HTTP parser underneath.
    pub closed spec fn parser(&self) -> HttpParser {
        self.inner
    }

    /// Requests waiting for a response, oldest first.
    pub closed spec fn pending(&self) -> Seq<(HttpRequest, Timestamp)> {
        self.pending@
    }

    /// Requests that were in flight when the flow was reset.
    pub closed spec fn reset_queue(&self) -> Seq<(HttpRequest, Timestamp)> {
        self.reset@
    }

    /// The invariant: the parser underneath is sound.
    pub open spec fn wf(&self) -> bool {
        self.parser().wf()
    }

    /// A parser with the default configuration.
    pub fn new() -> (p: Self)
        ensures
            p.wf(),
            p.parser().fresh(),
            p.parser().spec_config().max_buffer == 1048576,
            p.parser().spec_config().max_headers == 64,
            p.pending().len() == 0,
            p.reset_queue().len() == 0,
    {
        HttpExchangeParser {
            inner: HttpParser::default(),
            pending: VecDeque::new(),
            reset: VecDeque::new(),
        }
    }

    /// A parser with an explicit configuration.
    pub fn with_config(config: HttpConfig) -> (p: Self)
        ensures
            p.wf(),
            p.parser().fresh(),
            p.parser().spec_config() == config,
            p.pending().len() == 0,
            p.reset_queue().len() == 0,
    {
        HttpExchangeParser {
            inner: HttpParser::with_config(config),
            pending: VecDeque::new(),
            reset: VecDeque::new(),
        }
    }

    /// Feed request-direction bytes observed at `ts`: each request they
    /// complete waits for its response. Nothing is emitted.
    pub fn feed_initiator(&mut self, bytes: &[u8], ts: Timestamp)
        requires
            old(self).wf(),
        ensures
            final(self).wf(),
            final(self).reset_queue() == old(self).reset_queue(),
            final(self).parser().spec_config() == old(self).parser().spec_config(),
            final(self).parser().side(false) == old(self).parser().side(false),
            bytes@.len() == 0 ==> final(self).parser().side(true) == old(self).parser().side(true)
                && final(self).pending() == old(self).pending(),
            bytes@.len() > 0 ==> ({
                let (s2, b2, ms) = drain_spec(
                    old(self).parser().side(true).0,
                    old(self).parser().side(true).1 + bytes@,
                    true,
                    old(self).parser().spec_config().max_buffer,
                    old(self).parser().spec_config().max_headers,
                );
                final(self).parser().side(true) == (s2, b2) && queued(
                    old(self).pending(),
                    final(self).pending(),
                    requests_of(ms),
                    ts,
                )
            }),
    {
        let mut msgs: Vec<HttpMessage> = Vec::new();
        self.inner.feed_initiator(bytes, &mut msgs);
        let ghost all = msgs@;
        let ghost base = self.pending@;
        let ghost ms = if bytes@.len() > 0 {
            drain_spec(
                old(self).parser().side(true).0,
                old(self).parser().side(true).1 + bytes@,
                true,
                old(self).parser().spec_config().max_buffer,
                old(self).parser().spec_config().max_headers,
            ).2
        } else {
            Seq::empty()
        };
        proof {
            assert forall|j: int| 0 <= j < ms.len() implies message_view(#[trigger] all[j]) == Some(ms[j]) by {
                assert(all[j] == all[0 + j]);
            }
            if bytes@.len() == 0 {
                assert(all.len() == 0);
            }
            assert(base.take(base.len() as int) =~= base);
            assert(ms.take(0) =~= Seq::<MessageView>::empty());
        }
        let ghost inner_after = self.inner;
        let ghost mut i: int = 0;
        while msgs.len() > 0
            invariant
                all.len() == ms.len(),
                forall|j: int| 0 <= j < ms.len() ==> message_view(#[trigger] all[j])
                    == Some(ms[j]),
                0 <= i,
                i + msgs@.len() == all.len(),
                msgs@ == all.skip(i),
                queued(base, self.pending@, requests_of(ms.take(i)), ts),
                self.inner == inner_after,
                self.reset@ == old(self).reset@,
            decreases msgs@.len(),
        {
            let msg = msgs.remove(0);
            proof {
                assert(msg == all[i]);
                assert(ms.take(i + 1).drop_last() =~= ms.take(i));
                assert(ms.take(i + 1).last() == ms[i]);
            }
            match msg {
                HttpMessage::Request(req) => {
                    let ghost before = self.pending@;
                    self.pending.push_back((req, ts));
                    proof {
                        let reqs = requests_of(ms.take(i));
                        assert(self.pending@.take(base.len() as int) =~= before.take(base.len() as int));
                        assert forall|j: int| 0 <= j < reqs.len() + 1 implies ParseOutput::Request(
                            #[trigger] self.pending@[base.len() + j].0,
                        )@ == reqs.push(ms[i])[j] && self.pending@[base.len() + j].1 == ts by {
                            if j < reqs.len() {
                                assert(self.pending@[base.len() + j] == before[base.len() + j]);
                            }
                        }
                    }
                },
                _ => {},
            }
            proof {
                assert(msgs@ =~= all.skip(i + 1));
            }
            proof {
                i = i + 1;
            }
        }
        proof {
            assert(ms.take(ms.len() as int) =~= ms);
        }
    }

    /// Pair each response among `msgs` with the oldest waiting request.
    fn answer(&mut self, msgs: Vec<HttpMessage>, Ghost(ms): Ghost<Seq<MessageView>>, ts: Option<Timestamp>, out: &mut Vec<HttpExchange>)
        requires
            msgs@.len() == ms.len(),
            forall|j: int| 0 <= j < ms.len() ==> message_view(#[trigger] msgs@[j]) == Some(ms[j]),
        ensures
            final(self).inner == old(self).inner,
            final(self).reset@ == old(self).reset@,
            answered(old(out)@, final(out)@, old(self).pending@, responses_of(ms), ts),
            final(self).pending@ == old(self).pending@.skip(
                if responses_of(ms).len() < old(self).pending@.len() {
                    responses_of(ms).len() as int
                } else {
                    old(self).pending@.len() as int
                },
            ),
    {
        let mut msgs = msgs;
        let ghost all = msgs@;
        let ghost p0 = self.pending@;
        let ghost base = out@;
        proof {
            assert(base.take(base.len() as int) =~= base);
            assert(ms.take(0) =~= Seq::<MessageView>::empty());
            assert(p0.skip(0) =~= p0);
        }
        let ghost mut i: int = 0;
        while msgs.len() > 0
            invariant
                all.len() == ms.len(),
                forall|j: int| 0 <= j < ms.len() ==> message_view(#[trigger] all[j]) == Some(ms[j]),
                0 <= i,
                i + msgs@.len() == all.len(),
                msgs@ == all.skip(i),
                self.inner == old(self).inner,
                self.reset@ == old(self).reset@,
                p0 == old(self).pending@,
                base == old(out)@,
                answered(base, out@, p0, responses_of(ms.take(i)), ts),
                self.pending@ == p0.skip(
                    if responses_of(ms.take(i)).len() < p0.len() {
                        responses_of(ms.take(i)).len() as int
                    } else {
                        p0.len() as int
                    },
                ),
            decreases msgs@.len(),
        {
            let msg = msgs.remove(0);
            let ghost rs = responses_of(ms.take(i));
            let ghost k = if rs.len() < p0.len() {
                rs.len() as int
            } else {
                p0.len() as int
            };
            proof {
                assert(msg == all[i]);
                assert(ms.take(i + 1).drop_last() =~= ms.take(i));
                assert(ms.take(i + 1).last() == ms[i]);
            }
            match msg {
                HttpMessage::Response(resp) => {
                    match self.pending.pop_front() {
                        Some(entry) => {
                            let (req, req_ts) = entry;
                            let elapsed = match ts {
                                Some(t) => Some(duration_of_nanos(elapsed_nanos(req_ts, t))),
                                None => None,
                            };
                            let ghost before = out@;
                            out.push(
                                HttpExchange {
                                    request: req,
                                    response: Some(resp),
                                    elapsed,
                                    request_ts: req_ts,
                                    response_ts: ts,
                                    outcome: HttpOutcome::Completed,
                                },
                            );
                            proof {
                                assert(k == rs.len());
                                assert(entry == p0[k]);
                                assert(p0.skip(k).drop_first() =~= p0.skip(k + 1));
                                let nrs = rs.push(ms[i]);
                                assert(out@.take(base.len() as int) =~= before.take(base.len() as int));
                                assert forall|j: int| 0 <= j < k + 1 implies {
                                    let x = #[trigger] out@[base.len() + j];
                                    &&& x.request == p0[j].0
                                    &&& x.request_ts == p0[j].1
                                    &&& x.response matches Some(r) && ParseOutput::Response(r)@ == nrs[j]
                                    &&& x.response_ts == ts
                                    &&& x.elapsed == match ts {
                                        Some(t) => Some(duration_from_nanos(elapsed_spec(p0[j].1, t))),
                                        None => None,
                                    }
                                    &&& x.outcome == HttpOutcome::Completed
                                } by {
                                    if j < k {
                                        assert(out@[base.len() + j] == before[base.len() + j]);
                                    }
                                }
                            }
                        },
                        None => {
                            proof {
                                assert(k == p0.len());
                            }
                        },
                    }
                },
                _ => {},
            }
            proof {
                assert(msgs@ =~= all.skip(i + 1));
            }
            proof {
                i = i + 1;
            }
        }
        proof {
            assert(ms.take(ms.len() as int) =~= ms);
        }
    }

    /// Report every entry of `q` as an exchange with no response.
    fn flush(q: &mut VecDeque<(HttpRequest, Timestamp)>, outcome: HttpOutcome, out: &mut Vec<HttpExchange>)
        ensures
            final(q)@.len() == 0,
            unanswered(old(out)@, final(out)@, old(q)@, outcome),
    {
        let ghost q0 = q@;
        let ghost base = out@;
        proof {
            assert(base.take(base.len() as int) =~= base);
            assert(q0.skip(0) =~= q0);
        }
        let ghost mut i: int = 0;
        while q.len() > 0
            invariant
                0 <= i,
                i + q@.len() == q0.len(),
                q@ == q0.skip(i),
                base == old(out)@,
                q0 == old(q)@,
                unanswered(base, out@, q0.take(i), outcome),
            decreases q@.len(),
        {
            let ghost before = out@;
            match q.pop_front() {
                Some(entry) => {
                    let (req, ts) = entry;
                    out.push(
                        HttpExchange {
                            request: req,
                            response: None,
                            elapsed: None,
                            request_ts: ts,
                            response_ts: None,
                            outcome,
                        },
                    );
                    proof {
                        assert(entry == q0[i]);
                        assert(q@ =~= q0.skip(i + 1));
                        assert(out@.take(base.len() as int) =~= before.take(base.len() as int));
                        assert forall|j: int| 0 <= j < i + 1 implies {
                            let x = #[trigger] out@[base.len() + j];
                            &&& x.request == q0.take(i + 1)[j].0
                            &&& x.request_ts == q0.take(i + 1)[j].1
                            &&& x.response is None
                            &&& x.response_ts is None
                            &&& x.elapsed is None
                            &&& x.outcome == outcome
                        } by {
                            if j < i {
                                assert(out@[base.len() + j] == before[base.len() + j]);
                            }
                        }
                    }
                },
                None => {},
            }
            proof {
                i = i + 1;
            }
        }
        proof {
            assert(q0.take(q0.len() as int) =~= q0);
        }
    }

    /// Feed response-direction bytes observed at `ts`: each response
    /// they complete answers the oldest waiting request, and the pair is
    /// emitted, with the time since the request. A response with no
    /// request waiting is dropped.
    pub fn feed_responder(&mut self, bytes: &[u8], ts: Timestamp, out: &mut Vec<HttpExchange>)
        requires
            old(self).wf(),
        ensures
            final(self).wf(),
            final(self).reset_queue() == old(self).reset_queue(),
            final(self).parser().spec_config() == old(self).parser().spec_config(),
            final(self).parser().side(true) == old(self).parser().side(true),
            bytes@.len() == 0 ==> final(self).parser().side(false) == old(self).parser().side(false)
                && final(self).pending() == old(self).pending() && final(out)@ == old(out)@,
            bytes@.len() > 0 ==> ({
                let (s2, b2, ms) = drain_spec(
                    old(self).parser().side(false).0,
                    old(self).parser().side(false).1 + bytes@,
                    false,
                    old(self).parser().spec_config().max_buffer,
                    old(self).parser().spec_config().max_headers,
                );
                let rs = responses_of(ms);
                &&& final(self).parser().side(false) == (s2, b2)
                &&& answered(old(out)@, final(out)@, old(self).pending(), rs, Some(ts))
                &&& final(self).pending() == old(self).pending().skip(
                    if rs.len() < old(self).pending().len() {
                        rs.len() as int
                    } else {
                        old(self).pending().len() as int
                    },
                )
            }),
    {
        let mut msgs: Vec<HttpMessage> = Vec::new();
        self.inner.feed_responder(bytes, &mut msgs);
        let ghost ms = if bytes@.len() > 0 {
            drain_spec(
                old(self).parser().side(false).0,
                old(self).parser().side(false).1 + bytes@,
                false,
                old(self).parser().spec_config().max_buffer,
                old(self).parser().spec_config().max_headers,
            ).2
        } else {
            Seq::empty()
        };
        proof {
            assert forall|j: int| 0 <= j < ms.len() implies message_view(#[trigger] msgs@[j]) == Some(ms[j]) by {
                assert(msgs@[j] == msgs@[0 + j]);
            }
            if bytes@.len() == 0 {
                assert(responses_of(ms) =~= Seq::<MessageView>::empty());
                assert(old(self).pending@.skip(0) =~= old(self).pending@);
            }
        }
        self.answer(msgs, Ghost(ms), Some(ts), out);
        proof {
            if bytes@.len() == 0 {
                assert(out@ =~= old(out)@.take(old(out)@.len() as int));
            }
        }
    }

    /// End of the request direction; a request cut off by the close is
    /// dropped.
    pub fn fin_initiator(&mut self)
        requires
            old(self).wf(),
        ensures
            final(self).wf(),
            final(self).pending() == old(self).pending(),
            final(self).reset_queue() == old(self).reset_queue(),
            final(self).parser().spec_config() == old(self).parser().spec_config(),
            final(self).parser().side(false) == old(self).parser().side(false),
            final(self).parser().side(true).0 is Desynced,
    {
        let mut dropped: Vec<HttpMessage> = Vec::new();
        self.inner.fin_initiator(&mut dropped);
    }

    /// End of the response direction: a response that ran to the close
    /// answers the oldest waiting request (with no timestamp or elapsed
    /// time); then every request cut off by a reset is reported as
    /// reset, and every other waiting request as having no response.
    pub fn fin_responder(&mut self, out: &mut Vec<HttpExchange>)
        requires
            old(self).wf(),
        ensures
            final(self).wf(),
            final(self).pending().len() == 0,
            final(self).reset_queue().len() == 0,
            final(self).parser().spec_config() == old(self).parser().spec_config(),
            final(self).parser().side(true) == old(self).parser().side(true),
            final(self).parser().side(false).0 is Desynced,
            ({
                let side = old(self).parser().side(false);
                let rs = match side.0 {
                    StateView::UntilEof(st) => responses_of(seq![(st, side.1)]),
                    _ => Seq::<MessageView>::empty(),
                };
                let p = old(self).pending();
                let k = if rs.len() < p.len() {
                    rs.len() as int
                } else {
                    p.len() as int
                };
                let n1 = old(out)@.len() + k;
                let n2 = n1 + old(self).reset_queue().len();
                &&& answered(old(out)@, final(out)@.take(n1), p, rs, None)
                &&& unanswered(final(out)@.take(n1), final(out)@.take(n2), old(self).reset_queue(), HttpOutcome::Reset)
                &&& unanswered(final(out)@.take(n2), final(out)@, p.skip(k), HttpOutcome::NoResponse)
            }),
    {
        let mut msgs: Vec<HttpMessage> = Vec::new();
        let ghost side = self.inner.side(false);
        self.inner.fin_responder(&mut msgs);
        let ghost ms = match side.0 {
            StateView::UntilEof(st) => seq![(st, side.1)],
            _ => Seq::<MessageView>::empty(),
        };
        proof {
            assert forall|j: int| 0 <= j < ms.len() implies message_view(#[trigger] msgs@[j]) == Some(ms[j]) by {
                assert(msgs@[j] == msgs@[0 + j]);
            }
        }
        let ghost out0 = out@;
        self.answer(msgs, Ghost(ms), None, out);
        let ghost out1 = out@;
        Self::flush(&mut self.reset, HttpOutcome::Reset, out);
        let ghost out2 = out@;
        Self::flush(&mut self.pending, HttpOutcome::NoResponse, out);
        proof {
            assert(out@.take(out1.len() as int) =~= out1) by {
                assert(out@.take(out2.len() as int) == out2);
                assert(out2.take(out1.len() as int) == out1);
            }
            assert(out@.take(out2.len() as int) =~= out2);
        }
    }

    /// Move the requests in flight to the reset queue, to be reported at
    /// the end of the flow.
    fn reset_pending(&mut self)
        ensures
            final(self).inner == old(self).inner,
            final(self).pending@.len() == 0,
            final(self).reset@ == old(self).reset@ + old(self).pending@,
    {
        let ghost r0 = self.reset@;
        let ghost p0 = self.pending@;
        let ghost mut i: int = 0;
        proof {
            assert(p0.skip(0) =~= p0);
            assert(r0 + p0.take(0) =~= r0);
        }
        while self.pending.len() > 0
            invariant
                0 <= i,
                i + self.pending@.len() == p0.len(),
                self.pending@ == p0.skip(i),
                self.reset@ == r0 + p0.take(i),
                self.inner == old(self).inner,
            decreases self.pending@.len(),
        {
            match self.pending.pop_front() {
                Some(e) => {
                    proof {
                        assert(e == p0[i]);
                        assert(self.pending@ =~= p0.skip(i + 1));
                    }
                    self.reset.push_back(e);
                    assert(self.reset@ =~= r0 + p0.take(i + 1));
                },
                None => {},
            }
            proof {
                i = i + 1;
            }
        }
        assert(p0.take(p0.len() as int) =~= p0);
    }

    /// The request direction was reset.
    pub fn rst_initiator(&mut self)
        ensures
            final(self).parser() == old(self).parser(),
            final(self).pending().len() == 0,
            final(self).reset_queue() == old(self).reset_queue() + old(self).pending(),
    {
        self.reset_pending();
    }

    /// The response direction was reset.
    pub fn rst_responder(&mut self)
        ensures
            final(self).parser() == old(self).parser(),
            final(self).pending().len() == 0,
            final(self).reset_queue() == old(self).reset_queue() + old(self).pending(),
    {
        self.reset_pending();
    }
}

impl Default for HttpExchangeParser {
    fn default() -> (p: Self)
        ensures
            p.wf(),
            p.parser().fresh(),
            p.pending().len() == 0,
            p.reset_queue().len() == 0,
    {
        HttpExchangeParser::new()
    }
}

} // verus!
