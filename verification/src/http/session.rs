//! [`HttpParser`]: a per-flow HTTP/1.x parser that turns both
//! directions of a connection into whole requests and responses.

use vstd::prelude::*;

use super::parser::{
    eof, state_shape, step, step_spec, DirState, MessageView, ParseOutput, StateView, StepView,
};
use super::types::{HttpConfig, HttpRequest, HttpResponse, RequestHead};

verus! {

/// One message emitted by [`HttpParser`].
#[derive(Debug, Clone)]
pub enum HttpMessage {
    Request(HttpRequest),
    Response(HttpResponse),
    /// Request headers ahead of the body; [`HttpParser`] emits whole
    /// messages only and never produces this variant.
    RequestHead(RequestHead),
}

/// A request or response as its start and body; a head alone has none.
pub open spec fn message_view(m: HttpMessage) -> Option<MessageView> {
    match m {
        HttpMessage::Request(r) => Some(
            ParseOutput::Request(r)@,
        ),
        HttpMessage::Response(r) => Some(ParseOutput::Response(r)@),
        HttpMessage::RequestHead(_) => None,
    }
}

/// Repeated parse steps until one waits or fails: the final state, the
/// buffer left (emptied on a failure), and every message emitted.
pub open spec fn drain_spec(
    s: StateView,
    buf: Seq<u8>,
    is_request: bool,
    max_buffer: usize,
    max_headers: usize,
) -> (StateView, Seq<u8>, Seq<MessageView>)
    decreases buf.len(), (if s is Body {
        1int
    } else {
        0int
    }),
{
    let (s1, b1, o) = step_spec(s, buf, is_request, max_buffer, max_headers);
    match o {
        StepView::Emit(m) => if b1.len() < buf.len() || (b1.len() == buf.len() && s is Body && !(
        s1 is Body)) {
            let (s2, b2, ms) = drain_spec(s1, b1, is_request, max_buffer, max_headers);
            (s2, b2, seq![m] + ms)
        } else {
            (s1, b1, seq![m])
        },
        StepView::Wait => (s1, b1, Seq::empty()),
        _ => (s1, Seq::empty(), Seq::empty()),
    }
}

/// An emitted message always leaves less to parse: a head was consumed,
/// a body was consumed, or an empty body moved the state out of `Body`.
proof fn lemma_emit_progress(
    s: StateView,
    buf: Seq<u8>,
    is_request: bool,
    max_buffer: usize,
    max_headers: usize,
)
    ensures
        ({
            let (s1, b1, o) = step_spec(s, buf, is_request, max_buffer, max_headers);
            o is Emit ==> (b1.len() < buf.len() || (b1.len() == buf.len() && s is Body && !(
            s1 is Body)))
        }),
{
}

/// The messages a parser has pushed so far onto `out`, after `base`.
pub open spec fn pushed(base: Seq<HttpMessage>, out: Seq<HttpMessage>, ms: Seq<MessageView>) -> bool {
    &&& out.len() == base.len() + ms.len()
    &&& out.take(base.len() as int) == base
    &&& forall|i: int| 0 <= i < ms.len() ==> message_view(#[trigger] out[base.len() + i]) == Some(
        ms[i],
    )
}

fn push_output(out: &mut Vec<HttpMessage>, m: ParseOutput)
    ensures
        final(out)@ == old(out)@.push(
            match m {
                ParseOutput::Request(r) => HttpMessage::Request(r),
                ParseOutput::Response(r) => HttpMessage::Response(r),
            },
        ),
        message_view(final(out)@.last()) == Some(m@),
{
    match m {
        ParseOutput::Request(r) => out.push(HttpMessage::Request(r)),
        ParseOutput::Response(r) => out.push(HttpMessage::Response(r)),
    }
}

/// Step until the parser waits or fails, pushing every message.
fn drain(
    state: &mut DirState,
    buf: &mut Vec<u8>,
    is_request: bool,
    cfg: &HttpConfig,
    out: &mut Vec<HttpMessage>,
)
    requires
        state_shape(old(state)@),
    ensures
        state_shape(final(state)@),
        ({
            let (s2, b2, ms) = drain_spec(
                old(state)@,
                old(buf)@,
                is_request,
                cfg.max_buffer,
                cfg.max_headers,
            );
            final(state)@ == s2 && final(buf)@ == b2 && pushed(old(out)@, final(out)@, ms)
        }),
{
    let ghost s0 = state@;
    let ghost b0 = buf@;
    let ghost base = out@;
    let ghost mut done: Seq<MessageView> = Seq::empty();
    assert(out@.take(out@.len() as int) =~= out@);
    assert(done + drain_spec(s0, b0, is_request, cfg.max_buffer, cfg.max_headers).2 =~= drain_spec(
        s0,
        b0,
        is_request,
        cfg.max_buffer,
        cfg.max_headers,
    ).2);
    loop
        invariant
            s0 == old(state)@,
            b0 == old(buf)@,
            base == old(out)@,
            state_shape(state@),
            pushed(base, out@, done),
            ({
                let (s2, b2, ms) = drain_spec(s0, b0, is_request, cfg.max_buffer, cfg.max_headers);
                let (t2, c2, ns) = drain_spec(
                    state@,
                    buf@,
                    is_request,
                    cfg.max_buffer,
                    cfg.max_headers,
                );
                s2 == t2 && b2 == c2 && ms == done + ns
            }),
        decreases buf@.len(), (if state@ is Body {
            1int
        } else {
            0int
        }),
    {
        let ghost s_before = state@;
        let ghost b_before = buf@;
        let ghost out_before = out@;
        proof {
            lemma_emit_progress(s_before, b_before, is_request, cfg.max_buffer, cfg.max_headers);
        }
        match step(state, buf, is_request, cfg) {
            Ok(Some(m)) => {
                let ghost mv = m@;
                push_output(out, m);
                proof {
                    assert(out@.take(base.len() as int) =~= base) by {
                        assert(out_before.take(base.len() as int) == base);
                    }
                    let nd = done.push(mv);
                    assert forall|i: int| 0 <= i < nd.len() implies message_view(
                        #[trigger] out@[base.len() + i],
                    ) == Some(nd[i]) by {
                        if i < done.len() {
                            assert(out@[base.len() + i] == out_before[base.len() + i]);
                        }
                    }
                    let (t2, c2, ns) = drain_spec(
                        state@,
                        buf@,
                        is_request,
                        cfg.max_buffer,
                        cfg.max_headers,
                    );
                    assert(done + (seq![mv] + ns) =~= nd + ns);
                    done = nd;
                }
            },
            Ok(None) => {
                proof {
                    let (t2, c2, ns) = drain_spec(
                        s_before,
                        b_before,
                        is_request,
                        cfg.max_buffer,
                        cfg.max_headers,
                    );
                    assert(ns =~= Seq::<MessageView>::empty());
                    assert(done + ns =~= done);
                }
                return;
            },
            Err(_) => {
                buf.clear();
                proof {
                    let (t2, c2, ns) = drain_spec(
                        s_before,
                        b_before,
                        is_request,
                        cfg.max_buffer,
                        cfg.max_headers,
                    );
                    assert(ns =~= Seq::<MessageView>::empty());
                    assert(done + ns =~= done);
                    assert(buf@ =~= c2);
                }
                return;
            },
        }
    }
}

/// Per-flow HTTP/1.x parser with independent state for the initiator
/// (request) and responder (response) directions.
#[derive(Debug, Clone)]
pub struct HttpParser {
    config: HttpConfig,
    init_buf: Vec<u8>,
    init_state: DirState,
    resp_buf: Vec<u8>,
    resp_state: DirState,
}

impl HttpParser {
    /// Both directions await a head; nothing is buffered.
    pub closed spec fn fresh(&self) -> bool {
        &&& self.init_buf@.len() == 0
        &&& self.resp_buf@.len() == 0
        &&& self.init_state@ is Headers
        &&& self.resp_state@ is Headers
    }

    /// The parser's invariant: every start it holds came from a head.
    pub closed spec fn wf(&self) -> bool {
        state_shape(self.init_state@) && state_shape(self.resp_state@)
    }

    /// The configuration.
    pub closed spec fn spec_config(&self) -> HttpConfig {
        self.config
    }

    /// One direction's state, buffer.
    pub closed spec fn side(&self, initiator: bool) -> (StateView, Seq<u8>) {
        if initiator {
            (self.init_state@, self.init_buf@)
        } else {
            (self.resp_state@, self.resp_buf@)
        }
    }

    /// A parser with an explicit configuration.
    pub fn with_config(config: HttpConfig) -> (p: Self)
        ensures
            p.fresh(),
            p.wf(),
            p.spec_config() == config,
    {
        HttpParser {
            config,
            init_buf: Vec::new(),
            init_state: DirState::Headers,
            resp_buf: Vec::new(),
            resp_state: DirState::Headers,
        }
    }

    /// Feed request-direction bytes; every whole request they complete
    /// is pushed onto `out`.
    pub fn feed_initiator(&mut self, bytes: &[u8], out: &mut Vec<HttpMessage>)
        requires
            old(self).wf(),
        ensures
            final(self).wf(),
            final(self).spec_config() == old(self).spec_config(),
            final(self).side(false) == old(self).side(false),
            bytes@.len() == 0 ==> final(self).side(true) == old(self).side(true) && final(out)@
                == old(out)@,
            bytes@.len() > 0 ==> ({
                let (s2, b2, ms) = drain_spec(
                    old(self).side(true).0,
                    old(self).side(true).1 + bytes@,
                    true,
                    old(self).spec_config().max_buffer,
                    old(self).spec_config().max_headers,
                );
                final(self).side(true) == (s2, b2) && pushed(old(out)@, final(out)@, ms)
            }),
    {
        if bytes.len() == 0 {
            return;
        }
        self.init_buf.extend_from_slice(bytes);
        assert(self.init_buf@ =~= old(self).init_buf@ + bytes@);
        drain(&mut self.init_state, &mut self.init_buf, true, &self.config, out);
    }

    /// Feed response-direction bytes; every whole response they complete
    /// is pushed onto `out`.
    pub fn feed_responder(&mut self, bytes: &[u8], out: &mut Vec<HttpMessage>)
        requires
            old(self).wf(),
        ensures
            final(self).wf(),
            final(self).spec_config() == old(self).spec_config(),
            final(self).side(true) == old(self).side(true),
            bytes@.len() == 0 ==> final(self).side(false) == old(self).side(false) && final(out)@
                == old(out)@,
            bytes@.len() > 0 ==> ({
                let (s2, b2, ms) = drain_spec(
                    old(self).side(false).0,
                    old(self).side(false).1 + bytes@,
                    false,
                    old(self).spec_config().max_buffer,
                    old(self).spec_config().max_headers,
                );
                final(self).side(false) == (s2, b2) && pushed(old(out)@, final(out)@, ms)
            }),
    {
        if bytes.len() == 0 {
            return;
        }
        self.resp_buf.extend_from_slice(bytes);
        assert(self.resp_buf@ =~= old(self).resp_buf@ + bytes@);
        drain(&mut self.resp_state, &mut self.resp_buf, false, &self.config, out);
    }

    /// End of the request direction: a body that runs to the close is
    /// emitted with what is buffered.
    pub fn fin_initiator(&mut self, out: &mut Vec<HttpMessage>)
        requires
            old(self).wf(),
        ensures
            final(self).wf(),
            final(self).spec_config() == old(self).spec_config(),
            final(self).side(false) == old(self).side(false),
            final(self).side(true).0 is Desynced,
            old(self).side(true).0 matches StateView::UntilEof(st) ==> pushed(
                old(out)@,
                final(out)@,
                seq![(st, old(self).side(true).1)],
            ) && final(self).side(true).1.len() == 0,
            !(old(self).side(true).0 is UntilEof) ==> final(out)@ == old(out)@ && final(self).side(true).1 == old(self).side(true).1,
    {
        let r = eof(&mut self.init_state, &mut self.init_buf);
        match r {
            Some(m) => {
                let ghost before = out@;
                push_output(out, m);
                assert(out@.take(before.len() as int) =~= before);
                assert(out@[before.len() as int] == out@.last());
            },
            None => {},
        }
    }

    /// End of the response direction: a body that runs to the close is
    /// emitted with what is buffered.
    pub fn fin_responder(&mut self, out: &mut Vec<HttpMessage>)
        requires
            old(self).wf(),
        ensures
            final(self).wf(),
            final(self).spec_config() == old(self).spec_config(),
            final(self).side(true) == old(self).side(true),
            final(self).side(false).0 is Desynced,
            old(self).side(false).0 matches StateView::UntilEof(st) ==> pushed(
                old(out)@,
                final(out)@,
                seq![(st, old(self).side(false).1)],
            ) && final(self).side(false).1.len() == 0,
            !(old(self).side(false).0 is UntilEof) ==> final(out)@ == old(out)@ && final(self).side(false).1 == old(self).side(false).1,
    {
        let r = eof(&mut self.resp_state, &mut self.resp_buf);
        match r {
            Some(m) => {
                let ghost before = out@;
                push_output(out, m);
                assert(out@.take(before.len() as int) =~= before);
                assert(out@[before.len() as int] == out@.last());
            },
            None => {},
        }
    }

    /// Reset the request direction (a TCP reset).
    pub fn rst_initiator(&mut self)
        requires
            old(self).wf(),
        ensures
            final(self).wf(),
            final(self).spec_config() == old(self).spec_config(),
            final(self).side(false) == old(self).side(false),
            final(self).side(true).0 is Headers,
            final(self).side(true).1.len() == 0,
    {
        self.init_buf.clear();
        self.init_state = DirState::Headers;
    }

    /// Reset the response direction (a TCP reset).
    pub fn rst_responder(&mut self)
        requires
            old(self).wf(),
        ensures
            final(self).wf(),
            final(self).spec_config() == old(self).spec_config(),
            final(self).side(true) == old(self).side(true),
            final(self).side(false).0 is Headers,
            final(self).side(false).1.len() == 0,
    {
        self.resp_buf.clear();
        self.resp_state = DirState::Headers;
    }
}

impl Default for HttpParser {
    fn default() -> (p: Self)
        ensures
            p.fresh(),
            p.wf(),
            p.spec_config().max_buffer == 1048576,
            p.spec_config().max_headers == 64,
    {
        HttpParser::with_config(HttpConfig::default())
    }
}

} // verus!
