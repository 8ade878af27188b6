//! The FTP control-channel session parser: one message per command and
//! final reply line, plus credentials, transfers, the banner and the
//! `AUTH TLS` upgrade.

use vstd::prelude::*;

use super::parser::{
    command_parts, extract_line, extract_line_spec, lemma_extract_line_shrinks,
    reply_cut_splits_char, reply_line_splits_cleanly, reply_parts, split_command, split_reply,
};
use super::types::{
    ascii_upper_chars, ascii_uppercase, command_name, same_chars, transfer_of, verb_command,
    FtpCommand, FtpMessage, TransferKind,
};
use crate::text::str_chars;
use vstd::string::StringExecFns;

verus! {

/// Stable identifier of the parser.
pub const PARSER_KIND: &'static str = "ftp";

/// The IANA-assigned FTP control-channel port.
pub const FTP_PORT: u16 = 21;

/// A message as plain values: a command by its upper-case verb.
pub enum MessageView {
    Command { verb: Seq<char>, args: Seq<char> },
    Reply { code: u16, text: Seq<char> },
    Banner { banner: Seq<char> },
    Credentials { user: Seq<char>, pass: Seq<char> },
    TlsUpgrade,
    Transfer { kind: TransferKind, filename: Seq<char> },
}

/// The plain values of a message.
pub open spec fn message_view(m: FtpMessage) -> MessageView {
    match m {
        FtpMessage::Command { verb, args } => MessageView::Command {
            verb: command_name(verb),
            args: args@,
        },
        FtpMessage::Reply { code, text } => MessageView::Reply { code, text: text@ },
        FtpMessage::Banner { banner } => MessageView::Banner { banner: banner@ },
        FtpMessage::Credentials { user, pass } => MessageView::Credentials {
            user: user@,
            pass: pass@,
        },
        FtpMessage::TlsUpgrade => MessageView::TlsUpgrade,
        FtpMessage::Transfer { kind, filename } => MessageView::Transfer {
            kind,
            filename: filename@,
        },
    }
}

/// The plain values of a run of messages.
pub open spec fn messages_view(ms: Seq<FtpMessage>) -> Seq<MessageView> {
    ms.map_values(|m: FtpMessage| message_view(m))
}

/// The parser's state as plain values.
pub struct FtpState {
    /// Client bytes not yet framed into a line.
    pub init: Seq<u8>,
    /// Server bytes not yet framed into a line.
    pub resp: Seq<u8>,
    /// A `USER` name waiting for its `PASS`.
    pub pending_user: Option<Seq<char>>,
    /// `AUTH TLS` was asked for and no `234` answered it yet.
    pub auth_tls_requested: bool,
    /// The upgrade happened: nothing further is read.
    pub encrypted: bool,
    /// The banner was reported.
    pub banner_seen: bool,
}

/// `TLS`, `SSL` or `TLS-C`: the `AUTH` arguments that ask for TLS.
pub open spec fn asks_for_tls(upper: Seq<char>) -> bool {
    upper == seq!['T', 'L', 'S'] || upper == seq!['S', 'S', 'L'] || upper == seq![
        'T',
        'L',
        'S',
        '-',
        'C',
    ]
}

/// What one client line does: a `USER` with a name waits for its
/// `PASS`, which then yields the credentials; `AUTH TLS` is noted; a
/// transfer command yields a transfer; every command yields itself.
/// A line that does not split into a command is passed over.
pub open spec fn command_step(st: FtpState, line: Seq<u8>) -> (FtpState, Seq<MessageView>) {
    match command_parts(line) {
        None => (st, Seq::empty()),
        Some((v, a)) => {
            let name = ascii_upper_chars(v);
            let cmd = verb_command(name);
            let is_user = cmd == Some(FtpCommand::User);
            let is_pass = cmd == Some(FtpCommand::Pass);
            let user_named = is_user && a.len() > 0;
            let pending = if user_named {
                Some(a)
            } else if is_pass {
                None
            } else {
                st.pending_user
            };
            let creds = if !user_named && is_pass && st.pending_user is Some {
                seq![MessageView::Credentials { user: st.pending_user->0, pass: a }]
            } else {
                Seq::empty()
            };
            let auth = st.auth_tls_requested || (cmd == Some(FtpCommand::Auth) && asks_for_tls(
                ascii_upper_chars(a),
            ));
            let transfer = match cmd {
                Some(k) => match transfer_of(k) {
                    Some(t) => seq![MessageView::Transfer { kind: t, filename: a }],
                    None => Seq::empty(),
                },
                None => Seq::empty(),
            };
            (
                FtpState { pending_user: pending, auth_tls_requested: auth, ..st },
                creds + transfer + seq![MessageView::Command { verb: name, args: a }],
            )
        },
    }
}

/// Every complete client line in the buffer, in order.
pub open spec fn drain_initiator_spec(st: FtpState) -> (FtpState, Seq<MessageView>)
    decreases st.init.len(),
{
    let (line, rest) = extract_line_spec(st.init);
    match line {
        None => (FtpState { init: rest, ..st }, Seq::empty()),
        Some(l) => {
            proof {
                lemma_extract_line_shrinks(st.init);
            }
            let s1 = command_step(FtpState { init: rest, ..st }, l);
            let s2 = drain_initiator_spec(s1.0);
            (s2.0, s1.1 + s2.1)
        },
    }
}

/// What one server line does: a final reply line yields itself, and
/// the session's first `220` the banner too; a `234` after `AUTH TLS`
/// yields the upgrade, clears both buffers and stops the parser.
/// Intermediate lines of a multi-line reply, lines that do not split
/// into a reply, and lines whose character boundaries fall inside the
/// code are passed over. The flag says the parser stopped.
pub open spec fn reply_step(st: FtpState, line: Seq<u8>) -> (FtpState, Seq<MessageView>, bool) {
    if reply_cut_splits_char(line) {
        (st, Seq::empty(), false)
    } else {
        match reply_parts(line) {
            None => (st, Seq::empty(), false),
            Some((code, text, is_final)) => if !is_final {
                (st, Seq::empty(), false)
            } else {
                let banner = if !st.banner_seen && code == 220 {
                    seq![MessageView::Banner { banner: text }]
                } else {
                    Seq::empty()
                };
                let st1 = FtpState { banner_seen: st.banner_seen || code == 220, ..st };
                if st.auth_tls_requested && code == 234 {
                    (
                        FtpState {
                            auth_tls_requested: false,
                            encrypted: true,
                            init: Seq::empty(),
                            resp: Seq::empty(),
                            ..st1
                        },
                        banner + seq![MessageView::TlsUpgrade, MessageView::Reply { code, text }],
                        true,
                    )
                } else {
                    (st1, banner + seq![MessageView::Reply { code, text }], false)
                }
            },
        }
    }
}

/// Every complete server line in the buffer, in order, up to the TLS
/// upgrade.
pub open spec fn drain_responder_spec(st: FtpState) -> (FtpState, Seq<MessageView>)
    decreases st.resp.len(),
{
    let (line, rest) = extract_line_spec(st.resp);
    match line {
        None => (FtpState { resp: rest, ..st }, Seq::empty()),
        Some(l) => {
            proof {
                lemma_extract_line_shrinks(st.resp);
            }
            let s1 = reply_step(FtpState { resp: rest, ..st }, l);
            if s1.2 {
                (s1.0, s1.1)
            } else {
                let s2 = drain_responder_spec(s1.0);
                (s2.0, s1.1 + s2.1)
            }
        },
    }
}

/// Parses both directions of an FTP control channel.
#[derive(Debug, Clone)]
pub struct FtpParser {
    init: Vec<u8>,
    resp: Vec<u8>,
    pending_user: Option<String>,
    auth_tls_requested: bool,
    encrypted: bool,
    banner_seen: bool,
}

impl View for FtpParser {
    type V = FtpState;

    closed spec fn view(&self) -> FtpState {
        FtpState {
            init: self.init@,
            resp: self.resp@,
            pending_user: match self.pending_user {
                Some(u) => Some(u@),
                None => None,
            },
            auth_tls_requested: self.auth_tls_requested,
            encrypted: self.encrypted,
            banner_seen: self.banner_seen,
        }
    }
}

fn push_message(out: &mut Vec<FtpMessage>, m: FtpMessage)
    ensures
        final(out)@ == old(out)@.push(m),
        messages_view(final(out)@) == messages_view(old(out)@).push(message_view(m)),
{
    out.push(m);
    assert(messages_view(out@) =~= messages_view(old(out)@).push(message_view(m)));
}

fn asks_tls(args: &str) -> (r: bool)
    ensures
        r == asks_for_tls(ascii_upper_chars(args@)),
{
    let upper = ascii_uppercase(args);
    let cs = str_chars(upper.as_str());
    let tls: [char; 3] = ['T', 'L', 'S'];
    let ssl: [char; 3] = ['S', 'S', 'L'];
    let tls_c: [char; 5] = ['T', 'L', 'S', '-', 'C'];
    assert(tls@ == seq!['T', 'L', 'S']);
    assert(ssl@ == seq!['S', 'S', 'L']);
    assert(tls_c@ == seq!['T', 'L', 'S', '-', 'C']);
    same_chars(&cs, &tls) || same_chars(&cs, &ssl) || same_chars(&cs, &tls_c)
}

impl FtpParser {
    /// A parser at the start of a session.
    pub fn new() -> (p: Self)
        ensures
            p@ == (FtpState {
                init: Seq::empty(),
                resp: Seq::empty(),
                pending_user: None,
                auth_tls_requested: false,
                encrypted: false,
                banner_seen: false,
            }),
    {
        FtpParser {
            init: Vec::new(),
            resp: Vec::new(),
            pending_user: None,
            auth_tls_requested: false,
            encrypted: false,
            banner_seen: false,
        }
    }

    fn command_line(&mut self, line: &[u8], out: &mut Vec<FtpMessage>)
        ensures
            final(self)@ == command_step(old(self)@, line@).0,
            final(out)@.take(old(out)@.len() as int) == old(out)@,
            final(out)@.len() >= old(out)@.len(),
            messages_view(final(out)@) == messages_view(old(out)@) + command_step(old(self)@, line@).1,
    {
        let ghost m0 = messages_view(out@);
        let ghost o0 = out@;
        let (verb_raw, args) = match split_command(line) {
            Some(p) => p,
            None => {
                assert(messages_view(out@) =~= m0 + Seq::<MessageView>::empty());
                return;
            },
        };
        let ghost name = ascii_upper_chars(verb_raw@);
        let verb = FtpCommand::from_verb(verb_raw);
        let is_user = match verb {
            FtpCommand::User => true,
            _ => false,
        };
        let is_pass = match verb {
            FtpCommand::Pass => true,
            _ => false,
        };
        assert(is_user == (verb_command(name) == Some(FtpCommand::User)));
        assert(is_pass == (verb_command(name) == Some(FtpCommand::Pass)));
        let user_named = is_user && !args.is_empty();
        let ghost creds: Seq<MessageView> = Seq::empty();
        if user_named {
            self.pending_user = Some(String::from_str(args));
        } else if is_pass {
            match self.pending_user.take() {
                Some(user) => {
                    proof {
                        creds = seq![MessageView::Credentials { user: user@, pass: args@ }];
                    }
                    push_message(out, FtpMessage::Credentials { user, pass: String::from_str(args) });
                },
                None => {},
            }
        }
        let is_auth = match verb {
            FtpCommand::Auth => true,
            _ => false,
        };
        assert(is_auth == (verb_command(name) == Some(FtpCommand::Auth)));
        if is_auth && asks_tls(args) {
            self.auth_tls_requested = true;
        }
        let ghost transfer: Seq<MessageView> = Seq::empty();
        match TransferKind::from_command(&verb) {
            Some(kind) => {
                proof {
                    transfer = seq![MessageView::Transfer { kind, filename: args@ }];
                }
                push_message(out, FtpMessage::Transfer { kind, filename: String::from_str(args) });
            },
            None => {},
        }
        proof {
            assert(transfer_of(verb) == match verb_command(name) {
                Some(k) => transfer_of(k),
                None => None,
            });
        }
        push_message(out, FtpMessage::Command { verb, args: String::from_str(args) });
        assert(messages_view(out@) =~= m0 + (creds + transfer + seq![
            MessageView::Command { verb: name, args: args@ },
        ]));
        assert(out@.take(o0.len() as int) =~= o0);
    }

    fn reply_line(&mut self, line: &[u8], out: &mut Vec<FtpMessage>) -> (stop: bool)
        ensures
            final(self)@ == reply_step(old(self)@, line@).0,
            stop == reply_step(old(self)@, line@).2,
            final(out)@.take(old(out)@.len() as int) == old(out)@,
            final(out)@.len() >= old(out)@.len(),
            messages_view(final(out)@) == messages_view(old(out)@) + reply_step(old(self)@, line@).1,
    {
        let ghost m0 = messages_view(out@);
        let ghost o0 = out@;
        if !reply_line_splits_cleanly(line) {
            assert(messages_view(out@) =~= m0 + Seq::<MessageView>::empty());
            return false;
        }
        let (code, text, is_final) = match split_reply(line) {
            Some(p) => p,
            None => {
                assert(messages_view(out@) =~= m0 + Seq::<MessageView>::empty());
                return false;
            },
        };
        if !is_final {
            assert(messages_view(out@) =~= m0 + Seq::<MessageView>::empty());
            return false;
        }
        let ghost banner: Seq<MessageView> = Seq::empty();
        if !self.banner_seen && code == 220 {
            self.banner_seen = true;
            proof {
                banner = seq![MessageView::Banner { banner: text@ }];
            }
            push_message(out, FtpMessage::Banner { banner: String::from_str(text) });
        }
        if self.auth_tls_requested && code == 234 {
            self.auth_tls_requested = false;
            push_message(out, FtpMessage::TlsUpgrade);
            self.encrypted = true;
            self.init = Vec::new();
            self.resp = Vec::new();
            push_message(out, FtpMessage::Reply { code, text: String::from_str(text) });
            assert(messages_view(out@) =~= m0 + (banner + seq![
                MessageView::TlsUpgrade,
                MessageView::Reply { code, text: text@ },
            ]));
            assert(out@.take(o0.len() as int) =~= o0);
            return true;
        }
        push_message(out, FtpMessage::Reply { code, text: String::from_str(text) });
        assert(messages_view(out@) =~= m0 + (banner + seq![MessageView::Reply { code, text: text@ }]));
        assert(out@.take(o0.len() as int) =~= o0);
        false
    }

    fn drain_initiator(&mut self, out: &mut Vec<FtpMessage>)
        ensures
            final(self)@ == drain_initiator_spec(old(self)@).0,
            final(out)@.take(old(out)@.len() as int) == old(out)@,
            final(out)@.len() >= old(out)@.len(),
            messages_view(final(out)@) == messages_view(old(out)@) + drain_initiator_spec(old(self)@).1,
    {
        let ghost goal = drain_initiator_spec(self@);
        let ghost m0 = messages_view(out@);
        let ghost o0 = out@;
        loop
            invariant
                goal == drain_initiator_spec(old(self)@),
                m0 == messages_view(old(out)@),
                o0 == old(out)@,
                drain_initiator_spec(self@).0 == goal.0,
                messages_view(out@) + drain_initiator_spec(self@).1 == m0 + goal.1,
                out@.len() >= o0.len(),
                out@.take(o0.len() as int) == o0,
            decreases self.init@.len(),
        {
            let ghost st = self@;
            let ghost mb = messages_view(out@);
            let ghost ob = out@;
            proof {
                lemma_extract_line_shrinks(st.init);
            }
            match extract_line(&mut self.init) {
                None => {
                    assert(self@ == drain_initiator_spec(st).0);
                    assert(messages_view(out@) =~= messages_view(out@) + Seq::<MessageView>::empty());
                    return;
                },
                Some(line) => {
                    let ghost st1 = self@;
                    self.command_line(line.as_slice(), out);
                    proof {
                        let s1 = command_step(st1, line@);
                        assert(self@ == s1.0);
                        let s2 = drain_initiator_spec(s1.0);
                        assert(drain_initiator_spec(st) == (s2.0, s1.1 + s2.1));
                        assert(messages_view(out@) + s2.1 =~= mb + (s1.1 + s2.1));
                        assert(out@.take(o0.len() as int) =~= ob.take(o0.len() as int));
                    }
                },
            }
        }
    }

    fn drain_responder(&mut self, out: &mut Vec<FtpMessage>)
        ensures
            final(self)@ == drain_responder_spec(old(self)@).0,
            final(out)@.take(old(out)@.len() as int) == old(out)@,
            final(out)@.len() >= old(out)@.len(),
            messages_view(final(out)@) == messages_view(old(out)@) + drain_responder_spec(old(self)@).1,
    {
        let ghost goal = drain_responder_spec(self@);
        let ghost m0 = messages_view(out@);
        let ghost o0 = out@;
        loop
            invariant
                goal == drain_responder_spec(old(self)@),
                m0 == messages_view(old(out)@),
                o0 == old(out)@,
                drain_responder_spec(self@).0 == goal.0,
                messages_view(out@) + drain_responder_spec(self@).1 == m0 + goal.1,
                out@.len() >= o0.len(),
                out@.take(o0.len() as int) == o0,
            decreases self.resp@.len(),
        {
            let ghost st = self@;
            let ghost mb = messages_view(out@);
            let ghost ob = out@;
            proof {
                lemma_extract_line_shrinks(st.resp);
            }
            match extract_line(&mut self.resp) {
                None => {
                    assert(self@ == drain_responder_spec(st).0);
                    assert(messages_view(out@) =~= messages_view(out@) + Seq::<MessageView>::empty());
                    return;
                },
                Some(line) => {
                    let ghost st1 = self@;
                    let stop = self.reply_line(line.as_slice(), out);
                    proof {
                        let s1 = reply_step(st1, line@);
                        assert(out@.take(o0.len() as int) =~= ob.take(o0.len() as int));
                        if !s1.2 {
                            let s2 = drain_responder_spec(s1.0);
                            assert(drain_responder_spec(st) == (s2.0, s1.1 + s2.1));
                            assert(messages_view(out@) + s2.1 =~= mb + (s1.1 + s2.1));
                        } else {
                            assert(drain_responder_spec(st) == (s1.0, s1.1));
                        }
                    }
                    if stop {
                        return;
                    }
                },
            }
        }
    }

    /// Client bytes: appended to the client buffer and every complete
    /// line parsed; nothing is read after the TLS upgrade.
    pub fn feed_initiator(&mut self, bytes: &[u8], out: &mut Vec<FtpMessage>)
        ensures
            old(self)@.encrypted ==> final(self)@ == old(self)@ && final(out)@ == old(out)@,
            !old(self)@.encrypted ==> ({
                let r = drain_initiator_spec(FtpState { init: old(self)@.init + bytes@, ..old(self)@ });
                &&& final(self)@ == r.0
                &&& final(out)@.take(old(out)@.len() as int) == old(out)@
                &&& messages_view(final(out)@) == messages_view(old(out)@) + r.1
            }),
    {
        if self.encrypted {
            return;
        }
        self.init.extend_from_slice(bytes);
        assert(self.init@ =~= old(self)@.init + bytes@);
        assert(self@ == FtpState { init: old(self)@.init + bytes@, ..old(self)@ });
        self.drain_initiator(out);
    }

    /// Server bytes: appended to the server buffer and every complete
    /// line parsed; nothing is read after the TLS upgrade.
    pub fn feed_responder(&mut self, bytes: &[u8], out: &mut Vec<FtpMessage>)
        ensures
            old(self)@.encrypted ==> final(self)@ == old(self)@ && final(out)@ == old(out)@,
            !old(self)@.encrypted ==> ({
                let r = drain_responder_spec(FtpState { resp: old(self)@.resp + bytes@, ..old(self)@ });
                &&& final(self)@ == r.0
                &&& final(out)@.take(old(out)@.len() as int) == old(out)@
                &&& messages_view(final(out)@) == messages_view(old(out)@) + r.1
            }),
    {
        if self.encrypted {
            return;
        }
        self.resp.extend_from_slice(bytes);
        assert(self.resp@ =~= old(self)@.resp + bytes@);
        assert(self@ == FtpState { resp: old(self)@.resp + bytes@, ..old(self)@ });
        self.drain_responder(out);
    }
}

impl Default for FtpParser {
    fn default() -> (p: Self)
        ensures
            p@ == (FtpState {
                init: Seq::empty(),
                resp: Seq::empty(),
                pending_user: None,
                auth_tls_requested: false,
                encrypted: false,
                banner_seen: false,
            }),
    {
        FtpParser::new()
    }
}

} // verus!
