//! The FTP parser's public types: messages, commands, reply classes
//! and transfer kinds.

use vstd::prelude::*;

use crate::text::str_chars;

verus! {

/// One parsed FTP control-channel message, in arrival order across both
/// directions.
#[derive(Debug, Clone, PartialEq, Eq)]
pub enum FtpMessage {
    /// A client command; `args` is the raw argument string, empty when
    /// the command takes none.
    Command { verb: FtpCommand, args: String },
    /// A server reply: the three-digit code and the final line's text.
    Reply { code: u16, text: String },
    /// The first `220` reply of a session.
    Banner { banner: String },
    /// A `USER` followed by a `PASS`, surfaced once both were seen.
    Credentials { user: String, pass: String },
    /// `AUTH TLS` / `AUTH SSL` was accepted with a `234` reply; the
    /// parser reads nothing further.
    TlsUpgrade,
    /// A data-transfer command, beside its [`FtpMessage::Command`].
    Transfer { kind: TransferKind, filename: String },
}

/// The FTP commands of operational interest; every other verb is
/// [`FtpCommand::Other`], upper-cased.
#[derive(Debug, Clone, PartialEq, Eq, Hash)]
pub enum FtpCommand {
    User,
    Pass,
    Acct,
    Auth,
    Cwd,
    Cdup,
    Pwd,
    List,
    Nlst,
    Retr,
    Stor,
    Appe,
    Stou,
    Mkd,
    Rmd,
    Dele,
    Rnfr,
    Rnto,
    Pasv,
    Port,
    Epsv,
    Eprt,
    Type,
    Mode,
    Stru,
    Quit,
    Noop,
    Syst,
    Stat,
    Help,
    Feat,
    Opts,
    Other(String),
}

/// ASCII upper case of one character; every other character is kept.
pub open spec fn ascii_upper(c: char) -> char {
    if 'a' <= c && c <= 'z' {
        ((c as u32) - 32) as char
    } else {
        c
    }
}

/// `str::to_ascii_uppercase` on characters.
pub open spec fn ascii_upper_chars(s: Seq<char>) -> Seq<char> {
    s.map_values(|c: char| ascii_upper(c))
}

/// `str::to_ascii_uppercase`: ASCII letters `a` to `z` become `A` to
/// `Z`; every other character is kept.
#[verifier::external_body]
pub(crate) fn ascii_uppercase(s: &str) -> (r: String)
    ensures
        r@ == ascii_upper_chars(s@),
{
    s.to_ascii_uppercase()
}

/// The upper-case name of a command: the verb it was read from.
pub open spec fn command_name(c: FtpCommand) -> Seq<char> {
    match c {
        FtpCommand::User => seq!['U', 'S', 'E', 'R'],
        FtpCommand::Pass => seq!['P', 'A', 'S', 'S'],
        FtpCommand::Acct => seq!['A', 'C', 'C', 'T'],
        FtpCommand::Auth => seq!['A', 'U', 'T', 'H'],
        FtpCommand::Cwd => seq!['C', 'W', 'D'],
        FtpCommand::Cdup => seq!['C', 'D', 'U', 'P'],
        FtpCommand::Pwd => seq!['P', 'W', 'D'],
        FtpCommand::List => seq!['L', 'I', 'S', 'T'],
        FtpCommand::Nlst => seq!['N', 'L', 'S', 'T'],
        FtpCommand::Retr => seq!['R', 'E', 'T', 'R'],
        FtpCommand::Stor => seq!['S', 'T', 'O', 'R'],
        FtpCommand::Appe => seq!['A', 'P', 'P', 'E'],
        FtpCommand::Stou => seq!['S', 'T', 'O', 'U'],
        FtpCommand::Mkd => seq!['M', 'K', 'D'],
        FtpCommand::Rmd => seq!['R', 'M', 'D'],
        FtpCommand::Dele => seq!['D', 'E', 'L', 'E'],
        FtpCommand::Rnfr => seq!['R', 'N', 'F', 'R'],
        FtpCommand::Rnto => seq!['R', 'N', 'T', 'O'],
        FtpCommand::Pasv => seq!['P', 'A', 'S', 'V'],
        FtpCommand::Port => seq!['P', 'O', 'R', 'T'],
        FtpCommand::Epsv => seq!['E', 'P', 'S', 'V'],
        FtpCommand::Eprt => seq!['E', 'P', 'R', 'T'],
        FtpCommand::Type => seq!['T', 'Y', 'P', 'E'],
        FtpCommand::Mode => seq!['M', 'O', 'D', 'E'],
        FtpCommand::Stru => seq!['S', 'T', 'R', 'U'],
        FtpCommand::Quit => seq!['Q', 'U', 'I', 'T'],
        FtpCommand::Noop => seq!['N', 'O', 'O', 'P'],
        FtpCommand::Syst => seq!['S', 'Y', 'S', 'T'],
        FtpCommand::Stat => seq!['S', 'T', 'A', 'T'],
        FtpCommand::Help => seq!['H', 'E', 'L', 'P'],
        FtpCommand::Feat => seq!['F', 'E', 'A', 'T'],
        FtpCommand::Opts => seq!['O', 'P', 'T', 'S'],
        FtpCommand::Other(s) => s@,
    }
}

/// The command an upper-cased verb names, when it is one of the
/// enumerated ones.
pub open spec fn verb_command(u: Seq<char>) -> Option<FtpCommand> {
    if u == seq!['U', 'S', 'E', 'R'] {
        Some(FtpCommand::User)
    } else if u == seq!['P', 'A', 'S', 'S'] {
        Some(FtpCommand::Pass)
    } else if u == seq!['A', 'C', 'C', 'T'] {
        Some(FtpCommand::Acct)
    } else if u == seq!['A', 'U', 'T', 'H'] {
        Some(FtpCommand::Auth)
    } else if u == seq!['C', 'W', 'D'] {
        Some(FtpCommand::Cwd)
    } else if u == seq!['C', 'D', 'U', 'P'] {
        Some(FtpCommand::Cdup)
    } else if u == seq!['P', 'W', 'D'] {
        Some(FtpCommand::Pwd)
    } else if u == seq!['L', 'I', 'S', 'T'] {
        Some(FtpCommand::List)
    } else if u == seq!['N', 'L', 'S', 'T'] {
        Some(FtpCommand::Nlst)
    } else if u == seq!['R', 'E', 'T', 'R'] {
        Some(FtpCommand::Retr)
    } else if u == seq!['S', 'T', 'O', 'R'] {
        Some(FtpCommand::Stor)
    } else if u == seq!['A', 'P', 'P', 'E'] {
        Some(FtpCommand::Appe)
    } else if u == seq!['S', 'T', 'O', 'U'] {
        Some(FtpCommand::Stou)
    } else if u == seq!['M', 'K', 'D'] {
        Some(FtpCommand::Mkd)
    } else if u == seq!['R', 'M', 'D'] {
        Some(FtpCommand::Rmd)
    } else if u == seq!['D', 'E', 'L', 'E'] {
        Some(FtpCommand::Dele)
    } else if u == seq!['R', 'N', 'F', 'R'] {
        Some(FtpCommand::Rnfr)
    } else if u == seq!['R', 'N', 'T', 'O'] {
        Some(FtpCommand::Rnto)
    } else if u == seq!['P', 'A', 'S', 'V'] {
        Some(FtpCommand::Pasv)
    } else if u == seq!['P', 'O', 'R', 'T'] {
        Some(FtpCommand::Port)
    } else if u == seq!['E', 'P', 'S', 'V'] {
        Some(FtpCommand::Epsv)
    } else if u == seq!['E', 'P', 'R', 'T'] {
        Some(FtpCommand::Eprt)
    } else if u == seq!['T', 'Y', 'P', 'E'] {
        Some(FtpCommand::Type)
    } else if u == seq!['M', 'O', 'D', 'E'] {
        Some(FtpCommand::Mode)
    } else if u == seq!['S', 'T', 'R', 'U'] {
        Some(FtpCommand::Stru)
    } else if u == seq!['Q', 'U', 'I', 'T'] {
        Some(FtpCommand::Quit)
    } else if u == seq!['N', 'O', 'O', 'P'] {
        Some(FtpCommand::Noop)
    } else if u == seq!['S', 'Y', 'S', 'T'] {
        Some(FtpCommand::Syst)
    } else if u == seq!['S', 'T', 'A', 'T'] {
        Some(FtpCommand::Stat)
    } else if u == seq!['H', 'E', 'L', 'P'] {
        Some(FtpCommand::Help)
    } else if u == seq!['F', 'E', 'A', 'T'] {
        Some(FtpCommand::Feat)
    } else if u == seq!['O', 'P', 'T', 'S'] {
        Some(FtpCommand::Opts)
    } else {
        None
    }
}

pub(crate) fn same_chars(a: &Vec<char>, b: &[char]) -> (r: bool)
    ensures
        r == (a@ == b@),
{
    if a.len() != b.len() {
        return false;
    }
    let mut i: usize = 0;
    while i < a.len()
        invariant
            i <= a@.len(),
            a@.len() == b@.len(),
            forall|j: int| 0 <= j < i ==> a@[j] == b@[j],
        decreases a@.len() - i,
    {
        if a[i] != b[i] {
            return false;
        }
        i += 1;
    }
    assert(a@ =~= b@);
    true
}

#[verifier::rlimit(40)]
fn known_verb(cs: &Vec<char>) -> (r: Option<FtpCommand>)
    ensures
        r == verb_command(cs@),
{
    let w: [char; 4] = ['U', 'S', 'E', 'R'];
    assert(w@ == seq!['U', 'S', 'E', 'R']);
    if same_chars(cs, &w) {
        return Some(FtpCommand::User);
    }
    let w: [char; 4] = ['P', 'A', 'S', 'S'];
    assert(w@ == seq!['P', 'A', 'S', 'S']);
    if same_chars(cs, &w) {
        return Some(FtpCommand::Pass);
    }
    let w: [char; 4] = ['A', 'C', 'C', 'T'];
    assert(w@ == seq!['A', 'C', 'C', 'T']);
    if same_chars(cs, &w) {
        return Some(FtpCommand::Acct);
    }
    let w: [char; 4] = ['A', 'U', 'T', 'H'];
    assert(w@ == seq!['A', 'U', 'T', 'H']);
    if same_chars(cs, &w) {
        return Some(FtpCommand::Auth);
    }
    let w: [char; 3] = ['C', 'W', 'D'];
    assert(w@ == seq!['C', 'W', 'D']);
    if same_chars(cs, &w) {
        return Some(FtpCommand::Cwd);
    }
    let w: [char; 4] = ['C', 'D', 'U', 'P'];
    assert(w@ == seq!['C', 'D', 'U', 'P']);
    if same_chars(cs, &w) {
        return Some(FtpCommand::Cdup);
    }
    let w: [char; 3] = ['P', 'W', 'D'];
    assert(w@ == seq!['P', 'W', 'D']);
    if same_chars(cs, &w) {
        return Some(FtpCommand::Pwd);
    }
    let w: [char; 4] = ['L', 'I', 'S', 'T'];
    assert(w@ == seq!['L', 'I', 'S', 'T']);
    if same_chars(cs, &w) {
        return Some(FtpCommand::List);
    }
    let w: [char; 4] = ['N', 'L', 'S', 'T'];
    assert(w@ == seq!['N', 'L', 'S', 'T']);
    if same_chars(cs, &w) {
        return Some(FtpCommand::Nlst);
    }
    let w: [char; 4] = ['R', 'E', 'T', 'R'];
    assert(w@ == seq!['R', 'E', 'T', 'R']);
    if same_chars(cs, &w) {
        return Some(FtpCommand::Retr);
    }
    let w: [char; 4] = ['S', 'T', 'O', 'R'];
    assert(w@ == seq!['S', 'T', 'O', 'R']);
    if same_chars(cs, &w) {
        return Some(FtpCommand::Stor);
    }
    let w: [char; 4] = ['A', 'P', 'P', 'E'];
    assert(w@ == seq!['A', 'P', 'P', 'E']);
    if same_chars(cs, &w) {
        return Some(FtpCommand::Appe);
    }
    let w: [char; 4] = ['S', 'T', 'O', 'U'];
    assert(w@ == seq!['S', 'T', 'O', 'U']);
    if same_chars(cs, &w) {
        return Some(FtpCommand::Stou);
    }
    let w: [char; 3] = ['M', 'K', 'D'];
    assert(w@ == seq!['M', 'K', 'D']);
    if same_chars(cs, &w) {
        return Some(FtpCommand::Mkd);
    }
    let w: [char; 3] = ['R', 'M', 'D'];
    assert(w@ == seq!['R', 'M', 'D']);
    if same_chars(cs, &w) {
        return Some(FtpCommand::Rmd);
    }
    let w: [char; 4] = ['D', 'E', 'L', 'E'];
    assert(w@ == seq!['D', 'E', 'L', 'E']);
    if same_chars(cs, &w) {
        return Some(FtpCommand::Dele);
    }
    let w: [char; 4] = ['R', 'N', 'F', 'R'];
    assert(w@ == seq!['R', 'N', 'F', 'R']);
    if same_chars(cs, &w) {
        return Some(FtpCommand::Rnfr);
    }
    let w: [char; 4] = ['R', 'N', 'T', 'O'];
    assert(w@ == seq!['R', 'N', 'T', 'O']);
    if same_chars(cs, &w) {
        return Some(FtpCommand::Rnto);
    }
    let w: [char; 4] = ['P', 'A', 'S', 'V'];
    assert(w@ == seq!['P', 'A', 'S', 'V']);
    if same_chars(cs, &w) {
        return Some(FtpCommand::Pasv);
    }
    let w: [char; 4] = ['P', 'O', 'R', 'T'];
    assert(w@ == seq!['P', 'O', 'R', 'T']);
    if same_chars(cs, &w) {
        return Some(FtpCommand::Port);
    }
    let w: [char; 4] = ['E', 'P', 'S', 'V'];
    assert(w@ == seq!['E', 'P', 'S', 'V']);
    if same_chars(cs, &w) {
        return Some(FtpCommand::Epsv);
    }
    let w: [char; 4] = ['E', 'P', 'R', 'T'];
    assert(w@ == seq!['E', 'P', 'R', 'T']);
    if same_chars(cs, &w) {
        return Some(FtpCommand::Eprt);
    }
    let w: [char; 4] = ['T', 'Y', 'P', 'E'];
    assert(w@ == seq!['T', 'Y', 'P', 'E']);
    if same_chars(cs, &w) {
        return Some(FtpCommand::Type);
    }
    let w: [char; 4] = ['M', 'O', 'D', 'E'];
    assert(w@ == seq!['M', 'O', 'D', 'E']);
    if same_chars(cs, &w) {
        return Some(FtpCommand::Mode);
    }
    let w: [char; 4] = ['S', 'T', 'R', 'U'];
    assert(w@ == seq!['S', 'T', 'R', 'U']);
    if same_chars(cs, &w) {
        return Some(FtpCommand::Stru);
    }
    let w: [char; 4] = ['Q', 'U', 'I', 'T'];
    assert(w@ == seq!['Q', 'U', 'I', 'T']);
    if same_chars(cs, &w) {
        return Some(FtpCommand::Quit);
    }
    let w: [char; 4] = ['N', 'O', 'O', 'P'];
    assert(w@ == seq!['N', 'O', 'O', 'P']);
    if same_chars(cs, &w) {
        return Some(FtpCommand::Noop);
    }
    let w: [char; 4] = ['S', 'Y', 'S', 'T'];
    assert(w@ == seq!['S', 'Y', 'S', 'T']);
    if same_chars(cs, &w) {
        return Some(FtpCommand::Syst);
    }
    let w: [char; 4] = ['S', 'T', 'A', 'T'];
    assert(w@ == seq!['S', 'T', 'A', 'T']);
    if same_chars(cs, &w) {
        return Some(FtpCommand::Stat);
    }
    let w: [char; 4] = ['H', 'E', 'L', 'P'];
    assert(w@ == seq!['H', 'E', 'L', 'P']);
    if same_chars(cs, &w) {
        return Some(FtpCommand::Help);
    }
    let w: [char; 4] = ['F', 'E', 'A', 'T'];
    assert(w@ == seq!['F', 'E', 'A', 'T']);
    if same_chars(cs, &w) {
        return Some(FtpCommand::Feat);
    }
    let w: [char; 4] = ['O', 'P', 'T', 'S'];
    assert(w@ == seq!['O', 'P', 'T', 'S']);
    if same_chars(cs, &w) {
        return Some(FtpCommand::Opts);
    }
    None
}

impl FtpCommand {
    /// The command a wire verb names, compared without regard to ASCII
    /// case; an unknown verb is kept, upper-cased, in `Other`.
    pub fn from_verb(raw: &str) -> (c: FtpCommand)
        ensures
            verb_command(ascii_upper_chars(raw@)) matches Some(k) ==> c == k,
            verb_command(ascii_upper_chars(raw@)) is None ==> (c matches FtpCommand::Other(s)
                && s@ == ascii_upper_chars(raw@)),
            command_name(c) == ascii_upper_chars(raw@),
    {
        let upper = ascii_uppercase(raw);
        let cs = str_chars(upper.as_str());
        match known_verb(&cs) {
            Some(k) => k,
            None => FtpCommand::Other(upper),
        }
    }

    /// `true` for the file-transfer commands `RETR`, `STOR`, `APPE` and
    /// `STOU`.
    pub fn is_transfer(&self) -> (r: bool)
        ensures
            r == (self is Retr || self is Stor || self is Appe || self is Stou),
    {
        match self {
            FtpCommand::Retr | FtpCommand::Stor | FtpCommand::Appe | FtpCommand::Stou => true,
            _ => false,
        }
    }
}

/// The class of an FTP reply code, by its first digit.
#[derive(Debug, Clone, Copy, PartialEq, Eq, Structural, Hash)]
pub enum FtpReplyClass {
    /// 1xx: the action is being initiated.
    PositivePreliminary,
    /// 2xx: the action completed.
    PositiveCompletion,
    /// 3xx: more information is expected.
    PositiveIntermediate,
    /// 4xx: try again.
    TransientNegative,
    /// 5xx: do not retry.
    PermanentNegative,
    /// Anything outside 1xx to 5xx.
    Other,
}

/// The class of a reply code.
pub open spec fn reply_class(code: u16) -> FtpReplyClass {
    let d = code / 100;
    if d == 1 {
        FtpReplyClass::PositivePreliminary
    } else if d == 2 {
        FtpReplyClass::PositiveCompletion
    } else if d == 3 {
        FtpReplyClass::PositiveIntermediate
    } else if d == 4 {
        FtpReplyClass::TransientNegative
    } else if d == 5 {
        FtpReplyClass::PermanentNegative
    } else {
        FtpReplyClass::Other
    }
}

impl FtpReplyClass {
    /// The class of a reply code, by its first digit.
    pub fn classify(code: u16) -> (c: Self)
        ensures
            c == reply_class(code),
    {
        let d = code / 100;
        if d == 1 {
            FtpReplyClass::PositivePreliminary
        } else if d == 2 {
            FtpReplyClass::PositiveCompletion
        } else if d == 3 {
            FtpReplyClass::PositiveIntermediate
        } else if d == 4 {
            FtpReplyClass::TransientNegative
        } else if d == 5 {
            FtpReplyClass::PermanentNegative
        } else {
            FtpReplyClass::Other
        }
    }
}

/// The direction and kind of a file-transfer command.
#[derive(Debug, Clone, Copy, PartialEq, Eq, Structural, Hash)]
pub enum TransferKind {
    /// `RETR`: download from the server.
    Download,
    /// `STOR`: upload, overwriting.
    Upload,
    /// `APPE`: upload, appending.
    Append,
    /// `STOU`: upload under a unique name.
    UploadUnique,
}

/// The transfer a command starts, if it is a transfer command.
pub open spec fn transfer_of(c: FtpCommand) -> Option<TransferKind> {
    match c {
        FtpCommand::Retr => Some(TransferKind::Download),
        FtpCommand::Stor => Some(TransferKind::Upload),
        FtpCommand::Appe => Some(TransferKind::Append),
        FtpCommand::Stou => Some(TransferKind::UploadUnique),
        _ => None,
    }
}

impl TransferKind {
    /// The transfer a command starts, if it is a transfer command.
    pub(crate) fn from_command(cmd: &FtpCommand) -> (r: Option<Self>)
        ensures
            r == transfer_of(*cmd),
    {
        match cmd {
            FtpCommand::Retr => Some(TransferKind::Download),
            FtpCommand::Stor => Some(TransferKind::Upload),
            FtpCommand::Appe => Some(TransferKind::Append),
            FtpCommand::Stou => Some(TransferKind::UploadUnique),
            _ => None,
        }
    }
}

} // verus!
