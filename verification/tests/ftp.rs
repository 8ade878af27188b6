use flowscope::ftp::parser::{split_command, split_reply};
use flowscope::ftp::{extract_line, FtpCommand, FtpMessage, FtpParser, FtpReplyClass, TransferKind, FTP_PORT, PARSER_KIND};

#[test]
fn extract_line_handles_one_line() {
    let mut buf = b"USER alice\r\n".to_vec();
    let line = extract_line(&mut buf).expect("line");
    assert_eq!(line, b"USER alice");
    assert!(buf.is_empty());
}

#[test]
fn extract_line_handles_multiple_lines() {
    let mut buf = b"USER alice\r\nPASS secret\r\n".to_vec();
    let a = extract_line(&mut buf).unwrap();
    let b = extract_line(&mut buf).unwrap();
    assert_eq!(a, b"USER alice");
    assert_eq!(b, b"PASS secret");
}

#[test]
fn extract_line_none_on_incomplete() {
    let mut buf = b"USER alice".to_vec();
    assert!(extract_line(&mut buf).is_none());
    assert_eq!(buf, b"USER alice");
}

#[test]
fn extract_line_drops_overlong_garbage() {
    let mut buf = vec![b'A'; 5000];
    let _ = extract_line(&mut buf);
    assert!(buf.is_empty());
}

#[test]
fn extract_line_skips_an_overlong_complete_line() {
    let mut buf = vec![b'A'; 5000];
    buf.extend_from_slice(b"\r\nNOOP\r\n");
    assert_eq!(extract_line(&mut buf).unwrap(), b"NOOP");
    assert!(buf.is_empty());
}

#[test]
fn split_command_basic() {
    let (verb, args) = split_command(b"USER alice").unwrap();
    assert_eq!(verb, "USER");
    assert_eq!(args, "alice");
}

#[test]
fn split_command_no_args() {
    let (verb, args) = split_command(b"PASV").unwrap();
    assert_eq!(verb, "PASV");
    assert_eq!(args, "");
}

#[test]
fn split_command_multiple_args() {
    let (verb, args) = split_command(b"PORT 192,168,1,1,4,5").unwrap();
    assert_eq!(verb, "PORT");
    assert_eq!(args, "192,168,1,1,4,5");
}

#[test]
fn split_command_rejects_blank_and_non_utf8() {
    assert!(split_command(b"   ").is_none());
    assert!(split_command(&[0xff, 0x20, 0x41]).is_none());
    assert_eq!(split_command(b"CWD    dir  ").unwrap(), ("CWD", "dir"));
}

#[test]
fn split_reply_final_line() {
    let (code, text, is_final) = split_reply(b"230 Login successful.").unwrap();
    assert_eq!(code, 230);
    assert_eq!(text, "Login successful.");
    assert!(is_final);
}

#[test]
fn split_reply_intermediate_line() {
    let (code, text, is_final) = split_reply(b"220-banner part 1").unwrap();
    assert_eq!(code, 220);
    assert_eq!(text, "banner part 1");
    assert!(!is_final);
}

#[test]
fn split_reply_rejects_too_short() {
    assert!(split_reply(b"230").is_none());
}

#[test]
fn split_reply_rejects_non_numeric() {
    assert!(split_reply(b"ABC text").is_none());
}

#[test]
fn port_constant_matches_iana() {
    assert_eq!(FTP_PORT, 21);
    assert_eq!(PARSER_KIND, "ftp");
}

#[test]
fn verbs_map_case_insensitively() {
    assert_eq!(FtpCommand::from_verb("retr"), FtpCommand::Retr);
    assert_eq!(FtpCommand::from_verb("Opts"), FtpCommand::Opts);
    assert_eq!(FtpCommand::from_verb("site"), FtpCommand::Other("SITE".to_string()));
    assert!(FtpCommand::from_verb("stou").is_transfer());
    assert!(!FtpCommand::from_verb("dele").is_transfer());
}

#[test]
fn reply_codes_classify_by_first_digit() {
    assert_eq!(FtpReplyClass::classify(150), FtpReplyClass::PositivePreliminary);
    assert_eq!(FtpReplyClass::classify(226), FtpReplyClass::PositiveCompletion);
    assert_eq!(FtpReplyClass::classify(331), FtpReplyClass::PositiveIntermediate);
    assert_eq!(FtpReplyClass::classify(421), FtpReplyClass::TransientNegative);
    assert_eq!(FtpReplyClass::classify(530), FtpReplyClass::PermanentNegative);
    assert_eq!(FtpReplyClass::classify(99), FtpReplyClass::Other);
    assert_eq!(FtpReplyClass::classify(600), FtpReplyClass::Other);
}

#[test]
fn banner_emitted_first() {
    let mut p = FtpParser::new();
    let mut out = Vec::new();
    p.feed_responder(b"220 vsFTPd 3.0.3\r\n", &mut out);
    assert!(matches!(out[0], FtpMessage::Banner { ref banner } if banner == "vsFTPd 3.0.3"));
}

#[test]
fn user_pass_emitted_as_credentials() {
    let mut p = FtpParser::new();
    let mut out = Vec::new();
    p.feed_initiator(b"USER alice\r\nPASS secret123\r\n", &mut out);
    let creds = out
        .iter()
        .find_map(|m| match m {
            FtpMessage::Credentials { user, pass } => Some((user.clone(), pass.clone())),
            _ => None,
        })
        .expect("creds emitted");
    assert_eq!(creds.0, "alice");
    assert_eq!(creds.1, "secret123");
}

#[test]
fn user_without_pass_no_credentials() {
    let mut p = FtpParser::new();
    let mut out = Vec::new();
    p.feed_initiator(b"USER alice\r\n", &mut out);
    assert!(!out.iter().any(|m| matches!(m, FtpMessage::Credentials { .. })));
}

#[test]
fn auth_tls_followed_by_234_emits_upgrade_and_stops() {
    let mut p = FtpParser::new();
    let mut out = Vec::new();
    p.feed_initiator(b"AUTH TLS\r\n", &mut out);
    p.feed_responder(b"234 AUTH TLS OK\r\n", &mut out);
    assert!(out.iter().any(|m| matches!(m, FtpMessage::TlsUpgrade)));
    let before = out.len();
    p.feed_initiator(b"\x16\x03\x01\x00", &mut out);
    p.feed_responder(b"\x16\x03\x01\x00", &mut out);
    assert_eq!(out.len(), before, "no events after TLS upgrade");
}

#[test]
fn retr_emits_transfer_event() {
    let mut p = FtpParser::new();
    let mut out = Vec::new();
    p.feed_initiator(b"RETR /etc/passwd\r\n", &mut out);
    let xfer = out
        .iter()
        .find_map(|m| match m {
            FtpMessage::Transfer { kind, filename } => Some((*kind, filename.clone())),
            _ => None,
        })
        .expect("transfer emitted");
    assert_eq!(xfer.0, TransferKind::Download);
    assert_eq!(xfer.1, "/etc/passwd");
}

#[test]
fn stor_emits_upload_transfer() {
    let mut p = FtpParser::new();
    let mut out = Vec::new();
    p.feed_initiator(b"STOR upload.zip\r\n", &mut out);
    assert!(out.iter().any(|m| matches!(m, FtpMessage::Transfer { kind: TransferKind::Upload, .. })));
}

#[test]
fn intermediate_multiline_reply_dropped() {
    let mut p = FtpParser::new();
    let mut out = Vec::new();
    p.feed_responder(b"220-part 1\r\n220-part 2\r\n220 done\r\n", &mut out);
    let replies: Vec<_> = out.iter().filter(|m| matches!(m, FtpMessage::Reply { .. })).collect();
    assert_eq!(replies.len(), 1, "only the final-line is surfaced");
}

#[test]
fn case_insensitive_verb_matching() {
    let mut p = FtpParser::new();
    let mut out = Vec::new();
    p.feed_initiator(b"user bob\r\n", &mut out);
    p.feed_initiator(b"pass hunter2\r\n", &mut out);
    assert!(out.iter().any(|m| matches!(m, FtpMessage::Credentials { .. })));
}

#[test]
fn unknown_command_emits_other() {
    let mut p = FtpParser::new();
    let mut out = Vec::new();
    p.feed_initiator(b"SITE CHMOD 644 file\r\n", &mut out);
    let cmd = out
        .iter()
        .find_map(|m| match m {
            FtpMessage::Command { verb, args } => Some((verb.clone(), args.clone())),
            _ => None,
        })
        .expect("command");
    assert!(matches!(cmd.0, FtpCommand::Other(ref v) if v == "SITE"));
    assert_eq!(cmd.1, "CHMOD 644 file");
}

#[test]
fn buffer_survives_split_feed() {
    let mut p = FtpParser::new();
    let mut out = Vec::new();
    p.feed_initiator(b"USER al", &mut out);
    p.feed_initiator(b"ice\r\n", &mut out);
    let cmd = out
        .iter()
        .find_map(|m| match m {
            FtpMessage::Command { verb, args } => Some((verb.clone(), args.clone())),
            _ => None,
        })
        .expect("command");
    assert!(matches!(cmd.0, FtpCommand::User));
    assert_eq!(cmd.1, "alice");
}

#[test]
fn messages_come_in_the_documented_order() {
    let mut p = FtpParser::new();
    let mut out = Vec::new();
    p.feed_initiator(b"USER a\r\nPASS b\r\nRETR f\r\n", &mut out);
    assert_eq!(
        out,
        vec![
            FtpMessage::Command { verb: FtpCommand::User, args: "a".to_string() },
            FtpMessage::Credentials { user: "a".to_string(), pass: "b".to_string() },
            FtpMessage::Command { verb: FtpCommand::Pass, args: "b".to_string() },
            FtpMessage::Transfer { kind: TransferKind::Download, filename: "f".to_string() },
            FtpMessage::Command { verb: FtpCommand::Retr, args: "f".to_string() },
        ]
    );
}

#[test]
fn a_second_220_is_a_reply_not_a_banner() {
    let mut p = FtpParser::default();
    let mut out = Vec::new();
    p.feed_responder(b"220 one\r\n220 two\r\n", &mut out);
    assert_eq!(
        out,
        vec![
            FtpMessage::Banner { banner: "one".to_string() },
            FtpMessage::Reply { code: 220, text: "one".to_string() },
            FtpMessage::Reply { code: 220, text: "two".to_string() },
        ]
    );
}

#[test]
fn split_reply_wants_three_digits() {
    assert!(split_reply(b"+12 x").is_none());
    assert!(split_reply(b" 12 x").is_none());
    assert!(split_reply(b"12a x").is_none());
    assert_eq!(split_reply(b"150 ok"), Some((150, "ok", true)));
}
