//! Line framing and line splitting for the FTP control channel.

use vstd::prelude::*;

use crate::http::head::{crlf_index, lemma_crlf_index, lemma_crlf_index_bounds, lemma_crlf_index_none};
use crate::text::{
    copy_bytes, find_char, find_crlf_from, index_of_char, str_chars, trim_end_chars, trim_end_str,
    trim_start_chars, trim_start_str, utf8_str,
};
use vstd::string::StrSliceExecFns;
use vstd::utf8::{decode_utf8, valid_utf8};

verus! {

/// The longest line kept; a longer one is garbage and dropped.
pub const MAX_LINE: usize = 4096;

/// What taking the first line out of a buffer gives: the line (without
/// its CR LF), if a complete one is there, and the buffer left behind.
/// A complete line longer than [`MAX_LINE`] is dropped and the next
/// one taken; with no complete line, a buffer over [`MAX_LINE`] is
/// cleared.
pub open spec fn extract_line_spec(b: Seq<u8>) -> (Option<Seq<u8>>, Seq<u8>)
    decreases b.len(),
{
    match crlf_index(b, 0) {
        None => (None, if b.len() > MAX_LINE {
            Seq::empty()
        } else {
            b
        }),
        Some(e) => if e > MAX_LINE {
            proof {
                lemma_crlf_index_bounds(b, 0);
            }
            extract_line_spec(b.skip(e + 2))
        } else {
            (Some(b.take(e)), b.skip(e + 2))
        },
    }
}

/// Taking a line out leaves a shorter buffer.
pub proof fn lemma_extract_line_shrinks(b: Seq<u8>)
    ensures
        extract_line_spec(b).0 is Some ==> extract_line_spec(b).1.len() < b.len(),
        extract_line_spec(b).1.len() <= b.len(),
    decreases b.len(),
{
    lemma_crlf_index_bounds(b, 0);
    match crlf_index(b, 0) {
        None => {},
        Some(e) => {
            if e > MAX_LINE {
                lemma_extract_line_shrinks(b.skip(e + 2));
            }
        },
    }
}

/// Take the first CR LF terminated line out of `buf`, as
/// [`extract_line_spec`] says.
pub fn extract_line(buf: &mut Vec<u8>) -> (r: Option<Vec<u8>>)
    ensures
        final(buf)@ == extract_line_spec(old(buf)@).1,
        r matches Some(l) ==> extract_line_spec(old(buf)@).0 == Some(l@),
        r is None ==> extract_line_spec(old(buf)@).0 is None,
{
    loop
        invariant
            extract_line_spec(buf@) == extract_line_spec(old(buf)@),
        decreases buf@.len(),
    {
        match find_crlf_from(buf.as_slice(), 0) {
            None => {
                proof {
                    lemma_crlf_index_none(buf@, 0);
                }
                if buf.len() > MAX_LINE {
                    *buf = Vec::new();
                }
                return None;
            },
            Some(eol) => {
                proof {
                    lemma_crlf_index(buf@, 0, eol as int);
                }
                let n = buf.len();
                let rest = copy_bytes(&buf[eol + 2..n]);
                assert(rest@ =~= buf@.skip(eol + 2));
                if eol > MAX_LINE {
                    *buf = rest;
                } else {
                    let line = copy_bytes(&buf[0..eol]);
                    assert(line@ =~= buf@.take(eol as int));
                    *buf = rest;
                    return Some(line);
                }
            },
        }
    }
}

/// A command line `VERB args`, trailing white space removed: the verb
/// before the first space and the rest with leading white space
/// removed, or the whole line and no arguments. `None` for a line that
/// is not UTF-8 or is blank.
pub open spec fn command_parts(line: Seq<u8>) -> Option<(Seq<char>, Seq<char>)> {
    if !valid_utf8(line) {
        None
    } else {
        let s = trim_end_chars(decode_utf8(line));
        if s.len() == 0 {
            None
        } else {
            match index_of_char(s, ' ', 0) {
                Some(k) => Some((s.take(k), trim_start_chars(s.skip(k)))),
                None => Some((s, Seq::empty())),
            }
        }
    }
}

/// Split a command line into its verb and its arguments.
pub fn split_command(line: &[u8]) -> (r: Option<(&str, &str)>)
    ensures
        r matches Some((v, a)) ==> command_parts(line@) == Some((v@, a@)),
        r is None ==> command_parts(line@) is None,
{
    let s = match utf8_str(line) {
        Some(s) => trim_end_str(s),
        None => {
            return None;
        },
    };
    let cs = str_chars(s);
    let n = cs.len();
    if n == 0 {
        return None;
    }
    match find_char(&cs, ' ', 0) {
        Some(k) => {
            let verb = s.substring_char(0, k);
            let rest = trim_start_str(s.substring_char(k, n));
            assert(verb@ =~= s@.take(k as int));
            assert(s@.subrange(k as int, n as int) =~= s@.skip(k as int));
            Some((verb, rest))
        },
        None => {
            let none = s.substring_char(n, n);
            assert(none@ =~= Seq::<char>::empty());
            Some((s, none))
        },
    }
}

/// A UTF-8 continuation byte: never the first byte of a character.
pub open spec fn is_continuation(b: u8) -> bool {
    0x80 <= b && b < 0xC0
}

/// An ASCII decimal digit.
pub open spec fn is_digit(b: u8) -> bool {
    48 <= b && b <= 57
}

/// The three-digit code at the start of a reply line: three ASCII
/// digits and their decimal value; `None` for anything else (a sign, a
/// space, fewer digits).
pub open spec fn reply_code(line: Seq<u8>) -> Option<u16> {
    if line.len() >= 3 && is_digit(line[0]) && is_digit(line[1]) && is_digit(line[2]) {
        Some(((line[0] - 48) * 100 + (line[1] - 48) * 10 + (line[2] - 48)) as u16)
    } else {
        None
    }
}

/// Read the three-digit code at the start of a reply line.
fn reply_code_of(line: &[u8]) -> (r: Option<u16>)
    requires
        line@.len() >= 3,
    ensures
        r == reply_code(line@),
{
    let (a, b, c) = (line[0], line[1], line[2]);
    if 48 <= a && a <= 57 && 48 <= b && b <= 57 && 48 <= c && c <= 57 {
        let v: u16 = (a - 48) as u16 * 100 + (b - 48) as u16 * 10 + (c - 48) as u16;
        Some(v)
    } else {
        None
    }
}

/// A UTF-8 reply line whose character boundaries do not fall at bytes
/// 3 and 4, where the code and the text are cut apart.
pub open spec fn reply_cut_splits_char(line: Seq<u8>) -> bool {
    &&& valid_utf8(line)
    &&& line.len() >= 4
    &&& (is_continuation(line[3]) || (reply_code(line) is Some && line.len() > 4 && is_continuation(
        line[4],
    )))
}

/// A reply line `XYZ text` or `XYZ-text`: the code, the text after the
/// separator with trailing white space removed, and whether the
/// separator is a space (a final line) rather than `-` (a multi-line
/// reply going on). `None` for a line that is not UTF-8, is shorter
/// than four bytes or does not start with three ASCII digits.
pub open spec fn reply_parts(line: Seq<u8>) -> Option<(u16, Seq<char>, bool)> {
    if !valid_utf8(line) || line.len() < 4 {
        None
    } else {
        match reply_code(line) {
            None => None,
            Some(code) => if valid_utf8(line.skip(4)) {
                Some((code, trim_end_chars(decode_utf8(line.skip(4))), line[3] == 32))
            } else {
                None
            },
        }
    }
}

/// Split a reply line into its code, its text and whether it is final.
pub fn split_reply(line: &[u8]) -> (r: Option<(u16, &str, bool)>)
    requires
        !reply_cut_splits_char(line@),
    ensures
        r matches Some((c, t, f)) ==> reply_parts(line@) == Some((c, t@, f)),
        r is None ==> reply_parts(line@) is None,
{
    if utf8_str(line).is_none() {
        return None;
    }
    let n = line.len();
    if n < 4 {
        return None;
    }
    let code = match reply_code_of(line) {
        Some(c) => c,
        None => {
            return None;
        },
    };
    assert(line@.subrange(4, n as int) =~= line@.skip(4));
    let text = match utf8_str(&line[4..n]) {
        Some(t) => trim_end_str(t),
        None => {
            return None;
        },
    };
    Some((code, text, line[3] == 32))
}

/// Whether [`split_reply`] may be asked about a line: its character
/// boundaries do not fall inside the code or right after the separator.
pub fn reply_line_splits_cleanly(line: &[u8]) -> (r: bool)
    ensures
        r == !reply_cut_splits_char(line@),
{
    if utf8_str(line).is_none() {
        return true;
    }
    let n = line.len();
    if n < 4 {
        return true;
    }
    if 0x80 <= line[3] && line[3] < 0xC0 {
        return false;
    }
    if n > 4 && 0x80 <= line[4] && line[4] < 0xC0 {
        return reply_code_of(line).is_none();
    }
    true
}

} // verus!
