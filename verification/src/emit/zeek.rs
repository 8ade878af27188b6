//! Zeek `conn.log` connection ids.

use vstd::prelude::*;

use super::text::{dec_chars, join_fields, joined, push_dec, views};
use crate::event::{zeek_state, EndReason, FlowEvent, FlowStats};
use crate::text::{str_chars, string_of};

verus! {

/// Options of the Zeek `conn.log` writer.
#[derive(Debug, Clone, Copy)]
pub struct ZeekOptions {
    /// Write the `#separator` / `#fields` / `#types` preamble.
    pub emit_headers: bool,
    /// Prefix of every connection id.
    pub uid_prefix: &'static str,
}

impl Default for ZeekOptions {
    fn default() -> (o: Self)
        ensures
            o.emit_headers,
            o.uid_prefix@ == seq!['C'],
    {
        proof {
            reveal_strlit("C");
        }
        ZeekOptions { emit_headers: true, uid_prefix: "C" }
    }
}

impl ZeekOptions {
    /// Whether the writer writes a `conn.log` line for `ev`: only for an
    /// ended flow.
    pub fn writes_line<K>(&self, ev: &FlowEvent<K>) -> (r: bool)
        ensures
            r == ev is Ended,
    {
        match ev {
            FlowEvent::Ended { .. } => true,
            _ => false,
        }
    }
}

/// The lowercase hexadecimal digits.
pub open spec fn hex_alphabet() -> Seq<char> {
    seq!['0', '1', '2', '3', '4', '5', '6', '7', '8', '9', 'a', 'b', 'c', 'd', 'e', 'f']
}

/// The 16 lowercase hexadecimal digits of `v`, most significant first.
pub open spec fn hex16(v: u64) -> Seq<char> {
    Seq::new(16, |i: int| hex_alphabet()[((v >> ((60 - 4 * i) as u64)) & 15u64) as int])
}

/// A connection id: the prefix, then the sequence number as 16
/// lowercase hexadecimal digits.
pub fn zeek_uid(prefix: &str, seq: u64) -> (r: String)
    ensures
        r@ == prefix@ + hex16(seq),
{
    let alpha: [char; 16] = ['0', '1', '2', '3', '4', '5', '6', '7', '8', '9', 'a', 'b', 'c', 'd', 'e', 'f'];
    assert(alpha@ == hex_alphabet());
    let mut out = str_chars(prefix);
    let ghost p = out@;
    let mut i: u64 = 0;
    while i < 16
        invariant
            i <= 16,
            alpha@ == hex_alphabet(),
            out@.len() == p.len() + i,
            out@.take(p.len() as int) == p,
            forall|j: int| 0 <= j < i ==> out@[p.len() + j] == hex16(seq)[j],
        decreases 16 - i,
    {
        let shift: u64 = 60 - 4 * i;
        let d: u64 = (seq >> shift) & 15;
        assert(d <= 15) by (bit_vector)
            requires
                d == (seq >> shift) & 15u64,
        ;
        out.push(alpha[d as usize]);
        assert(out@[p.len() + i] == hex16(seq)[i as int]);
        assert(out@.take(p.len() as int) =~= p);
        i += 1;
    }
    assert(out@ =~= prefix@ + hex16(seq));
    string_of(out.as_slice())
}


/// The `conn.log` preamble: separators, empty and unset markers, the
/// path, the field names and the field types, one line each.
pub open spec fn zeek_header_spec() -> Seq<char> {
    "#separator \\x09\n#set_separator\t,\n#empty_field\t(empty)\n#unset_field\t-\n#path\tconn\n#fields\tts\tuid\tid.orig_h\tid.orig_p\tid.resp_h\tid.resp_p\tproto\tduration\torig_bytes\tresp_bytes\tconn_state\thistory\torig_pkts\tresp_pkts\n#types\ttime\tstring\taddr\tport\taddr\tport\tenum\tinterval\tcount\tcount\tstring\tstring\tcount\tcount\n"@
}

/// The `conn.log` preamble, as [`zeek_header_spec`] says.
pub fn zeek_header() -> (r: &'static str)
    ensures
        r@ == zeek_header_spec(),
{
    "#separator \\x09\n#set_separator\t,\n#empty_field\t(empty)\n#unset_field\t-\n#path\tconn\n#fields\tts\tuid\tid.orig_h\tid.orig_p\tid.resp_h\tid.resp_p\tproto\tduration\torig_bytes\tresp_bytes\tconn_state\thistory\torig_pkts\tresp_pkts\n#types\ttime\tstring\taddr\tport\taddr\tport\tenum\tinterval\tcount\tcount\tstring\tstring\tcount\tcount\n"
}

/// The fields of a connection line: time, id, the endpoints, protocol,
/// duration, byte counts, the connection state of the end reason, the
/// history and packet counts; times as given, numbers in decimal.
pub open spec fn zeek_fields(
    ts: Seq<char>,
    uid: Seq<char>,
    src_ip: Seq<char>,
    src_port: u16,
    dst_ip: Seq<char>,
    dst_port: u16,
    proto: Seq<char>,
    duration: Seq<char>,
    stats: FlowStats,
    reason: EndReason,
    history: Seq<char>,
) -> Seq<Seq<char>> {
    seq![
        ts,
        uid,
        src_ip,
        dec_chars(src_port as nat),
        dst_ip,
        dec_chars(dst_port as nat),
        proto,
        duration,
        dec_chars(stats.bytes_initiator as nat),
        dec_chars(stats.bytes_responder as nat),
        zeek_state(reason),
        history,
        dec_chars(stats.packets_initiator as nat),
        dec_chars(stats.packets_responder as nat),
    ]
}

fn chars_of(s: &str) -> (v: Vec<char>)
    ensures
        v@ == s@,
{
    str_chars(s)
}

fn dec_of(n: u64) -> (v: Vec<char>)
    ensures
        v@ == dec_chars(n as nat),
{
    let mut v: Vec<char> = Vec::new();
    push_dec(&mut v, n);
    assert(v@ =~= dec_chars(n as nat));
    v
}

/// One `conn.log` line: the fields of [`zeek_fields`], tab-separated,
/// and a newline.
pub fn zeek_line(
    ts: &str,
    uid: &str,
    src_ip: &str,
    src_port: u16,
    dst_ip: &str,
    dst_port: u16,
    proto: &str,
    duration: &str,
    stats: &FlowStats,
    reason: EndReason,
    history: &str,
) -> (r: String)
    ensures
        r@ == joined(
            zeek_fields(ts@, uid@, src_ip@, src_port, dst_ip@, dst_port, proto@, duration@, *stats, reason, history@),
            '\t',
        ) + seq!['\n'],
{
    let fs: Vec<Vec<char>> = vec![
        chars_of(ts),
        chars_of(uid),
        chars_of(src_ip),
        dec_of(src_port as u64),
        chars_of(dst_ip),
        dec_of(dst_port as u64),
        chars_of(proto),
        chars_of(duration),
        dec_of(stats.bytes_initiator),
        dec_of(stats.bytes_responder),
        chars_of(reason.as_zeek_state()),
        chars_of(history),
        dec_of(stats.packets_initiator),
        dec_of(stats.packets_responder),
    ];
    assert(views(fs@) =~= zeek_fields(ts@, uid@, src_ip@, src_port, dst_ip@, dst_port, proto@, duration@, *stats, reason, history@));
    let mut out = join_fields(&fs, '\t');
    out.push('\n');
    string_of(out.as_slice())
}

} // verus!
