//! RFC 4180 quoting and the `flows.csv` header.

use vstd::prelude::*;

use super::text::{dec_chars, join_fields, joined, push_dec, push_text, views};
use crate::event::{end_reason_slug, EndReason, FlowEvent, FlowStats};
use crate::text::{str_chars, string_of};

verus! {

/// Options of the CSV writer.
#[derive(Debug, Clone, Copy, Default)]
pub struct CsvOptions {
    /// Emit a row per flow start too, behind a leading
    /// `flow_event_kind` column.
    pub emit_started: bool,
    /// Separate fields with tabs instead of commas.
    pub tab_separated: bool,
}

/// The CSV row an event gives: an ended flow always, a started flow
/// only when started rows are asked for, nothing else.
#[derive(Debug, Clone, Copy, PartialEq, Eq, Structural)]
pub enum CsvRow {
    Started,
    Ended,
}

impl CsvOptions {
    /// Which row, if any, the writer writes for `ev`.
    pub fn row_for<K>(&self, ev: &FlowEvent<K>) -> (r: Option<CsvRow>)
        ensures
            r matches Some(CsvRow::Ended) <==> ev is Ended,
            r matches Some(CsvRow::Started) <==> (ev is Started && self.emit_started),
            r is None <==> !(ev is Ended || (ev is Started && self.emit_started)),
    {
        match ev {
            FlowEvent::Ended { .. } => Some(CsvRow::Ended),
            FlowEvent::Started { .. } => if self.emit_started {
                Some(CsvRow::Started)
            } else {
                None
            },
            _ => None,
        }
    }

    /// The field separator: a tab or a comma.
    pub fn sep(&self) -> (c: char)
        ensures
            c == (if self.tab_separated {
                '\t'
            } else {
                ','
            }),
    {
        if self.tab_separated {
            '\t'
        } else {
            ','
        }
    }
}

/// A field must be quoted when it holds the separator, a double quote,
/// a carriage return or a line feed.
pub open spec fn needs_quoting(field: Seq<char>, sep: char) -> bool {
    field.contains(sep) || field.contains('"') || field.contains('\n') || field.contains('\r')
}

/// The field with each double quote doubled.
pub open spec fn double_quotes(field: Seq<char>) -> Seq<char>
    decreases field.len(),
{
    if field.len() == 0 {
        Seq::empty()
    } else {
        let head = if field[0] == '"' {
            seq!['"', '"']
        } else {
            seq![field[0]]
        };
        head + double_quotes(field.drop_first())
    }
}

/// RFC 4180 quoting: a field that needs it is wrapped in double quotes
/// with its own double quotes doubled; any other field is kept.
pub open spec fn quote_spec(field: Seq<char>, sep: char) -> Seq<char> {
    if needs_quoting(field, sep) {
        seq!['"'] + double_quotes(field) + seq!['"']
    } else {
        field
    }
}

proof fn lemma_double_quotes_push(s: Seq<char>, c: char)
    ensures
        double_quotes(s.push(c)) == double_quotes(s) + (if c == '"' {
            seq!['"', '"']
        } else {
            seq![c]
        }),
    decreases s.len(),
{
    if s.len() == 0 {
        assert(s.push(c).drop_first() =~= Seq::<char>::empty());
        assert(double_quotes(Seq::<char>::empty()) == Seq::<char>::empty());
        assert(double_quotes(s) == Seq::<char>::empty());
        assert(s.push(c)[0] == c);
        assert(double_quotes(s.push(c)) =~= double_quotes(s) + (if c == '"' {
            seq!['"', '"']
        } else {
            seq![c]
        }));
    } else {
        lemma_double_quotes_push(s.drop_first(), c);
        assert(s.push(c).drop_first() =~= s.drop_first().push(c));
        assert(double_quotes(s.push(c)) =~= double_quotes(s) + (if c == '"' {
            seq!['"', '"']
        } else {
            seq![c]
        }));
    }
}

/// Quote a field for a CSV row, as [`quote_spec`] says.
pub fn quote(field: &str, sep: char) -> (r: String)
    ensures
        r@ == quote_spec(field@, sep),
{
    let cs = str_chars(field);
    let mut needs = false;
    let mut i: usize = 0;
    while i < cs.len()
        invariant
            i <= cs@.len(),
            cs@ == field@,
            needs == (exists|j: int| 0 <= j < i && (cs@[j] == sep || cs@[j] == '"' || cs@[j] == '\n'
                || cs@[j] == '\r')),
        decreases cs@.len() - i,
    {
        let c = cs[i];
        if c == sep || c == '"' || c == '\n' || c == '\r' {
            needs = true;
        }
        i += 1;
    }
    assert(needs == needs_quoting(field@, sep)) by {
        if needs_quoting(field@, sep) {
            if field@.contains(sep) {
                let j = choose|j: int| 0 <= j < field@.len() && field@[j] == sep;
                assert(cs@[j] == sep);
            } else if field@.contains('"') {
                let j = choose|j: int| 0 <= j < field@.len() && field@[j] == '"';
                assert(cs@[j] == '"');
            } else if field@.contains('\n') {
                let j = choose|j: int| 0 <= j < field@.len() && field@[j] == '\n';
                assert(cs@[j] == '\n');
            } else {
                let j = choose|j: int| 0 <= j < field@.len() && field@[j] == '\r';
                assert(cs@[j] == '\r');
            }
        }
        if needs {
            let j = choose|j: int| 0 <= j < cs@.len() && (cs@[j] == sep || cs@[j] == '"' || cs@[j]
                == '\n' || cs@[j] == '\r');
            assert(field@.contains(cs@[j]));
        }
    }
    if !needs {
        return string_of(cs.as_slice());
    }
    let mut out: Vec<char> = Vec::new();
    out.push('"');
    let mut k: usize = 0;
    while k < cs.len()
        invariant
            k <= cs@.len(),
            out@ == seq!['"'] + double_quotes(cs@.take(k as int)),
        decreases cs@.len() - k,
    {
        let c = cs[k];
        proof {
            lemma_double_quotes_push(cs@.take(k as int), c);
            assert(cs@.take(k + 1) =~= cs@.take(k as int).push(c));
        }
        if c == '"' {
            out.push('"');
        }
        out.push(c);
        assert(out@ =~= seq!['"'] + double_quotes(cs@.take(k + 1)));
        k += 1;
    }
    assert(cs@.take(cs@.len() as int) =~= cs@);
    out.push('"');
    string_of(out.as_slice())
}


/// The separator of the options.
pub open spec fn sep_of(o: CsvOptions) -> char {
    if o.tab_separated {
        '\t'
    } else {
        ','
    }
}

/// The column names of a row.
pub open spec fn csv_columns() -> Seq<Seq<char>> {
    seq![
        "start_sec"@,
        "end_sec"@,
        "duration_sec"@,
        "proto"@,
        "src_ip"@,
        "src_port"@,
        "dst_ip"@,
        "dst_port"@,
        "pkts_init"@,
        "pkts_resp"@,
        "bytes_init"@,
        "bytes_resp"@,
        "retransmits_init"@,
        "retransmits_resp"@,
        "end_reason"@,
    ]
}

/// The header line: the event-kind column first when started rows are
/// written, then the columns, separated, and a newline.
pub open spec fn csv_header_spec(o: CsvOptions) -> Seq<char> {
    (if o.emit_started {
        "flow_event_kind"@.push(sep_of(o))
    } else {
        Seq::empty()
    }) + joined(csv_columns(), sep_of(o)) + seq!['\n']
}

fn text_vec(s: &str) -> (v: Vec<char>)
    ensures
        v@ == s@,
{
    str_chars(s)
}

/// The header line of the CSV log, as [`csv_header_spec`] says.
pub fn csv_header(o: &CsvOptions) -> (r: String)
    ensures
        r@ == csv_header_spec(*o),
{
    let sep = o.sep();
    let cols: Vec<Vec<char>> = vec![
        text_vec("start_sec"),
        text_vec("end_sec"),
        text_vec("duration_sec"),
        text_vec("proto"),
        text_vec("src_ip"),
        text_vec("src_port"),
        text_vec("dst_ip"),
        text_vec("dst_port"),
        text_vec("pkts_init"),
        text_vec("pkts_resp"),
        text_vec("bytes_init"),
        text_vec("bytes_resp"),
        text_vec("retransmits_init"),
        text_vec("retransmits_resp"),
        text_vec("end_reason"),
    ];
    assert(views(cols@) =~= csv_columns());
    let mut out: Vec<char> = Vec::new();
    if o.emit_started {
        push_text(&mut out, "flow_event_kind");
        out.push(sep);
    }
    let body = join_fields(&cols, sep);
    let ghost o0 = out@;
    let mut i: usize = 0;
    while i < body.len()
        invariant
            i <= body@.len(),
            out@ == o0 + body@.take(i as int),
        decreases body@.len() - i,
    {
        out.push(body[i]);
        assert(body@.take(i + 1) =~= body@.take(i as int).push(body@[i as int]));
        i += 1;
    }
    assert(body@.take(body@.len() as int) =~= body@);
    out.push('\n');
    assert(out@ =~= csv_header_spec(*o));
    string_of(out.as_slice())
}

/// The fields of a row. An ended flow: start, end and duration as
/// given, protocol and addresses quoted, ports and counters in
/// decimal, the end reason; behind an `ended` column when started rows
/// are written. A started flow: `started`, the start twice, a zero
/// duration, protocol, addresses and ports, six zero counters and an
/// empty reason.
pub open spec fn csv_row_fields(
    o: CsvOptions,
    row: CsvRow,
    start: Seq<char>,
    end: Seq<char>,
    dur: Seq<char>,
    proto: Seq<char>,
    src_ip: Seq<char>,
    src_port: u16,
    dst_ip: Seq<char>,
    dst_port: u16,
    stats: FlowStats,
    reason: EndReason,
) -> Seq<Seq<char>> {
    let sep = sep_of(o);
    match row {
        CsvRow::Ended => (if o.emit_started {
            seq!["ended"@]
        } else {
            Seq::empty()
        }) + seq![
            start,
            end,
            dur,
            quote_spec(proto, sep),
            quote_spec(src_ip, sep),
            dec_chars(src_port as nat),
            quote_spec(dst_ip, sep),
            dec_chars(dst_port as nat),
            dec_chars(stats.packets_initiator as nat),
            dec_chars(stats.packets_responder as nat),
            dec_chars(stats.bytes_initiator as nat),
            dec_chars(stats.bytes_responder as nat),
            dec_chars(stats.retransmits_initiator as nat),
            dec_chars(stats.retransmits_responder as nat),
            end_reason_slug(reason),
        ],
        CsvRow::Started => seq![
            "started"@,
            start,
            start,
            "0.000000"@,
            quote_spec(proto, sep),
            quote_spec(src_ip, sep),
            dec_chars(src_port as nat),
            quote_spec(dst_ip, sep),
            dec_chars(dst_port as nat),
            "0"@,
            "0"@,
            "0"@,
            "0"@,
            "0"@,
            "0"@,
            Seq::empty(),
        ],
    }
}

/// A row line: its fields separated, and a newline.
pub open spec fn csv_row_spec(
    o: CsvOptions,
    row: CsvRow,
    start: Seq<char>,
    end: Seq<char>,
    dur: Seq<char>,
    proto: Seq<char>,
    src_ip: Seq<char>,
    src_port: u16,
    dst_ip: Seq<char>,
    dst_port: u16,
    stats: FlowStats,
    reason: EndReason,
) -> Seq<char> {
    joined(
        csv_row_fields(o, row, start, end, dur, proto, src_ip, src_port, dst_ip, dst_port, stats, reason),
        sep_of(o),
    ) + seq!['\n']
}

fn dec_vec(n: u64) -> (v: Vec<char>)
    ensures
        v@ == dec_chars(n as nat),
{
    let mut v: Vec<char> = Vec::new();
    push_dec(&mut v, n);
    assert(v@ =~= dec_chars(n as nat));
    v
}

/// One row line of the CSV log, as [`csv_row_spec`] says; the times
/// come as text.
pub fn csv_row(
    o: &CsvOptions,
    row: CsvRow,
    start: &str,
    end: &str,
    dur: &str,
    proto: &str,
    src_ip: &str,
    src_port: u16,
    dst_ip: &str,
    dst_port: u16,
    stats: &FlowStats,
    reason: EndReason,
) -> (r: String)
    ensures
        r@ == csv_row_spec(*o, row, start@, end@, dur@, proto@, src_ip@, src_port, dst_ip@, dst_port, *stats, reason),
{
    let sep = o.sep();
    let qp = text_vec(quote(proto, sep).as_str());
    let qs = text_vec(quote(src_ip, sep).as_str());
    let qd = text_vec(quote(dst_ip, sep).as_str());
    let fs: Vec<Vec<char>> = match row {
        CsvRow::Ended => if o.emit_started {
            vec![
                text_vec("ended"),
                text_vec(start),
                text_vec(end),
                text_vec(dur),
                qp,
                qs,
                dec_vec(src_port as u64),
                qd,
                dec_vec(dst_port as u64),
                dec_vec(stats.packets_initiator),
                dec_vec(stats.packets_responder),
                dec_vec(stats.bytes_initiator),
                dec_vec(stats.bytes_responder),
                dec_vec(stats.retransmits_initiator),
                dec_vec(stats.retransmits_responder),
                text_vec(reason.as_str()),
            ]
        } else {
            vec![
                text_vec(start),
                text_vec(end),
                text_vec(dur),
                qp,
                qs,
                dec_vec(src_port as u64),
                qd,
                dec_vec(dst_port as u64),
                dec_vec(stats.packets_initiator),
                dec_vec(stats.packets_responder),
                dec_vec(stats.bytes_initiator),
                dec_vec(stats.bytes_responder),
                dec_vec(stats.retransmits_initiator),
                dec_vec(stats.retransmits_responder),
                text_vec(reason.as_str()),
            ]
        },
        CsvRow::Started => vec![
            text_vec("started"),
            text_vec(start),
            text_vec(start),
            text_vec("0.000000"),
            qp,
            qs,
            dec_vec(src_port as u64),
            qd,
            dec_vec(dst_port as u64),
            text_vec("0"),
            text_vec("0"),
            text_vec("0"),
            text_vec("0"),
            text_vec("0"),
            text_vec("0"),
            Vec::new(),
        ],
    };
    let ghost want = csv_row_fields(*o, row, start@, end@, dur@, proto@, src_ip@, src_port, dst_ip@, dst_port, *stats, reason);
    assert(views(fs@) =~= want);
    let mut out = join_fields(&fs, sep);
    out.push('\n');
    string_of(out.as_slice())
}


} // verus!
