//! Start-line and header parsing (through `httparse`) and trailer
//! field splitting.

use vstd::prelude::*;

use super::types::{BodyFraming, HeaderSeq, HttpVersion, Normalization};
use crate::text::{copy_bytes, crlf_at, is_ws, lemma_bytes_deep_view};

verus! {

/// Which side of the connection a direction represents.
#[derive(Debug, Clone, Copy, PartialEq, Eq, Structural)]
pub enum Dir {
    /// Client to server: requests.
    Request,
    /// Server to client: responses.
    Response,
}

/// Parsed start line and headers, direction-agnostic.
#[derive(Debug, Clone)]
pub struct Head {
    pub dir: Dir,
    /// Request method; empty on a response.
    pub method: Vec<u8>,
    /// Request target; empty on a response.
    pub path: Vec<u8>,
    /// Response status; `0` on a request.
    pub status: u16,
    /// Response reason phrase; empty on a request.
    pub reason: Vec<u8>,
    pub version: HttpVersion,
    pub headers: Vec<(Vec<u8>, Vec<u8>)>,
    /// How this message's body is delimited.
    pub framing: BodyFraming,
    /// `true` for a `1xx` interim response.
    pub interim: bool,
    /// Normalizations applied to resolve a framing ambiguity.
    pub applied: Vec<Normalization>,
    /// The exact on-wire head, start line through the blank line.
    pub raw: Vec<u8>,
}

/// Outcome of `httparse::Request::parse` on `buf` with `slots` empty
/// header slots: `None` when httparse reports an error, `Some(None)`
/// when the head is incomplete, and for a complete head its length with
/// the method, target, minor version and header slots httparse filled.
pub uninterp spec fn httparse_request(buf: Seq<u8>, slots: nat) -> Option<
    Option<(usize, Option<Seq<u8>>, Option<Seq<u8>>, Option<u8>, HeaderSeq)>,
>;

/// Outcome of `httparse::Response::parse` on `buf` with `slots` empty
/// header slots: `None` on an error, `Some(None)` when incomplete, and
/// for a complete head its length with the minor version, status code,
/// reason phrase and header slots httparse filled.
pub uninterp spec fn httparse_response(buf: Seq<u8>, slots: nat) -> Option<
    Option<(usize, Option<u8>, Option<u16>, Option<Seq<u8>>, HeaderSeq)>,
>;

/// Calls `httparse::Request::parse` on `buf` with `slots` empty header
/// slots and converts what it filled in. The contract claims that the
/// outcome is a function of the two arguments, named
/// [`httparse_request`], and that a complete head's length is a
/// non-empty prefix of `buf` (httparse returns the offset of the body,
/// after at least a request line); which heads httparse accepts is not
/// stated.
#[verifier::external_body]
pub(crate) fn httparse_request_call(buf: &[u8], slots: usize) -> (r: Option<
    Option<(usize, Option<Vec<u8>>, Option<Vec<u8>>, Option<u8>, Vec<(Vec<u8>, Vec<u8>)>)>,
>)
    ensures
        r.deep_view() == httparse_request(buf@, slots as nat),
        r matches Some(Some(t)) ==> 0 < t.0 <= buf@.len(),
{
    let mut storage = vec![httparse::EMPTY_HEADER; slots];
    let mut req = httparse::Request::new(&mut storage);
    let len = match req.parse(buf) {
        Ok(httparse::Status::Complete(n)) => n,
        Ok(httparse::Status::Partial) => return Some(None),
        Err(_) => return None,
    };
    let hs = req.headers.iter().map(|h| (h.name.as_bytes().to_vec(), h.value.to_vec())).collect();
    let method = req.method.map(|m| m.as_bytes().to_vec());
    Some(Some((len, method, req.path.map(|p| p.as_bytes().to_vec()), req.version, hs)))
}

/// Calls `httparse::Response::parse` on `buf` with `slots` empty header
/// slots and converts what it filled in. The contract claims that the
/// outcome is a function of the two arguments, named
/// [`httparse_response`], and that a complete head's length is a
/// non-empty prefix of `buf`.
#[verifier::external_body]
pub(crate) fn httparse_response_call(buf: &[u8], slots: usize) -> (r: Option<
    Option<(usize, Option<u8>, Option<u16>, Option<Vec<u8>>, Vec<(Vec<u8>, Vec<u8>)>)>,
>)
    ensures
        r.deep_view() == httparse_response(buf@, slots as nat),
        r matches Some(Some(t)) ==> 0 < t.0 <= buf@.len(),
{
    let mut storage = vec![httparse::EMPTY_HEADER; slots];
    let mut resp = httparse::Response::new(&mut storage);
    let len = match resp.parse(buf) {
        Ok(httparse::Status::Complete(n)) => n,
        Ok(httparse::Status::Partial) => return Some(None),
        Err(_) => return None,
    };
    let hs = resp.headers.iter().map(|h| (h.name.as_bytes().to_vec(), h.value.to_vec())).collect();
    let reason = resp.reason.map(|r| r.as_bytes().to_vec());
    Some(Some((len, resp.version, resp.code, reason, hs)))
}

/// The header slots before the first one left unnamed.
pub open spec fn named_prefix(hs: HeaderSeq) -> HeaderSeq
    decreases hs.len(),
{
    if hs.len() == 0 || hs[0].0.len() == 0 {
        Seq::empty()
    } else {
        seq![hs[0]] + named_prefix(hs.drop_first())
    }
}

/// The version an httparse minor version number stands for.
pub open spec fn version_of(v: Option<u8>) -> Option<HttpVersion> {
    match v {
        Some(0u8) => Some(HttpVersion::Http1_0),
        Some(1u8) => Some(HttpVersion::Http1_1),
        _ => None,
    }
}

/// Number of header slots a head is parsed with.
pub open spec fn header_slots(max_headers: usize) -> nat {
    if max_headers == 0 {
        1
    } else {
        max_headers as nat
    }
}

/// The parsed start line and headers of `head`, before framing is
/// decided (framing `NoBody`, not interim, nothing applied).
pub open spec fn head_parse_spec(head: Seq<u8>, dir: Dir, max_headers: usize) -> Option<
    (Seq<u8>, Seq<u8>, u16, Seq<u8>, HttpVersion, HeaderSeq),
> {
    match dir {
        Dir::Request => match httparse_request(head, header_slots(max_headers)) {
            Some(Some((_, Some(m), Some(p), v, hs))) => match version_of(v) {
                Some(ver) => Some((m, p, 0u16, Seq::empty(), ver, named_prefix(hs))),
                None => None,
            },
            _ => None,
        },
        Dir::Response => match httparse_response(head, header_slots(max_headers)) {
            Some(Some((_, v, Some(code), reason, hs))) => match version_of(v) {
                Some(ver) => Some(
                    (
                        Seq::empty(),
                        Seq::empty(),
                        code,
                        match reason {
                            Some(r) => r,
                            None => Seq::empty(),
                        },
                        ver,
                        named_prefix(hs),
                    ),
                ),
                None => None,
            },
            _ => None,
        },
    }
}

/// The parsed fields of a head, as plain values.
pub open spec fn head_fields(h: Head) -> (Seq<u8>, Seq<u8>, u16, Seq<u8>, HttpVersion, HeaderSeq) {
    (h.method@, h.path@, h.status, h.reason@, h.version, h.headers.deep_view())
}

fn version_from(v: Option<u8>) -> (r: Option<HttpVersion>)
    ensures
        r == version_of(v),
{
    match v {
        Some(0u8) => Some(HttpVersion::Http1_0),
        Some(1u8) => Some(HttpVersion::Http1_1),
        _ => None,
    }
}

pub(crate) fn named_headers(hs: Vec<(Vec<u8>, Vec<u8>)>) -> (r: Vec<(Vec<u8>, Vec<u8>)>)
    ensures
        r.deep_view() == named_prefix(hs.deep_view()),
{
    let ghost hv = hs.deep_view();
    let mut n: usize = 0;
    while n < hs.len() && hs[n].0.len() > 0
        invariant
            n <= hs.len(),
            hv == hs.deep_view(),
            forall|j: int| 0 <= j < n ==> (#[trigger] hv[j]).0.len() > 0,
        decreases hs.len() - n,
    {
        n += 1;
    }
    proof {
        assert(n < hs.len() ==> hv[n as int].0.len() == 0);
        lemma_named_prefix(hv, n as int);
    }
    let mut out = hs;
    out.truncate(n);
    assert(out.deep_view() =~= hv.take(n as int));
    out
}

proof fn lemma_named_prefix(hs: HeaderSeq, n: int)
    requires
        0 <= n <= hs.len(),
        forall|j: int| 0 <= j < n ==> (#[trigger] hs[j]).0.len() > 0,
        n < hs.len() ==> hs[n].0.len() == 0,
    ensures
        named_prefix(hs) == hs.take(n),
    decreases n,
{
    if n == 0 {
        assert(hs.take(0) =~= Seq::<(Seq<u8>, Seq<u8>)>::empty());
    } else {
        let t = hs.drop_first();
        assert forall|j: int| 0 <= j < n - 1 implies (#[trigger] t[j]).0.len() > 0 by {
            assert(t[j] == hs[j + 1]);
        }
        if n - 1 < t.len() {
            assert(t[n - 1] == hs[n]);
        }
        lemma_named_prefix(t, n - 1);
        assert(seq![hs[0]] + t.take(n - 1) =~= hs.take(n));
    }
}

/// Parse a start line and header block. The framing fields are left
/// at `NoBody` / not interim / nothing applied for the caller to fill.
pub fn parse_head(head: &[u8], dir: Dir, max_headers: usize) -> (r: Option<Head>)
    ensures
        r is Some <==> head_parse_spec(head@, dir, max_headers) is Some,
        r matches Some(h) ==> {
            &&& Some(head_fields(h)) == head_parse_spec(head@, dir, max_headers)
            &&& h.dir == dir
            &&& h.raw@ == head@
            &&& h.framing == BodyFraming::NoBody
            &&& !h.interim
            &&& h.applied@.len() == 0
        },
{
    let slots: usize = if max_headers == 0 { 1 } else { max_headers };
    match dir {
        Dir::Request => {
            let parsed = httparse_request_call(head, slots);
            match parsed {
                Some(Some((_, Some(m), Some(p), v, hs))) => {
                    match version_from(v) {
                        Some(version) => {
                            proof {
                                lemma_bytes_deep_view(m);
                                lemma_bytes_deep_view(p);
                            }
                            let headers = named_headers(hs);
                            let h = Head {
                                dir,
                                method: m,
                                path: p,
                                status: 0,
                                reason: Vec::new(),
                                version,
                                headers,
                                framing: BodyFraming::NoBody,
                                interim: false,
                                applied: Vec::new(),
                                raw: copy_bytes(head),
                            };
                            assert(h.reason@ =~= Seq::<u8>::empty());
                            Some(h)
                        },
                        None => None,
                    }
                },
                _ => None,
            }
        },
        Dir::Response => {
            let parsed = httparse_response_call(head, slots);
            match parsed {
                Some(Some((_, v, Some(code), reason, hs))) => {
                    match version_from(v) {
                        Some(version) => {
                            let reason = match reason {
                                Some(r) => {
                                    proof {
                                        lemma_bytes_deep_view(r);
                                    }
                                    r
                                },
                                None => Vec::new(),
                            };
                            let headers = named_headers(hs);
                            let h = Head {
                                dir,
                                method: Vec::new(),
                                path: Vec::new(),
                                status: code,
                                reason,
                                version,
                                headers,
                                framing: BodyFraming::NoBody,
                                interim: false,
                                applied: Vec::new(),
                                raw: copy_bytes(head),
                            };
                            assert(h.method@ =~= Seq::<u8>::empty());
                            assert(h.path@ =~= Seq::<u8>::empty());
                            Some(h)
                        },
                        None => None,
                    }
                },
                _ => None,
            }
        },
    }
}

// ── trailer fields ────────────────────────────────────────────────

/// Index of the first CR LF at or after `i`.
pub open spec fn crlf_index(s: Seq<u8>, i: int) -> Option<int>
    decreases s.len() - i,
{
    if i < 0 || i + 1 >= s.len() {
        None
    } else if crlf_at(s, i) {
        Some(i)
    } else {
        crlf_index(s, i + 1)
    }
}

/// Index of the first `:` at or after `i`.
pub open spec fn colon_index(s: Seq<u8>, i: int) -> Option<int>
    decreases s.len() - i,
{
    if i < 0 || i >= s.len() {
        None
    } else if s[i] == 58 {
        Some(i)
    } else {
        colon_index(s, i + 1)
    }
}

/// Drop leading spaces and tabs.
pub open spec fn skip_sp_ht(s: Seq<u8>) -> Seq<u8>
    decreases s.len(),
{
    if s.len() > 0 && (s[0] == 32 || s[0] == 9) {
        skip_sp_ht(s.drop_first())
    } else {
        s
    }
}

/// A trailer field value: leading spaces and tabs and trailing ASCII
/// whitespace removed.
pub open spec fn field_value(v: Seq<u8>) -> Seq<u8> {
    crate::text::trim_end(skip_sp_ht(v))
}

/// The `name: value` fields of the lines from `pos` up to the first
/// empty line; lines without a colon are skipped.
pub open spec fn trailer_fields_from(b: Seq<u8>, pos: int) -> HeaderSeq
    decreases b.len() - pos,
{
    if pos < 0 || pos >= b.len() {
        Seq::empty()
    } else {
        match crlf_index(b, pos) {
            None => Seq::empty(),
            Some(eol) => if eol <= pos {
                Seq::empty()
            } else {
                proof {
                    lemma_crlf_index_bounds(b, pos);
                }
                let line = b.subrange(pos, eol);
                let rest = trailer_fields_from(b, eol + 2);
                match colon_index(line, 0) {
                    Some(c) => seq![(line.take(c), field_value(b.subrange(pos + c + 1, eol)))]
                        + rest,
                    None => rest,
                }
            },
        }
    }
}

/// The fields of a trailer section that starts with the zero-size
/// chunk line.
pub open spec fn trailer_fields(b: Seq<u8>) -> HeaderSeq {
    match crlf_index(b, 0) {
        Some(eol) => trailer_fields_from(b, eol + 2),
        None => trailer_fields_from(b, 0),
    }
}

pub proof fn lemma_crlf_index_bounds(s: Seq<u8>, i: int)
    ensures
        crlf_index(s, i) matches Some(e) ==> i <= e && e + 1 < s.len() && crlf_at(s, e),
    decreases s.len() - i,
{
    if !(i < 0 || i + 1 >= s.len()) && !crlf_at(s, i) {
        lemma_crlf_index_bounds(s, i + 1);
    }
}

pub proof fn lemma_crlf_index(s: Seq<u8>, from: int, i: int)
    requires
        0 <= from,
        crate::text::first_crlf_from(s, from, i),
    ensures
        crlf_index(s, from) == Some(i),
    decreases i - from,
{
    if from < i {
        lemma_crlf_index(s, from + 1, i);
    }
}

pub proof fn lemma_crlf_index_none(s: Seq<u8>, from: int)
    requires
        0 <= from,
        crate::text::no_crlf_from(s, from),
    ensures
        crlf_index(s, from) is None,
    decreases s.len() - from,
{
    if from + 1 < s.len() {
        lemma_crlf_index_none(s, from + 1);
    }
}

/// Index of the first CR LF at or after `from`, as [`crlf_index`].
fn find_crlf(buf: &[u8], from: usize) -> (r: Option<usize>)
    ensures
        r matches Some(i) ==> crlf_index(buf@, from as int) == Some(i as int) && from <= i && i + 1
            < buf@.len(),
        r is None ==> crlf_index(buf@, from as int) is None,
{
    let r = crate::text::find_crlf_from(buf, from);
    proof {
        match r {
            Some(i) => lemma_crlf_index(buf@, from as int, i as int),
            None => lemma_crlf_index_none(buf@, from as int),
        }
    }
    r
}

fn find_colon(line: &[u8]) -> (r: Option<usize>)
    ensures
        r matches Some(c) ==> colon_index(line@, 0) == Some(c as int) && c < line@.len(),
        r is None ==> colon_index(line@, 0) is None,
{
    let mut i: usize = 0;
    while i < line.len()
        invariant
            i <= line@.len(),
            colon_index(line@, 0) == colon_index(line@, i as int),
        decreases line@.len() - i,
    {
        if line[i] == 58 {
            return Some(i);
        }
        i += 1;
    }
    None
}

fn value_of(v: &[u8]) -> (r: Vec<u8>)
    ensures
        r@ == field_value(v@),
{
    let mut lo: usize = 0;
    assert(v@.skip(0) =~= v@);
    while lo < v.len() && (v[lo] == 32 || v[lo] == 9)
        invariant
            lo <= v@.len(),
            skip_sp_ht(v@) == skip_sp_ht(v@.skip(lo as int)),
        decreases v@.len() - lo,
    {
        assert(v@.skip(lo as int).drop_first() =~= v@.skip(lo + 1));
        lo += 1;
    }
    assert(skip_sp_ht(v@.skip(lo as int)) == v@.skip(lo as int));
    let rest = &v[lo..v.len()];
    assert(rest@ =~= v@.skip(lo as int));
    let mut hi: usize = rest.len();
    assert(rest@.take(hi as int) =~= rest@);
    while hi > 0 && is_ws_byte(rest[hi - 1])
        invariant
            hi <= rest@.len(),
            crate::text::trim_end(rest@) == crate::text::trim_end(rest@.take(hi as int)),
        decreases hi,
    {
        assert(rest@.take(hi as int).drop_last() =~= rest@.take(hi - 1));
        hi -= 1;
    }
    assert(crate::text::trim_end(rest@.take(hi as int)) == rest@.take(hi as int));
    copy_bytes(&rest[0..hi])
}

fn is_ws_byte(b: u8) -> (r: bool)
    ensures
        r == is_ws(b),
{
    b == 32 || b == 9 || b == 10 || b == 12 || b == 13
}

/// Split a trailer section into fields. The block starts with the
/// zero-size chunk line and ends with a blank line; a line that is not
/// `name: value` is skipped.
pub fn parse_trailer_fields(block: &[u8]) -> (r: Vec<(Vec<u8>, Vec<u8>)>)
    ensures
        r.deep_view() == trailer_fields(block@),
{
    let mut pos: usize = 0;
    match find_crlf(block, 0) {
        Some(eol) => {
            assert(eol + 1 < block@.len());
            assert(block@.len() == block.len());
            pos = eol + 2;
        },
        None => {},
    }
    let ghost target = trailer_fields(block@);
    let mut out: Vec<(Vec<u8>, Vec<u8>)> = Vec::new();
    assert(out.deep_view() + trailer_fields_from(block@, pos as int) =~= target);
    let mut done = false;
    while !done && pos < block.len()
        invariant
            pos <= block@.len(),
            out.deep_view() + trailer_fields_from(block@, pos as int) == target,
            done ==> trailer_fields_from(block@, pos as int) =~= Seq::<(Seq<u8>, Seq<u8>)>::empty(),
        decreases block@.len() - pos + (if done { 0int } else { 1int }),
    {
        match find_crlf(block, pos) {
            None => {
                done = true;
            },
            Some(eol) => {
                if eol == pos {
                    done = true;
                } else {
                    let line = &block[pos..eol];
                    let ghost linev = block@.subrange(pos as int, eol as int);
                    assert(line@ =~= linev);
                    match find_colon(line) {
                        Some(c) => {
                            let name = copy_bytes(&line[0..c]);
                            assert(name@ =~= linev.take(c as int));
                            let value = value_of(&block[pos + c + 1..eol]);
                            let ghost before = out.deep_view();
                            proof {
                                lemma_bytes_deep_view(name);
                                lemma_bytes_deep_view(value);
                            }
                            out.push((name, value));
                            proof {
                                assert(out.deep_view() =~= before.push((name@, value@)));
                                assert(before.push((name@, value@)) + trailer_fields_from(
                                    block@,
                                    eol + 2,
                                ) =~= before + (seq![(name@, value@)] + trailer_fields_from(
                                    block@,
                                    eol + 2,
                                )));
                            }
                        },
                        None => {},
                    }
                    pos = eol + 2;
                }
            },
        }
    }
    assert(out.deep_view() =~= target);
    out
}

} // verus!
