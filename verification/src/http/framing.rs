//! Message framing rules: how `Transfer-Encoding` and `Content-Length`
//! decide where a body ends, which head bytes are refused as ambiguous,
//! and when a message closes its connection.

use vstd::prelude::*;

use super::poison::HttpPoison;
use super::types::{
    header_lookup, header_values, BodyFraming, HeaderSeq, HttpVersion, Normalization,
    SmugglingPolicy,
};
use crate::text::{
    decimal_u64, eq_ic, eq_ignore_ascii_case, lemma_bytes_deep_view, parse_decimal, split_bytes,
    split_on, trim, trim_ascii, trim_bounds,
};

verus! {

// ── header names and tokens ───────────────────────────────────────

pub open spec fn tok_transfer_encoding() -> Seq<u8> {
    seq![116u8, 114, 97, 110, 115, 102, 101, 114, 45, 101, 110, 99, 111, 100, 105, 110, 103]
}

pub open spec fn tok_content_length() -> Seq<u8> {
    seq![99u8, 111, 110, 116, 101, 110, 116, 45, 108, 101, 110, 103, 116, 104]
}

pub open spec fn tok_chunked() -> Seq<u8> {
    seq![99u8, 104, 117, 110, 107, 101, 100]
}

pub open spec fn tok_identity() -> Seq<u8> {
    seq![105u8, 100, 101, 110, 116, 105, 116, 121]
}

pub open spec fn tok_host() -> Seq<u8> {
    seq![104u8, 111, 115, 116]
}

pub open spec fn tok_connection() -> Seq<u8> {
    seq![99u8, 111, 110, 110, 101, 99, 116, 105, 111, 110]
}

pub open spec fn tok_close() -> Seq<u8> {
    seq![99u8, 108, 111, 115, 101]
}

pub open spec fn tok_keep_alive() -> Seq<u8> {
    seq![107u8, 101, 101, 112, 45, 97, 108, 105, 118, 101]
}

pub open spec fn tok_upgrade() -> Seq<u8> {
    seq![117u8, 112, 103, 114, 97, 100, 101]
}

pub open spec fn tok_head() -> Seq<u8> {
    seq![72u8, 69, 65, 68]
}

pub open spec fn tok_connect() -> Seq<u8> {
    seq![67u8, 79, 78, 78, 69, 67, 84]
}

/// The HTTP/2 client connection preface `PRI * HTTP/2.0\r\n\r\nSM\r\n\r\n`.
pub open spec fn h2_preface() -> Seq<u8> {
    seq![
        80u8, 82, 73, 32, 42, 32, 72, 84, 84, 80, 47, 50, 46, 48, 13, 10, 13, 10, 83, 77, 13,
        10, 13, 10,
    ]
}

pub fn transfer_encoding_tok() -> (a: [u8; 17])
    ensures
        a@ == tok_transfer_encoding(),
{
    [116u8, 114, 97, 110, 115, 102, 101, 114, 45, 101, 110, 99, 111, 100, 105, 110, 103]
}

pub fn content_length_tok() -> (a: [u8; 14])
    ensures
        a@ == tok_content_length(),
{
    [99u8, 111, 110, 116, 101, 110, 116, 45, 108, 101, 110, 103, 116, 104]
}

pub fn chunked_tok() -> (a: [u8; 7])
    ensures
        a@ == tok_chunked(),
{
    [99u8, 104, 117, 110, 107, 101, 100]
}

pub fn identity_tok() -> (a: [u8; 8])
    ensures
        a@ == tok_identity(),
{
    [105u8, 100, 101, 110, 116, 105, 116, 121]
}

pub fn host_tok() -> (a: [u8; 4])
    ensures
        a@ == tok_host(),
{
    [104u8, 111, 115, 116]
}

pub fn connection_tok() -> (a: [u8; 10])
    ensures
        a@ == tok_connection(),
{
    [99u8, 111, 110, 110, 101, 99, 116, 105, 111, 110]
}

pub fn close_tok() -> (a: [u8; 5])
    ensures
        a@ == tok_close(),
{
    [99u8, 108, 111, 115, 101]
}

pub fn keep_alive_tok() -> (a: [u8; 10])
    ensures
        a@ == tok_keep_alive(),
{
    [107u8, 101, 101, 112, 45, 97, 108, 105, 118, 101]
}

pub fn upgrade_tok() -> (a: [u8; 7])
    ensures
        a@ == tok_upgrade(),
{
    [117u8, 112, 103, 114, 97, 100, 101]
}

pub fn head_tok() -> (a: [u8; 4])
    ensures
        a@ == tok_head(),
{
    [72u8, 69, 65, 68]
}

pub fn connect_tok() -> (a: [u8; 7])
    ensures
        a@ == tok_connect(),
{
    [67u8, 79, 78, 78, 69, 67, 84]
}

// ── comma-separated header lists ──────────────────────────────────

/// The trimmed, non-empty pieces of a split value.
pub open spec fn pieces_trimmed(ps: Seq<Seq<u8>>) -> Seq<Seq<u8>>
    decreases ps.len(),
{
    if ps.len() == 0 {
        Seq::empty()
    } else {
        let r = pieces_trimmed(ps.drop_last());
        let t = trim(ps.last());
        if t.len() > 0 {
            r.push(t)
        } else {
            r
        }
    }
}

/// Every comma-separated, trimmed, non-empty token across the values,
/// in order.
pub open spec fn list_tokens(vs: Seq<Seq<u8>>) -> Seq<Seq<u8>>
    decreases vs.len(),
{
    if vs.len() == 0 {
        Seq::empty()
    } else {
        list_tokens(vs.drop_last()) + pieces_trimmed(split_on(vs.last(), 44))
    }
}

fn push_bytes(out: &mut Vec<Vec<u8>>, v: Vec<u8>)
    ensures
        final(out).deep_view() == old(out).deep_view().push(v@),
{
    let ghost before = out.deep_view();
    proof {
        lemma_bytes_deep_view(v);
    }
    out.push(v);
    assert(out.deep_view() =~= before.push(v@));
}

/// The comma-separated tokens of the given header values.
pub fn list_tokens_of(vs: &Vec<Vec<u8>>) -> (out: Vec<Vec<u8>>)
    ensures
        out.deep_view() == list_tokens(vs.deep_view()),
{
    let ghost vsv = vs.deep_view();
    let mut out: Vec<Vec<u8>> = Vec::new();
    let mut i: usize = 0;
    while i < vs.len()
        invariant
            i <= vs.len(),
            vsv == vs.deep_view(),
            out.deep_view() == list_tokens(vsv.take(i as int)),
        decreases vs.len() - i,
    {
        assert(vsv.take(i + 1).drop_last() =~= vsv.take(i as int));
        assert(vsv[i as int] == vs[i as int]@);
        let ps = split_bytes(vs[i].as_slice(), 44);
        let ghost psv = ps.deep_view();
        let ghost base = out.deep_view();
        let mut j: usize = 0;
        while j < ps.len()
            invariant
                j <= ps.len(),
                psv == ps.deep_view(),
                out.deep_view() == base + pieces_trimmed(psv.take(j as int)),
            decreases ps.len() - j,
        {
            assert(psv.take(j + 1).drop_last() =~= psv.take(j as int));
            assert(psv[j as int] == ps[j as int]@);
            let t = trim_ascii(ps[j].as_slice());
            if t.len() > 0 {
                let ghost o = out.deep_view();
                push_bytes(&mut out, t);
                assert(out.deep_view() =~= base + pieces_trimmed(psv.take(j + 1)));
            } else {
                assert(out.deep_view() =~= base + pieces_trimmed(psv.take(j + 1)));
            }
            j += 1;
        }
        assert(psv.take(ps.len() as int) =~= psv);
        i += 1;
    }
    assert(vsv.take(vs.len() as int) =~= vsv);
    out
}

// ── Transfer-Encoding and Content-Length ──────────────────────────

/// The first transfer coding at or after `i` that makes the length
/// undefined: one that is neither `chunked` nor `identity`, or a
/// `chunked` that is not the last coding.
pub open spec fn coding_error_from(cs: Seq<Seq<u8>>, i: int) -> Option<HttpPoison>
    decreases cs.len() - i,
{
    if i < 0 || i >= cs.len() {
        None
    } else if !eq_ic(cs[i], tok_chunked()) && !eq_ic(cs[i], tok_identity()) {
        Some(HttpPoison::UnknownTransferCoding)
    } else if eq_ic(cs[i], tok_chunked()) && i != cs.len() - 1 {
        Some(HttpPoison::NonFinalChunked)
    } else {
        coding_error_from(cs, i + 1)
    }
}

/// The last transfer coding is `chunked`.
pub open spec fn chunked_last(cs: Seq<Seq<u8>>) -> bool {
    cs.len() > 0 && eq_ic(cs.last(), tok_chunked())
}

/// Some transfer coding is `chunked`.
pub open spec fn any_chunked(cs: Seq<Seq<u8>>) -> bool {
    exists|i: int| 0 <= i < cs.len() && eq_ic(#[trigger] cs[i], tok_chunked())
}

/// Why a `Transfer-Encoding` set leaves the body length undefined.
pub open spec fn te_error(tes: Seq<Seq<u8>>, cs: Seq<Seq<u8>>) -> Option<HttpPoison> {
    if tes.len() > 1 {
        Some(HttpPoison::DuplicateTransferEncoding)
    } else {
        match coding_error_from(cs, 0) {
            Some(e) => Some(e),
            None => if !chunked_last(cs) {
                Some(HttpPoison::NonFinalChunked)
            } else {
                None
            },
        }
    }
}

/// The values of the `Content-Length` pieces that are plain decimal
/// numbers, in order.
pub open spec fn lengths_of(ps: Seq<Seq<u8>>) -> Seq<u64>
    decreases ps.len(),
{
    if ps.len() == 0 {
        Seq::empty()
    } else {
        let r = lengths_of(ps.drop_last());
        match decimal_u64(ps.last()) {
            Some(n) => r.push(n),
            None => r,
        }
    }
}

/// Every piece is a plain decimal number that fits in `u64`.
pub open spec fn all_decimal(ps: Seq<Seq<u8>>) -> bool {
    forall|i: int| 0 <= i < ps.len() ==> #[trigger] decimal_u64(ps[i]) is Some
}

/// All lengths agree with the first.
pub open spec fn all_equal(ls: Seq<u64>) -> bool {
    forall|i: int| 0 <= i < ls.len() ==> #[trigger] ls[i] == ls[0]
}

/// The framing decision for a header block: whether the body is
/// chunked, its length if it has one, and what was normalized.
///
/// | Situation | `Strict` | `Normalize` | `Observe` |
/// |---|---|---|---|
/// | `CL` + `TE` | poison | drop `CL`, use chunked | chunked wins |
/// | repeated `CL`, all equal | one length | collapse, recorded | one length |
/// | repeated `CL`, differing | poison | poison | first wins |
/// | `CL` not a plain number | poison | poison | ignored |
/// | `TE` not ending in `chunked` | poison | poison | ignored |
/// | unknown transfer coding | poison | poison | ignored |
/// | repeated `TE` | poison | poison | chunked if any |
pub open spec fn framing_spec(hs: HeaderSeq, policy: SmugglingPolicy) -> Result<
    (bool, Option<u64>, Seq<Normalization>),
    HttpPoison,
> {
    let observe = policy == SmugglingPolicy::Observe;
    let tes = header_values(hs, tok_transfer_encoding());
    let cs = list_tokens(tes);
    let chunked = if tes.len() == 0 {
        false
    } else if observe {
        any_chunked(cs)
    } else {
        chunked_last(cs)
    };
    let cls = header_values(hs, tok_content_length());
    let ps = list_tokens(cls);
    let lens = lengths_of(ps);
    if tes.len() > 0 && !observe && te_error(tes, cs) is Some {
        Err(te_error(tes, cs)->0)
    } else if !observe && !all_decimal(ps) {
        Err(HttpPoison::InvalidContentLength)
    } else if lens.len() == 0 && cls.len() > 0 && !observe && !chunked {
        Err(HttpPoison::InvalidContentLength)
    } else if lens.len() > 0 && !all_equal(lens) && !observe {
        Err(HttpPoison::ConflictingContentLength)
    } else {
        let applied = if lens.len() > 1 && all_equal(lens) && policy == SmugglingPolicy::Normalize {
            seq![Normalization::CollapsedContentLength]
        } else {
            Seq::empty()
        };
        let cl = if lens.len() > 0 {
            Some(lens[0])
        } else {
            None
        };
        if chunked && cl is Some {
            if policy == SmugglingPolicy::Strict {
                Err(HttpPoison::ContentLengthWithTransferEncoding)
            } else if policy == SmugglingPolicy::Normalize {
                Ok((true, None, applied.push(Normalization::StrippedContentLength)))
            } else {
                Ok((true, None, applied))
            }
        } else {
            Ok((chunked, cl, applied))
        }
    }
}

/// A framing result with its normalizations as a sequence.
pub open spec fn framing_view(r: Result<(bool, Option<u64>, Vec<Normalization>), HttpPoison>) -> Result<
    (bool, Option<u64>, Seq<Normalization>),
    HttpPoison,
> {
    match r {
        Ok((c, l, a)) => Ok((c, l, a@)),
        Err(e) => Err(e),
    }
}

fn scan_codings(cs: &Vec<Vec<u8>>) -> (r: Option<HttpPoison>)
    ensures
        r == coding_error_from(cs.deep_view(), 0),
{
    let ghost csv = cs.deep_view();
    let ch = chunked_tok();
    let id = identity_tok();
    let mut i: usize = 0;
    while i < cs.len()
        invariant
            i <= cs.len(),
            csv == cs.deep_view(),
            ch@ == tok_chunked(),
            id@ == tok_identity(),
            coding_error_from(csv, 0) == coding_error_from(csv, i as int),
        decreases cs.len() - i,
    {
        assert(csv[i as int] == cs[i as int]@);
        let is_chunked = eq_ignore_ascii_case(cs[i].as_slice(), &ch);
        if !is_chunked && !eq_ignore_ascii_case(cs[i].as_slice(), &id) {
            return Some(HttpPoison::UnknownTransferCoding);
        }
        if is_chunked && i != cs.len() - 1 {
            return Some(HttpPoison::NonFinalChunked);
        }
        i += 1;
    }
    None
}

fn has_chunked(cs: &Vec<Vec<u8>>) -> (r: bool)
    ensures
        r == any_chunked(cs.deep_view()),
{
    let ghost csv = cs.deep_view();
    let ch = chunked_tok();
    let mut i: usize = 0;
    while i < cs.len()
        invariant
            i <= cs.len(),
            csv == cs.deep_view(),
            ch@ == tok_chunked(),
            forall|j: int| 0 <= j < i ==> !eq_ic(#[trigger] csv[j], tok_chunked()),
        decreases cs.len() - i,
    {
        assert(csv[i as int] == cs[i as int]@);
        if eq_ignore_ascii_case(cs[i].as_slice(), &ch) {
            return true;
        }
        i += 1;
    }
    false
}

/// Resolve `Transfer-Encoding` and `Content-Length` into one framing
/// decision: `(chunked, content_length, normalizations)`.
pub fn framing_headers(headers: &Vec<(Vec<u8>, Vec<u8>)>, policy: SmugglingPolicy) -> (r: Result<
    (bool, Option<u64>, Vec<Normalization>),
    HttpPoison,
>)
    ensures
        framing_view(r) == framing_spec(headers.deep_view(), policy),
        policy != SmugglingPolicy::Normalize ==> (r matches Ok((_, _, applied)) ==> applied@.len() == 0),
{
    let ghost hs = headers.deep_view();
    let observe = policy == SmugglingPolicy::Observe;
    let te_name = transfer_encoding_tok();
    let tes = header_lookup(headers, &te_name);
    let cs = list_tokens_of(&tes);
    let ghost csv = cs.deep_view();
    let ch = chunked_tok();
    let mut chunked = false;
    if tes.len() > 0 {
        if tes.len() > 1 && !observe {
            return Err(HttpPoison::DuplicateTransferEncoding);
        }
        if cs.len() > 0 {
            assert(csv.last() == cs[cs.len() - 1]@);
            chunked = eq_ignore_ascii_case(cs[cs.len() - 1].as_slice(), &ch);
        }
        if !observe {
            match scan_codings(&cs) {
                Some(e) => {
                    return Err(e);
                },
                None => {},
            }
            if !chunked {
                return Err(HttpPoison::NonFinalChunked);
            }
        } else {
            chunked = has_chunked(&cs);
        }
    }
    let cl_name = content_length_tok();
    let cls = header_lookup(headers, &cl_name);
    let ps = list_tokens_of(&cls);
    let ghost psv = ps.deep_view();
    let mut lengths: Vec<u64> = Vec::new();
    let mut i: usize = 0;
    while i < ps.len()
        invariant
            i <= ps.len(),
            psv == ps.deep_view(),
            observe == (policy == SmugglingPolicy::Observe),
            lengths@ == lengths_of(psv.take(i as int)),
            !observe ==> all_decimal(psv.take(i as int)),
            hs == headers.deep_view(),
            cls.deep_view() == header_values(hs, tok_content_length()),
            psv == list_tokens(cls.deep_view()),
            tes.deep_view() == header_values(hs, tok_transfer_encoding()),
            csv == list_tokens(tes.deep_view()),
            tes.len() > 0 && !observe ==> te_error(tes.deep_view(), csv) is None,
            chunked == (if tes.len() == 0 {
                false
            } else if observe {
                any_chunked(csv)
            } else {
                chunked_last(csv)
            }),
        decreases ps.len() - i,
    {
        assert(psv.take(i + 1).drop_last() =~= psv.take(i as int));
        assert(psv[i as int] == ps[i as int]@);
        match parse_decimal(ps[i].as_slice()) {
            Some(n) => {
                lengths.push(n);
            },
            None => {
                if !observe {
                    assert(decimal_u64(psv[i as int]) is None);
                    assert(!all_decimal(psv));
                    return Err(HttpPoison::InvalidContentLength);
                }
            },
        }
        proof {
            if !observe {
                assert forall|k: int| 0 <= k < i + 1 implies #[trigger] decimal_u64(
                    psv.take(i + 1)[k],
                ) is Some by {
                    if k < i {
                        assert(psv.take(i + 1)[k] == psv.take(i as int)[k]);
                    }
                }
            }
        }
        i += 1;
    }
    assert(psv.take(ps.len() as int) =~= psv);
    let mut applied: Vec<Normalization> = Vec::new();
    let content_length: Option<u64>;
    if lengths.len() == 0 {
        if cls.len() > 0 && !observe && !chunked {
            return Err(HttpPoison::InvalidContentLength);
        }
        content_length = None;
    } else {
        let first = lengths[0];
        let mut differ = false;
        let mut j: usize = 0;
        while j < lengths.len()
            invariant
                j <= lengths.len(),
                lengths.len() > 0,
                first == lengths@[0],
                !differ <==> forall|k: int| 0 <= k < j ==> #[trigger] lengths@[k] == first,
            decreases lengths.len() - j,
        {
            if lengths[j] != first {
                differ = true;
            }
            j += 1;
        }
        if differ {
            if !observe {
                return Err(HttpPoison::ConflictingContentLength);
            }
        } else if lengths.len() > 1 && policy == SmugglingPolicy::Normalize {
            applied.push(Normalization::CollapsedContentLength);
        }
        content_length = Some(first);
    }
    proof {
        assert(lengths@.len() > 1 && all_equal(lengths@) && policy == SmugglingPolicy::Normalize
            ==> applied@ =~= seq![Normalization::CollapsedContentLength]);
        assert(!(lengths@.len() > 1 && all_equal(lengths@) && policy == SmugglingPolicy::Normalize)
            ==> applied@ =~= Seq::<Normalization>::empty());
    }
    if chunked && content_length.is_some() {
        match policy {
            SmugglingPolicy::Strict => {
                return Err(HttpPoison::ContentLengthWithTransferEncoding);
            },
            SmugglingPolicy::Normalize => {
                applied.push(Normalization::StrippedContentLength);
            },
            SmugglingPolicy::Observe => {},
        }
        return Ok((true, None, applied));
    }
    Ok((chunked, content_length, applied))
}

/// Body framing of a request: chunked, a positive length, or no body
/// (a request with neither header has no body).
pub open spec fn request_framing_spec(hs: HeaderSeq, policy: SmugglingPolicy) -> Result<
    (BodyFraming, Seq<Normalization>),
    HttpPoison,
> {
    match framing_spec(hs, policy) {
        Err(e) => Err(e),
        Ok((te, cl, applied)) => if te {
            Ok((BodyFraming::Chunked, applied))
        } else {
            match cl {
                Some(n) => if n == 0 {
                    Ok((BodyFraming::NoBody, applied))
                } else {
                    Ok((BodyFraming::ContentLength(n), applied))
                },
                None => Ok((BodyFraming::NoBody, applied)),
            }
        },
    }
}

/// A status that never carries a body: `1xx`, `204`, `304`.
pub open spec fn bodyless_status(status: u16) -> bool {
    (100 <= status && status <= 199) || status == 204 || status == 304
}

/// Body framing of a response, given whether its request was `HEAD`;
/// without a length or chunked framing the body runs to close.
pub open spec fn response_framing_spec(
    status: u16,
    request_was_head: bool,
    hs: HeaderSeq,
    policy: SmugglingPolicy,
) -> Result<(BodyFraming, Seq<Normalization>), HttpPoison> {
    if request_was_head || bodyless_status(status) {
        Ok((BodyFraming::NoBody, Seq::empty()))
    } else {
        match framing_spec(hs, policy) {
            Err(e) => Err(e),
            Ok((te, cl, applied)) => if te {
                Ok((BodyFraming::Chunked, applied))
            } else {
                match cl {
                    Some(n) => if n == 0 {
                        Ok((BodyFraming::NoBody, applied))
                    } else {
                        Ok((BodyFraming::ContentLength(n), applied))
                    },
                    None => Ok((BodyFraming::UntilClose, applied)),
                }
            },
        }
    }
}

/// Responses to `HEAD`, and `1xx`, `204` and `304` responses, have no
/// body whatever length or transfer coding they announce (RFC 9112
/// section 6.3, rules 1 and 2). Any other response is framed the same
/// whatever its status, and as a request with the same headers would
/// be when that request has a body; it is refused when that request
/// would be, and with neither a length nor chunked coding its body runs
/// until the connection closes (rule 8).
pub proof fn lemma_response_framing(
    status: u16,
    other: u16,
    request_was_head: bool,
    hs: HeaderSeq,
    policy: SmugglingPolicy,
)
    ensures
        (request_was_head || (100 <= status && status <= 199) || status == 204 || status == 304)
            ==> response_framing_spec(status, request_was_head, hs, policy) == Ok::<
            (BodyFraming, Seq<Normalization>),
            HttpPoison,
        >((BodyFraming::NoBody, Seq::empty())),
        (!request_was_head && !(100 <= status && status <= 199) && status != 204 && status != 304
            && !(100 <= other && other <= 199) && other != 204 && other != 304)
            ==> response_framing_spec(status, false, hs, policy) == response_framing_spec(other, false, hs, policy),
        (!(100 <= status && status <= 199) && status != 204 && status != 304) ==> (
        request_framing_spec(hs, policy) matches Ok((f, a)) ==> (f != BodyFraming::NoBody
            ==> response_framing_spec(status, false, hs, policy) == Ok::<
            (BodyFraming, Seq<Normalization>),
            HttpPoison,
        >((f, a)))),
        (!(100 <= status && status <= 199) && status != 204 && status != 304) ==> (
        request_framing_spec(hs, policy) is Err ==> response_framing_spec(status, false, hs, policy)
            == request_framing_spec(hs, policy)),
        (!(100 <= status && status <= 199) && status != 204 && status != 304) ==> (framing_spec(
            hs,
            policy,
        ) matches Ok((te, cl, a)) ==> (!te && cl is None ==> response_framing_spec(
            status,
            false,
            hs,
            policy,
        ) == Ok::<(BodyFraming, Seq<Normalization>), HttpPoison>((BodyFraming::UntilClose, a)))),
{
}

pub open spec fn body_framing_view(r: Result<(BodyFraming, Vec<Normalization>), HttpPoison>) -> Result<
    (BodyFraming, Seq<Normalization>),
    HttpPoison,
> {
    match r {
        Ok((f, a)) => Ok((f, a@)),
        Err(e) => Err(e),
    }
}

/// Body framing for a request.
pub fn request_framing(headers: &Vec<(Vec<u8>, Vec<u8>)>, policy: SmugglingPolicy) -> (r: Result<
    (BodyFraming, Vec<Normalization>),
    HttpPoison,
>)
    ensures
        body_framing_view(r) == request_framing_spec(headers.deep_view(), policy),
{
    match framing_headers(headers, policy) {
        Err(e) => Err(e),
        Ok((te, cl, applied)) => {
            if te {
                return Ok((BodyFraming::Chunked, applied));
            }
            match cl {
                Some(n) => if n == 0 {
                    Ok((BodyFraming::NoBody, applied))
                } else {
                    Ok((BodyFraming::ContentLength(n), applied))
                },
                None => Ok((BodyFraming::NoBody, applied)),
            }
        },
    }
}

/// Body framing for a response, given the matching request's method.
pub fn response_framing(
    status: u16,
    request_was_head: bool,
    headers: &Vec<(Vec<u8>, Vec<u8>)>,
    policy: SmugglingPolicy,
) -> (r: Result<(BodyFraming, Vec<Normalization>), HttpPoison>)
    ensures
        body_framing_view(r) == response_framing_spec(
            status,
            request_was_head,
            headers.deep_view(),
            policy,
        ),
{
    if request_was_head || (100 <= status && status <= 199) || status == 204 || status == 304 {
        let v: Vec<Normalization> = Vec::new();
        assert(v@ =~= Seq::<Normalization>::empty());
        return Ok((BodyFraming::NoBody, v));
    }
    match framing_headers(headers, policy) {
        Err(e) => Err(e),
        Ok((te, cl, applied)) => {
            if te {
                return Ok((BodyFraming::Chunked, applied));
            }
            match cl {
                Some(n) => if n == 0 {
                    Ok((BodyFraming::NoBody, applied))
                } else {
                    Ok((BodyFraming::ContentLength(n), applied))
                },
                None => Ok((BodyFraming::UntilClose, applied)),
            }
        },
    }
}

// ── head checks ───────────────────────────────────────────────────

/// What is wrong with the byte at `c`, if it is a CR that two
/// recipients could read differently: a bare CR, or the CR LF before a
/// folded continuation line.
pub open spec fn cr_problem(s: Seq<u8>, c: int) -> Option<HttpPoison> {
    if s[c] != 13 {
        None
    } else if !(c + 1 < s.len() && s[c + 1] == 10) {
        Some(HttpPoison::BareCr)
    } else if c > 0 && c + 3 < s.len() && (s[c + 2] == 32 || s[c + 2] == 9) {
        Some(HttpPoison::ObsFold)
    } else {
        None
    }
}

/// The first problem at or after `i`.
pub open spec fn head_problem_from(s: Seq<u8>, i: int) -> Option<HttpPoison>
    decreases s.len() - i,
{
    if i < 0 || i >= s.len() {
        None
    } else {
        match cr_problem(s, i) {
            Some(p) => Some(p),
            None => head_problem_from(s, i + 1),
        }
    }
}

/// Refuse head bytes that two recipients could read differently: a
/// bare CR, or an obs-fold.
pub fn check_head_bytes(head: &[u8]) -> (r: Result<(), HttpPoison>)
    ensures
        r matches Err(p) ==> head_problem_from(head@, 0) == Some(p),
        r is Ok ==> head_problem_from(head@, 0) is None,
{
    let mut i: usize = 0;
    while i < head.len()
        invariant
            i <= head@.len(),
            head_problem_from(head@, 0) == head_problem_from(head@, i as int),
        decreases head@.len() - i,
    {
        if head[i] == 13 {
            if !(i + 1 < head.len() && head[i + 1] == 10) {
                return Err(HttpPoison::BareCr);
            }
            if i > 0 && head.len() - i > 3 && (head[i + 2] == 32 || head[i + 2] == 9) {
                return Err(HttpPoison::ObsFold);
            }
        }
        i += 1;
    }
    Ok(())
}

/// Refuse a duplicated `Host`.
pub fn check_single_host(headers: &Vec<(Vec<u8>, Vec<u8>)>) -> (r: Result<(), HttpPoison>)
    ensures
        r is Err <==> header_values(headers.deep_view(), tok_host()).len() > 1,
        r matches Err(p) ==> p == HttpPoison::DuplicateHost,
{
    let name = host_tok();
    let hosts = header_lookup(headers, &name);
    assert(hosts.deep_view().len() == hosts.len());
    if hosts.len() > 1 {
        return Err(HttpPoison::DuplicateHost);
    }
    Ok(())
}

/// Some value of header `name` holds the comma-separated token `want`.
pub open spec fn has_token(hs: HeaderSeq, name: Seq<u8>, want: Seq<u8>) -> bool {
    let vs = header_values(hs, name);
    exists|k: int, p: int|
        0 <= k < vs.len() && 0 <= p < split_on(vs[k], 44).len() && eq_ic(
            trim(#[trigger] split_on(vs[k], 44)[p]),
            want,
        )
}

/// Whether a header holds a comma-separated token, case-insensitively.
pub fn header_has_token(headers: &Vec<(Vec<u8>, Vec<u8>)>, name: &[u8], want: &[u8]) -> (r: bool)
    ensures
        r == has_token(headers.deep_view(), name@, want@),
{
    let vs = header_lookup(headers, name);
    let ghost vsv = vs.deep_view();
    let mut k: usize = 0;
    while k < vs.len()
        invariant
            k <= vs.len(),
            vsv == vs.deep_view(),
            vsv == header_values(headers.deep_view(), name@),
            forall|kk: int, p: int|
                0 <= kk < k && 0 <= p < split_on(vsv[kk], 44).len() ==> !eq_ic(
                    trim(#[trigger] split_on(vsv[kk], 44)[p]),
                    want@,
                ),
        decreases vs.len() - k,
    {
        assert(vsv[k as int] == vs[k as int]@);
        let ps = split_bytes(vs[k].as_slice(), 44);
        let ghost psv = ps.deep_view();
        let mut p: usize = 0;
        while p < ps.len()
            invariant
                p <= ps.len(),
                psv == ps.deep_view(),
                psv == split_on(vsv[k as int], 44),
                k < vs.len(),
                vsv == vs.deep_view(),
                vsv == header_values(headers.deep_view(), name@),
                forall|kk: int, pp: int|
                    0 <= kk < k && 0 <= pp < split_on(vsv[kk], 44).len() ==> !eq_ic(
                        trim(#[trigger] split_on(vsv[kk], 44)[pp]),
                        want@,
                    ),
                forall|q: int| 0 <= q < p ==> !eq_ic(trim(#[trigger] psv[q]), want@),
            decreases ps.len() - p,
        {
            assert(psv[p as int] == ps[p as int]@);
            let (lo, hi) = trim_bounds(ps[p].as_slice());
            if eq_ignore_ascii_case(&ps[p].as_slice()[lo..hi], want) {
                assert(ps[p as int]@.subrange(lo as int, hi as int) == trim(psv[p as int]));
                assert(eq_ic(trim(split_on(vsv[k as int], 44)[p as int]), want@));
                assert(has_token(headers.deep_view(), name@, want@)) by {
                    let vsh = header_values(headers.deep_view(), name@);
                    assert(vsh[k as int] == vsv[k as int]);
                    assert(0 <= p < split_on(vsh[k as int], 44).len());
                    assert(eq_ic(trim(split_on(vsh[k as int], 44)[p as int]), want@));
                }
                return true;
            }
            p += 1;
        }
        k += 1;
    }
    false
}

/// Whether a message says its connection closes once it completes:
/// `Connection: close`, or HTTP/1.0 without `Connection: keep-alive`.
pub open spec fn signals_close_spec(hs: HeaderSeq, version: HttpVersion) -> bool {
    has_token(hs, tok_connection(), tok_close()) || (version == HttpVersion::Http1_0
        && !has_token(hs, tok_connection(), tok_keep_alive()))
}

/// Whether a message says its connection closes once it completes.
pub fn signals_close(headers: &Vec<(Vec<u8>, Vec<u8>)>, version: HttpVersion) -> (r: bool)
    ensures
        r == signals_close_spec(headers.deep_view(), version),
{
    let conn = connection_tok();
    let close = close_tok();
    if header_has_token(headers, &conn, &close) {
        return true;
    }
    let keep = keep_alive_tok();
    version == HttpVersion::Http1_0 && !header_has_token(headers, &conn, &keep)
}

/// How a request buffer relates to the HTTP/2 connection preface.
#[derive(Debug, Clone, Copy, PartialEq, Eq, Structural)]
pub enum PrefaceMatch {
    /// The whole preface is there.
    Yes,
    /// The buffer is a proper prefix of the preface so far.
    Partial,
    /// The buffer does not start the preface.
    No,
}

/// How `buf` relates to the HTTP/2 preface.
pub open spec fn preface_spec(buf: Seq<u8>) -> PrefaceMatch {
    let n = if buf.len() < 24 { buf.len() as int } else { 24 };
    if buf.take(n) != h2_preface().take(n) {
        PrefaceMatch::No
    } else if buf.len() >= 24 {
        PrefaceMatch::Yes
    } else {
        PrefaceMatch::Partial
    }
}

/// Whether a buffer starts the HTTP/2 preface.
pub fn preface_match(buf: &[u8]) -> (r: PrefaceMatch)
    ensures
        r == preface_spec(buf@),
{
    let pre: [u8; 24] = [
        80u8, 82, 73, 32, 42, 32, 72, 84, 84, 80, 47, 50, 46, 48, 13, 10, 13, 10, 83, 77, 13, 10,
        13, 10,
    ];
    assert(pre@ == h2_preface());
    let n: usize = if buf.len() < 24 { buf.len() } else { 24 };
    let mut i: usize = 0;
    while i < n
        invariant
            i <= n <= 24,
            n <= buf@.len(),
            pre@ == h2_preface(),
            forall|j: int| 0 <= j < i ==> buf@[j] == pre@[j],
        decreases n - i,
    {
        if buf[i] != pre[i] {
            assert(buf@.take(n as int)[i as int] != h2_preface().take(n as int)[i as int]);
            return PrefaceMatch::No;
        }
        i += 1;
    }
    assert(buf@.take(n as int) =~= h2_preface().take(n as int));
    if buf.len() >= 24 {
        PrefaceMatch::Yes
    } else {
        PrefaceMatch::Partial
    }
}

// ── scanning ──────────────────────────────────────────────────────

/// A blank line (LF LF, or CR LF CR LF) ends at index `i`.
pub open spec fn blank_end(s: Seq<u8>, i: int) -> bool {
    &&& 0 <= i < s.len()
    &&& s[i] == 10
    &&& ((i >= 1 && s[i - 1] == 10) || (i >= 3 && s[i - 1] == 13 && s[i - 2] == 10 && s[i - 3]
        == 13))
}

/// No blank line ends before index `k`.
pub open spec fn no_blank_before(s: Seq<u8>, k: int) -> bool {
    forall|i: int| 0 <= i < k ==> !blank_end(s, i)
}

/// `n` is the length of the head region: through the first blank line.
pub open spec fn head_len(s: Seq<u8>, n: int) -> bool {
    &&& 1 <= n <= s.len()
    &&& blank_end(s, n - 1)
    &&& no_blank_before(s, n - 1)
}

/// Length of the head region including its blank line, resuming the
/// search where an earlier one stopped.
pub fn scan_blank_line(buf: &[u8], scanned: &mut usize) -> (r: Option<usize>)
    requires
        *old(scanned) <= buf@.len(),
        no_blank_before(buf@, *old(scanned) as int),
    ensures
        r matches Some(n) ==> head_len(buf@, n as int) && *final(scanned) == n,
        r is None ==> no_blank_before(buf@, buf@.len() as int) && *final(scanned) == buf@.len(),
{
    let start: usize = if *scanned >= 3 { *scanned - 3 } else { 0 };
    let mut i: usize = start;
    while i < buf.len()
        invariant
            start <= i <= buf@.len(),
            no_blank_before(buf@, i as int),
        decreases buf@.len() - i,
    {
        if buf[i] == 10 {
            if i >= 1 && buf[i - 1] == 10 {
                *scanned = i + 1;
                return Some(i + 1);
            }
            if i >= 3 && buf[i - 1] == 13 && buf[i - 2] == 10 && buf[i - 3] == 13 {
                *scanned = i + 1;
                return Some(i + 1);
            }
        }
        i += 1;
    }
    *scanned = buf.len();
    None
}

/// No CR LF starts before `k - 1`.
pub open spec fn no_crlf_before(s: Seq<u8>, k: int) -> bool {
    forall|j: int| 0 <= j && j + 1 < k ==> !crate::text::crlf_at(s, j)
}

/// Index of the first CR LF, resuming where an earlier search stopped.
pub fn scan_crlf(buf: &[u8], scanned: &mut usize) -> (r: Option<usize>)
    requires
        *old(scanned) <= buf@.len(),
        no_crlf_before(buf@, *old(scanned) as int),
    ensures
        r matches Some(p) ==> crate::text::first_crlf_from(buf@, 0, p as int) && *final(scanned)
            == p,
        r is None ==> crate::text::no_crlf_from(buf@, 0) && *final(scanned) == buf@.len(),
{
    let start: usize = if *scanned >= 1 { *scanned - 1 } else { 0 };
    match crate::text::find_crlf_from(buf, start) {
        Some(pos) => {
            *scanned = pos;
            Some(pos)
        },
        None => {
            *scanned = buf.len();
            None
        },
    }
}

/// Two CR LF pairs in a row start at `k`.
pub open spec fn double_crlf_at(s: Seq<u8>, k: int) -> bool {
    crate::text::crlf_at(s, k) && crate::text::crlf_at(s, k + 2)
}

/// `n` is the length of a trailer section that begins at the zero-size
/// chunk line: through the first empty line.
pub open spec fn trailer_len(s: Seq<u8>, n: int) -> bool {
    &&& 4 <= n <= s.len()
    &&& double_crlf_at(s, n - 4)
    &&& forall|k: int| 0 <= k < n - 4 ==> !double_crlf_at(s, k)
}

/// Length of a trailer section beginning at the zero-size chunk line.
pub fn scan_trailer_end(buf: &[u8]) -> (r: Option<usize>)
    ensures
        r matches Some(n) ==> trailer_len(buf@, n as int),
        r is None ==> forall|k: int| 0 <= k ==> !double_crlf_at(buf@, k),
{
    let mut k: usize = 0;
    if buf.len() < 4 {
        return None;
    }
    while k < buf.len() - 3
        invariant
            buf@.len() >= 4,
            forall|j: int| 0 <= j < k ==> !double_crlf_at(buf@, j),
        decreases buf@.len() - k,
    {
        if buf[k] == 13 && buf[k + 1] == 10 && buf[k + 2] == 13 && buf[k + 3] == 10 {
            return Some(k + 4);
        }
        k += 1;
    }
    None
}

} // verus!
