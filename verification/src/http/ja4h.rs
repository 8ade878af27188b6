//! JA4H: an HTTP client fingerprint built from a request's method,
//! version, header names, cookies and primary `Accept-Language`.
//!
//! `<a>_<b>_<c>_<d>` where `a` is method (2 chars), version (`10` /
//! `11`), `c`/`n` for a cookie, `r`/`n` for a referer, a 2-digit header
//! count capped at 99 and a 4-char language; `b`, `c`, `d` are the first
//! 12 hex digits of SHA-256 over the header names, the sorted cookie
//! names, and the sorted `name=value` cookie pairs.

use sha2::Digest;
use vstd::prelude::*;

use super::types::{HeaderSeq, HttpRequest, HttpVersion};
use crate::text::{is_white_space, lower, lower_seq, str_chars, string_of, utf8_str};
use vstd::string::StringSliceAdditionalSpecFns;
use vstd::utf8::{decode_utf8, encode_utf8, valid_utf8};

verus! {

/// The four JA4H sections.
#[derive(Debug, Clone, PartialEq, Eq)]
pub struct Ja4hParts {
    /// Method, version, cookie and referer flags, header count, language.
    pub a: String,
    /// SHA-256 (first 12 hex digits) of the comma-joined header names.
    pub b: String,
    /// SHA-256 (first 12 hex digits) of the sorted cookie names.
    pub c: String,
    /// SHA-256 (first 12 hex digits) of the sorted `name=value` pairs.
    pub d: String,
}

// ── outside calls ─────────────────────────────────────────────────

/// SHA-256 of `data`.
pub uninterp spec fn sha256_digest(data: Seq<u8>) -> Seq<u8>;

/// Calls `sha2::Sha256::digest`. The contract claims that the digest
/// is a function of the data, named [`sha256_digest`], and that it is
/// 32 bytes long (the output size of SHA-256).
#[verifier::external_body]
fn sha256(data: &[u8]) -> (r: Vec<u8>)
    ensures
        r@ == sha256_digest(data@),
        r@.len() == 32,
{
    sha2::Sha256::digest(data).to_vec()
}

/// The lowercase hexadecimal digit of a nibble.
pub open spec fn hex_char(n: u8) -> char {
    if n < 10 {
        (48 + n) as char
    } else {
        (87 + n) as char
    }
}

/// Two lowercase hexadecimal digits per byte, high nibble first.
pub open spec fn hex_chars(data: Seq<u8>) -> Seq<char>
    decreases data.len(),
{
    if data.len() == 0 {
        Seq::empty()
    } else {
        hex_chars(data.drop_last()).push(hex_char(data.last() / 16)).push(
            hex_char(data.last() % 16),
        )
    }
}

/// A lowercase hexadecimal digit.
pub open spec fn is_lower_hex(c: char) -> bool {
    ('0' <= c && c <= '9') || ('a' <= c && c <= 'f')
}

/// Exactly twelve lowercase hexadecimal digits.
pub open spec fn hex12(s: Seq<char>) -> bool {
    s.len() == 12 && forall|i: int| 0 <= i < 12 ==> #[trigger] is_lower_hex(s[i])
}

/// Hex text is two lowercase hexadecimal digits per byte.
proof fn lemma_hex_chars(data: Seq<u8>)
    ensures
        hex_chars(data).len() == 2 * data.len(),
        forall|i: int| 0 <= i < hex_chars(data).len() ==> #[trigger] is_lower_hex(hex_chars(data)[i]),
    decreases data.len(),
{
    if data.len() > 0 {
        lemma_hex_chars(data.drop_last());
        let hi = data.last() / 16;
        let lo = data.last() % 16;
        assert(is_lower_hex(hex_char(hi)));
        assert(is_lower_hex(hex_char(lo)));
    }
}

/// Calls `hex::encode`, which writes each byte as two lowercase
/// hexadecimal digits, high nibble first.
#[verifier::external_body]
fn hex_encode(data: &[u8]) -> (r: String)
    ensures
        r@ == hex_chars(data@),
{
    hex::encode(data)
}

// ── the `a` section ───────────────────────────────────────────────

/// `u8::to_ascii_lowercase(b) as char`.
pub open spec fn lower_char(b: u8) -> char {
    lower(b) as char
}

/// Two characters of the lowercased method, padded with `0`.
pub open spec fn method_part(m: Seq<u8>) -> Seq<char> {
    seq![
        if m.len() > 0 {
            lower_char(m[0])
        } else {
            '0'
        },
        if m.len() > 1 {
            lower_char(m[1])
        } else {
            '0'
        },
    ]
}

/// A header name as lowercased characters.
pub open spec fn name_chars(n: Seq<u8>) -> Seq<char> {
    Seq::new(n.len(), |i: int| lower_char(n[i]))
}

pub open spec fn tok_cookie() -> Seq<u8> {
    seq![99u8, 111, 111, 107, 105, 101]
}

pub open spec fn tok_referer() -> Seq<u8> {
    seq![114u8, 101, 102, 101, 114, 101, 114]
}

pub open spec fn tok_accept_language() -> Seq<u8> {
    seq![97u8, 99, 99, 101, 112, 116, 45, 108, 97, 110, 103, 117, 97, 103, 101]
}

/// The names of the headers that go into `b`: all but `Cookie` and
/// `Referer`, lowercased, in wire order.
pub open spec fn hashed_names(hs: HeaderSeq) -> Seq<Seq<char>>
    decreases hs.len(),
{
    if hs.len() == 0 {
        Seq::empty()
    } else {
        let rest = hashed_names(hs.drop_last());
        let n = lower_seq(hs.last().0);
        if n == tok_cookie() || n == tok_referer() {
            rest
        } else {
            rest.push(name_chars(hs.last().0))
        }
    }
}

/// Some header is named `name` (lowercased).
pub open spec fn has_named(hs: HeaderSeq, name: Seq<u8>) -> bool
    decreases hs.len(),
{
    hs.len() > 0 && (lower_seq(hs.last().0) == name || has_named(hs.drop_last(), name))
}

/// The value of the last `Cookie` header.
pub open spec fn last_cookie(hs: HeaderSeq) -> Option<Seq<u8>>
    decreases hs.len(),
{
    if hs.len() == 0 {
        None
    } else if lower_seq(hs.last().0) == tok_cookie() {
        Some(hs.last().1)
    } else {
        last_cookie(hs.drop_last())
    }
}

/// The characters of `s` before the first `c` (all of `s` without one).
pub open spec fn before_char(s: Seq<char>, c: char) -> Seq<char>
    decreases s.len(),
{
    if s.len() == 0 {
        s
    } else if s[0] == c {
        Seq::empty()
    } else {
        seq![s[0]] + before_char(s.drop_first(), c)
    }
}

/// ASCII lowercase of a character.
pub open spec fn ascii_lower_char(c: char) -> char {
    if 'A' <= c && c <= 'Z' {
        ((c as u32) + 32) as char
    } else {
        c
    }
}

/// `str::trim` on characters.
pub open spec fn trim_cs(s: Seq<char>) -> Seq<char> {
    crate::text::trim_chars(s)
}

/// The primary language tag of an `Accept-Language` value: the first
/// list item, before any `;` parameter, trimmed and ASCII-lowercased;
/// `None` for non-UTF-8 or an empty tag.
pub open spec fn primary_lang(v: Seq<u8>) -> Option<Seq<char>> {
    if !valid_utf8(v) {
        None
    } else {
        let first = trim_cs(before_char(decode_utf8(v), ','));
        let stripped = trim_cs(before_char(first, ';'));
        if stripped.len() == 0 {
            None
        } else {
            Some(Seq::new(stripped.len(), |i: int| ascii_lower_char(stripped[i])))
        }
    }
}

/// The language of the first `Accept-Language` header that has one.
pub open spec fn first_lang(hs: HeaderSeq) -> Option<Seq<char>>
    decreases hs.len(),
{
    if hs.len() == 0 {
        None
    } else if first_lang(hs.drop_last()) is Some {
        first_lang(hs.drop_last())
    } else if lower_seq(hs.last().0) == tok_accept_language() {
        primary_lang(hs.last().1)
    } else {
        None
    }
}

/// The characters other than `-` and `_`.
pub open spec fn strip_dashes(s: Seq<char>) -> Seq<char>
    decreases s.len(),
{
    if s.len() == 0 {
        s
    } else if s.last() == '-' || s.last() == '_' {
        strip_dashes(s.drop_last())
    } else {
        strip_dashes(s.drop_last()).push(s.last())
    }
}

/// A language tag in four characters: dashes and underscores dropped,
/// cut to four, padded with `0`.
pub open spec fn pad_lang(s: Seq<char>) -> Seq<char> {
    let c = strip_dashes(s);
    Seq::new(4, |i: int| if i < c.len() { c[i] } else { '0' })
}

/// Two decimal digits of the header count, capped at 99.
pub open spec fn count_part(n: nat) -> Seq<char> {
    let m = if n > 99 { 99 } else { n };
    seq![(48 + m / 10) as char, (48 + m % 10) as char]
}

/// The `a` section of a request.
pub open spec fn a_section(method: Seq<u8>, version: HttpVersion, hs: HeaderSeq) -> Seq<char> {
    method_part(method) + (if version == HttpVersion::Http1_0 {
        seq!['1', '0']
    } else {
        seq!['1', '1']
    }) + seq![if has_named(hs, tok_cookie()) { 'c' } else { 'n' }] + seq![
        if has_named(hs, tok_referer()) {
            'r'
        } else {
            'n'
        },
    ] + count_part(hs.len()) + match first_lang(hs) {
        Some(l) => pad_lang(l),
        None => seq!['0', '0', '0', '0'],
    }
}

// ── joining and hashing ───────────────────────────────────────────

/// Items joined with a separator character.
pub open spec fn join_chars(items: Seq<Seq<char>>, sep: char) -> Seq<char>
    decreases items.len(),
{
    if items.len() == 0 {
        Seq::empty()
    } else if items.len() == 1 {
        items[0]
    } else {
        join_chars(items.drop_last(), sep).push(sep) + items.last()
    }
}

/// The first 12 hex digits of the SHA-256 of a string's UTF-8 bytes.
pub open spec fn hash12(s: Seq<char>) -> Seq<char> {
    hex_chars(sha256_digest(encode_utf8(s)).take(6))
}

/// Twelve zeros.
pub open spec fn zeros12() -> Seq<char> {
    Seq::new(12, |i: int| '0')
}

// ── cookies ───────────────────────────────────────────────────────

/// Pieces of `s` before the last separator, and the piece being built.
pub open spec fn split_chars_prefix(s: Seq<char>, sep: char) -> (Seq<Seq<char>>, Seq<char>)
    decreases s.len(),
{
    if s.len() == 0 {
        (Seq::empty(), Seq::empty())
    } else {
        let (done, cur) = split_chars_prefix(s.drop_last(), sep);
        if s.last() == sep {
            (done.push(cur), Seq::empty())
        } else {
            (done, cur.push(s.last()))
        }
    }
}

/// `str::split(sep)` on characters.
pub open spec fn split_chars(s: Seq<char>, sep: char) -> Seq<Seq<char>> {
    let (done, cur) = split_chars_prefix(s, sep);
    done.push(cur)
}

/// Index of the first `c` in `s`.
pub open spec fn char_index(s: Seq<char>, c: char, i: int) -> Option<int>
    decreases s.len() - i,
{
    if i < 0 || i >= s.len() {
        None
    } else if s[i] == c {
        Some(i)
    } else {
        char_index(s, c, i + 1)
    }
}

/// One `;`-separated cookie: trimmed, split at its first `=`, name and
/// value trimmed; `None` without `=` or with an empty name.
pub open spec fn cookie_pair(piece: Seq<char>) -> Option<(Seq<char>, Seq<char>)> {
    let c = trim_cs(piece);
    if c.len() == 0 {
        None
    } else {
        match char_index(c, '=', 0) {
            None => None,
            Some(k) => {
                let name = trim_cs(c.take(k));
                if name.len() == 0 {
                    None
                } else {
                    Some((name, trim_cs(c.skip(k + 1))))
                }
            },
        }
    }
}

/// The cookie pairs of each piece that has one, in order.
pub open spec fn cookie_pairs_of(pieces: Seq<Seq<char>>) -> Seq<(Seq<char>, Seq<char>)>
    decreases pieces.len(),
{
    if pieces.len() == 0 {
        Seq::empty()
    } else {
        let rest = cookie_pairs_of(pieces.drop_last());
        match cookie_pair(pieces.last()) {
            Some(p) => rest.push(p),
            None => rest,
        }
    }
}

/// The `(name, value)` pairs of a `Cookie` header (none if it is not
/// UTF-8).
pub open spec fn parse_cookies_spec(v: Seq<u8>) -> Seq<(Seq<char>, Seq<char>)> {
    if valid_utf8(v) {
        cookie_pairs_of(split_chars(decode_utf8(v), ';'))
    } else {
        Seq::empty()
    }
}

/// `a` orders strictly before `b`, character by character (the order
/// of `String`).
pub open spec fn chars_lt(a: Seq<char>, b: Seq<char>) -> bool
    decreases a.len(),
{
    if a.len() == 0 {
        b.len() > 0
    } else if b.len() == 0 {
        false
    } else if a[0] != b[0] {
        (a[0] as u32) < (b[0] as u32)
    } else {
        chars_lt(a.drop_first(), b.drop_first())
    }
}

/// Insert `x` after every element whose name is not greater than its own.
pub open spec fn insert_sorted(
    s: Seq<(Seq<char>, Seq<char>)>,
    x: (Seq<char>, Seq<char>),
) -> Seq<(Seq<char>, Seq<char>)>
    decreases s.len(),
{
    if s.len() == 0 {
        seq![x]
    } else if chars_lt(x.0, s.last().0) {
        insert_sorted(s.drop_last(), x).push(s.last())
    } else {
        s.push(x)
    }
}

/// The pairs stably sorted by name.
pub open spec fn sort_by_name(s: Seq<(Seq<char>, Seq<char>)>) -> Seq<(Seq<char>, Seq<char>)>
    decreases s.len(),
{
    if s.len() == 0 {
        s
    } else {
        insert_sorted(sort_by_name(s.drop_last()), s.last())
    }
}

/// The `c` and `d` sections for a `Cookie` value.
pub open spec fn cookie_sections(v: Option<Seq<u8>>) -> (Seq<char>, Seq<char>) {
    match v {
        None => (zeros12(), zeros12()),
        Some(bytes) => {
            let pairs = sort_by_name(parse_cookies_spec(bytes));
            if pairs.len() == 0 {
                (zeros12(), zeros12())
            } else {
                (
                    hash12(join_chars(Seq::new(pairs.len(), |i: int| pairs[i].0), ',')),
                    hash12(
                        join_chars(
                            Seq::new(pairs.len(), |i: int| pairs[i].0 + seq!['='] + pairs[i].1),
                            ',',
                        ),
                    ),
                )
            }
        },
    }
}

/// The JA4H sections of a request.
pub open spec fn ja4h_spec(method: Seq<u8>, version: HttpVersion, hs: HeaderSeq) -> (
    Seq<char>,
    Seq<char>,
    Seq<char>,
    Seq<char>,
) {
    let (c, d) = cookie_sections(last_cookie(hs));
    (a_section(method, version, hs), hash12(join_chars(hashed_names(hs), ',')), c, d)
}

// ── executable pieces ─────────────────────────────────────────────

fn lower_char_of(b: u8) -> (c: char)
    ensures
        c == lower_char(b),
{
    let l = crate::text::to_lower(b);
    l as char
}

fn name_chars_of(n: &[u8]) -> (r: Vec<char>)
    ensures
        r@ == name_chars(n@),
{
    let mut r: Vec<char> = Vec::new();
    let mut i: usize = 0;
    while i < n.len()
        invariant
            i <= n@.len(),
            r@ =~= name_chars(n@.take(i as int)),
        decreases n@.len() - i,
    {
        r.push(lower_char_of(n[i]));
        i += 1;
    }
    assert(n@.take(n@.len() as int) =~= n@);
    r
}

fn push_all(dst: &mut Vec<char>, src: &[char])
    ensures
        final(dst)@ == old(dst)@ + src@,
{
    let mut i: usize = 0;
    while i < src.len()
        invariant
            i <= src@.len(),
            dst@ =~= old(dst)@ + src@.take(i as int),
        decreases src@.len() - i,
    {
        dst.push(src[i]);
        i += 1;
    }
    assert(src@.take(src@.len() as int) =~= src@);
}

/// Join items with a separator.
fn join_with(items: &Vec<Vec<char>>, sep: char) -> (r: Vec<char>)
    ensures
        r@ == join_chars(items.deep_view(), sep),
{
    let ghost iv = items.deep_view();
    let mut r: Vec<char> = Vec::new();
    let mut i: usize = 0;
    while i < items.len()
        invariant
            i <= items.len(),
            iv == items.deep_view(),
            r@ == join_chars(iv.take(i as int), sep),
        decreases items.len() - i,
    {
        assert(iv.take(i + 1).drop_last() =~= iv.take(i as int));
        assert(iv[i as int] == items[i as int]@);
        if i > 0 {
            r.push(sep);
        }
        push_all(&mut r, items[i].as_slice());
        proof {
            if i == 0 {
                assert(r@ =~= iv.take(1)[0]);
            }
        }
        i += 1;
    }
    assert(iv.take(items.len() as int) =~= iv);
    r
}

/// The first 12 hex digits of the SHA-256 of the characters' UTF-8.
fn hash12_of(cs: &Vec<char>) -> (r: String)
    ensures
        r@ == hash12(cs@),
        hex12(r@),
{
    let text = string_of(cs.as_slice());
    let bytes = text.as_str().as_bytes();
    let digest = sha256(bytes);
    let head = &digest.as_slice()[0..6];
    assert(head@ =~= digest@.take(6));
    proof {
        lemma_hex_chars(head@);
    }
    hex_encode(head)
}

fn zeros12_string() -> (r: String)
    ensures
        r@ == zeros12(),
        hex12(r@),
{
    let z: [char; 12] = ['0', '0', '0', '0', '0', '0', '0', '0', '0', '0', '0', '0'];
    let r = string_of(&z);
    assert(r@ =~= zeros12());
    r
}

/// `char::is_whitespace`: the Unicode `White_Space` property.
fn is_white_space_char(c: char) -> (r: bool)
    ensures
        r == is_white_space(c),
{
    let u = c as u32;
    (9 <= u && u <= 13) || u == 32 || u == 0x85 || u == 0xA0 || u == 0x1680 || (0x2000 <= u && u
        <= 0x200A) || u == 0x2028 || u == 0x2029 || u == 0x202F || u == 0x205F || u == 0x3000
}

proof fn lemma_trim_end_chars_take(s: Seq<char>, hi: int)
    requires
        0 <= hi <= s.len(),
        forall|j: int| hi <= j < s.len() ==> is_white_space(s[j]),
    ensures
        crate::text::trim_end_chars(s) == crate::text::trim_end_chars(s.take(hi)),
    decreases s.len() - hi,
{
    if hi < s.len() {
        assert(s.drop_last().take(hi) =~= s.take(hi));
        lemma_trim_end_chars_take(s.drop_last(), hi);
    } else {
        assert(s.take(hi) =~= s);
    }
}

proof fn lemma_trim_start_chars_skip(s: Seq<char>, lo: int)
    requires
        0 <= lo <= s.len(),
        forall|j: int| 0 <= j < lo ==> is_white_space(s[j]),
    ensures
        crate::text::trim_start_chars(s) == crate::text::trim_start_chars(s.skip(lo)),
    decreases lo,
{
    if lo > 0 {
        assert(s.drop_first().skip(lo - 1) =~= s.skip(lo));
        lemma_trim_start_chars_skip(s.drop_first(), lo - 1);
    } else {
        assert(s.skip(0) =~= s);
    }
}

/// `str::trim` on characters.
fn trim_chars_of(s: &[char]) -> (r: Vec<char>)
    ensures
        r@ == trim_cs(s@),
{
    let mut hi: usize = s.len();
    while hi > 0 && is_white_space_char(s[hi - 1])
        invariant
            hi <= s@.len(),
            forall|j: int| hi <= j < s@.len() ==> is_white_space(s@[j]),
        decreases hi,
    {
        hi -= 1;
    }
    proof {
        lemma_trim_end_chars_take(s@, hi as int);
        assert(crate::text::trim_end_chars(s@.take(hi as int)) == s@.take(hi as int));
    }
    let ghost e = s@.take(hi as int);
    let mut lo: usize = 0;
    while lo < hi && is_white_space_char(s[lo])
        invariant
            lo <= hi <= s@.len(),
            e == s@.take(hi as int),
            forall|j: int| 0 <= j < lo ==> is_white_space(s@[j]),
        decreases hi - lo,
    {
        lo += 1;
    }
    proof {
        lemma_trim_start_chars_skip(e, lo as int);
        assert(e.skip(lo as int) =~= s@.subrange(lo as int, hi as int));
        let t = e.skip(lo as int);
        if t.len() > 0 {
            assert(t[0] == s@[lo as int]);
        }
    }
    let mut r: Vec<char> = Vec::new();
    push_all(&mut r, &s[lo..hi]);
    r
}

proof fn lemma_before_char(s: Seq<char>, c: char, k: int)
    requires
        0 <= k <= s.len(),
        forall|j: int| 0 <= j < k ==> s[j] != c,
        k < s.len() ==> s[k] == c,
    ensures
        before_char(s, c) == s.take(k),
    decreases k,
{
    if k == 0 {
        if s.len() == 0 {
            assert(s.take(0) =~= s);
        } else {
            assert(s.take(0) =~= Seq::<char>::empty());
        }
    } else {
        let t = s.drop_first();
        assert forall|j: int| 0 <= j < k - 1 implies t[j] != c by {
            assert(t[j] == s[j + 1]);
        }
        if k - 1 < t.len() {
            assert(t[k - 1] == s[k]);
        }
        lemma_before_char(t, c, k - 1);
        assert(seq![s[0]] + t.take(k - 1) =~= s.take(k));
    }
}

/// The characters before the first `c`.
fn before_char_of(s: &[char], c: char) -> (r: Vec<char>)
    ensures
        r@ == before_char(s@, c),
{
    let mut k: usize = 0;
    while k < s.len() && s[k] != c
        invariant
            k <= s@.len(),
            forall|j: int| 0 <= j < k ==> s@[j] != c,
        decreases s@.len() - k,
    {
        k += 1;
    }
    proof {
        lemma_before_char(s@, c, k as int);
    }
    let mut r: Vec<char> = Vec::new();
    push_all(&mut r, &s[0..k]);
    assert(s@.subrange(0, k as int) =~= s@.take(k as int));
    r
}

fn ascii_lower_char_of(c: char) -> (r: char)
    ensures
        r == ascii_lower_char(c),
{
    if 'A' <= c && c <= 'Z' {
        ((c as u32) + 32) as u8 as char
    } else {
        c
    }
}

/// The primary language tag of an `Accept-Language` value.
fn primary_lang_of(v: &[u8]) -> (r: Option<Vec<char>>)
    ensures
        r matches Some(l) ==> primary_lang(v@) == Some(l@),
        r is None ==> primary_lang(v@) is None,
{
    let s = match utf8_str(v) {
        Some(s) => s,
        None => {
            return None;
        },
    };
    let cs = str_chars(s);
    let first_raw = before_char_of(cs.as_slice(), ',');
    let first = trim_chars_of(first_raw.as_slice());
    let stripped_raw = before_char_of(first.as_slice(), ';');
    let stripped = trim_chars_of(stripped_raw.as_slice());
    if stripped.len() == 0 {
        return None;
    }
    let mut out: Vec<char> = Vec::new();
    let mut i: usize = 0;
    while i < stripped.len()
        invariant
            i <= stripped@.len(),
            out@ =~= Seq::new(i as nat, |j: int| ascii_lower_char(stripped@[j])),
        decreases stripped@.len() - i,
    {
        out.push(ascii_lower_char_of(stripped[i]));
        i += 1;
    }
    Some(out)
}

/// A language tag in four characters.
fn pad_lang_of(s: &[char]) -> (r: Vec<char>)
    ensures
        r@ == pad_lang(s@),
{
    let mut cleaned: Vec<char> = Vec::new();
    let mut i: usize = 0;
    while i < s.len()
        invariant
            i <= s@.len(),
            cleaned@ == strip_dashes(s@.take(i as int)),
        decreases s@.len() - i,
    {
        assert(s@.take(i + 1).drop_last() =~= s@.take(i as int));
        if s[i] != '-' && s[i] != '_' {
            cleaned.push(s[i]);
        }
        i += 1;
    }
    assert(s@.take(s@.len() as int) =~= s@);
    let mut out: Vec<char> = Vec::new();
    let mut k: usize = 0;
    while k < 4
        invariant
            k <= 4,
            cleaned@ == strip_dashes(s@),
            out@ =~= Seq::new(
                k as nat,
                |j: int|
                    if j < cleaned@.len() {
                        cleaned@[j]
                    } else {
                        '0'
                    },
            ),
        decreases 4 - k,
    {
        if k < cleaned.len() {
            out.push(cleaned[k]);
        } else {
            out.push('0');
        }
        k += 1;
    }
    out
}

/// Two digits of the header count, capped at 99.
fn count_part_of(n: usize) -> (r: Vec<char>)
    ensures
        r@ == count_part(n as nat),
{
    let m: u8 = if n > 99 { 99 } else { n as u8 };
    let mut r: Vec<char> = Vec::new();
    r.push((48 + m / 10) as char);
    r.push((48 + m % 10) as char);
    assert(r@ =~= count_part(n as nat));
    r
}

fn cookie_tok() -> (a: [u8; 6])
    ensures
        a@ == tok_cookie(),
{
    [99u8, 111, 111, 107, 105, 101]
}

fn referer_tok() -> (a: [u8; 7])
    ensures
        a@ == tok_referer(),
{
    [114u8, 101, 102, 101, 114, 101, 114]
}

fn accept_language_tok() -> (a: [u8; 15])
    ensures
        a@ == tok_accept_language(),
{
    [97u8, 99, 99, 101, 112, 116, 45, 108, 97, 110, 103, 117, 97, 103, 101]
}

/// `lower_seq(n) == t` for a lowercase token `t`.
fn lower_eq(n: &[u8], t: &[u8]) -> (r: bool)
    ensures
        r == (lower_seq(n@) == t@),
{
    if n.len() != t.len() {
        assert(lower_seq(n@).len() != t@.len());
        return false;
    }
    let mut i: usize = 0;
    while i < n.len()
        invariant
            i <= n@.len(),
            n@.len() == t@.len(),
            forall|j: int| 0 <= j < i ==> lower(n@[j]) == t@[j],
        decreases n@.len() - i,
    {
        if crate::text::to_lower(n[i]) != t[i] {
            assert(lower_seq(n@)[i as int] != t@[i as int]);
            return false;
        }
        i += 1;
    }
    assert(lower_seq(n@) =~= t@);
    true
}

// ── cookies ───────────────────────────────────────────────────────

fn push_chars(out: &mut Vec<Vec<char>>, v: Vec<char>)
    ensures
        final(out).deep_view() == old(out).deep_view().push(v@),
{
    let ghost before = out.deep_view();
    proof {
        lemma_chars_deep_view(v);
    }
    out.push(v);
    assert(out.deep_view() =~= before.push(v@));
}

/// `str::split(sep)` on characters.
fn split_chars_of(s: &[char], sep: char) -> (v: Vec<Vec<char>>)
    ensures
        v.deep_view() == split_chars(s@, sep),
{
    let mut done: Vec<Vec<char>> = Vec::new();
    let mut cur: Vec<char> = Vec::new();
    let mut i: usize = 0;
    while i < s.len()
        invariant
            i <= s@.len(),
            (done.deep_view(), cur@) == split_chars_prefix(s@.take(i as int), sep),
        decreases s@.len() - i,
    {
        assert(s@.take(i + 1).drop_last() =~= s@.take(i as int));
        if s[i] == sep {
            let piece = cur;
            push_chars(&mut done, piece);
            cur = Vec::new();
            assert(cur@ =~= Seq::<char>::empty());
        } else {
            cur.push(s[i]);
        }
        i += 1;
    }
    assert(s@.take(s@.len() as int) =~= s@);
    push_chars(&mut done, cur);
    done
}

proof fn lemma_char_index(s: Seq<char>, c: char, from: int, k: int)
    requires
        0 <= from <= k <= s.len(),
        forall|j: int| from <= j < k ==> s[j] != c,
        k < s.len() ==> s[k] == c,
    ensures
        char_index(s, c, from) == (if k < s.len() {
            Some(k)
        } else {
            None::<int>
        }),
    decreases k - from,
{
    if from < k {
        lemma_char_index(s, c, from + 1, k);
    }
}

/// One cookie's `(name, value)`.
fn cookie_pair_of(piece: &[char]) -> (r: Option<(Vec<char>, Vec<char>)>)
    ensures
        r matches Some((n, v)) ==> cookie_pair(piece@) == Some((n@, v@)),
        r is None ==> cookie_pair(piece@) is None,
{
    let c = trim_chars_of(piece);
    if c.len() == 0 {
        return None;
    }
    let mut k: usize = 0;
    while k < c.len() && c[k] != '='
        invariant
            k <= c@.len(),
            forall|j: int| 0 <= j < k ==> c@[j] != '=',
        decreases c@.len() - k,
    {
        k += 1;
    }
    proof {
        lemma_char_index(c@, '=', 0, k as int);
    }
    if k == c.len() {
        return None;
    }
    let name = trim_chars_of(&c.as_slice()[0..k]);
    assert(c@.subrange(0, k as int) =~= c@.take(k as int));
    if name.len() == 0 {
        return None;
    }
    let value = trim_chars_of(&c.as_slice()[k + 1..c.len()]);
    assert(c@.subrange(k + 1, c@.len() as int) =~= c@.skip(k + 1));
    Some((name, value))
}

fn push_pair(out: &mut Vec<(Vec<char>, Vec<char>)>, p: (Vec<char>, Vec<char>))
    ensures
        final(out).deep_view() == old(out).deep_view().push((p.0@, p.1@)),
{
    let ghost before = out.deep_view();
    let ghost pv = (p.0@, p.1@);
    proof {
        lemma_chars_deep_view(p.0);
        lemma_chars_deep_view(p.1);
    }
    out.push(p);
    assert(out.deep_view() =~= before.push(pv));
}

/// The `(name, value)` pairs of a `Cookie` header.
fn parse_cookies(v: &[u8]) -> (r: Vec<(Vec<char>, Vec<char>)>)
    ensures
        r.deep_view() == parse_cookies_spec(v@),
{
    let mut out: Vec<(Vec<char>, Vec<char>)> = Vec::new();
    let s = match utf8_str(v) {
        Some(s) => s,
        None => {
            assert(out.deep_view() =~= Seq::<(Seq<char>, Seq<char>)>::empty());
            return out;
        },
    };
    let cs = str_chars(s);
    let pieces = split_chars_of(cs.as_slice(), ';');
    let ghost pv = pieces.deep_view();
    let mut i: usize = 0;
    assert(out.deep_view() =~= cookie_pairs_of(pv.take(0)));
    while i < pieces.len()
        invariant
            i <= pieces.len(),
            pv == pieces.deep_view(),
            out.deep_view() == cookie_pairs_of(pv.take(i as int)),
        decreases pieces.len() - i,
    {
        assert(pv.take(i + 1).drop_last() =~= pv.take(i as int));
        assert(pv[i as int] == pieces[i as int]@);
        match cookie_pair_of(pieces[i].as_slice()) {
            Some(p) => push_pair(&mut out, p),
            None => {},
        }
        i += 1;
    }
    assert(pv.take(pieces.len() as int) =~= pv);
    out
}

proof fn lemma_chars_lt_index(a: Seq<char>, b: Seq<char>, k: int)
    requires
        0 <= k <= a.len(),
        k <= b.len(),
        forall|j: int| 0 <= j < k ==> a[j] == b[j],
        k < a.len() && k < b.len() ==> a[k] != b[k],
    ensures
        chars_lt(a, b) == (if k == a.len() {
            k < b.len()
        } else if k == b.len() {
            false
        } else {
            (a[k] as u32) < (b[k] as u32)
        }),
    decreases k,
{
    if k > 0 {
        let (ta, tb) = (a.drop_first(), b.drop_first());
        assert forall|j: int| 0 <= j < k - 1 implies ta[j] == tb[j] by {
            assert(ta[j] == a[j + 1]);
            assert(tb[j] == b[j + 1]);
        }
        if k - 1 < ta.len() && k - 1 < tb.len() {
            assert(ta[k - 1] == a[k]);
            assert(tb[k - 1] == b[k]);
        }
        assert(a[0] == b[0]);
        lemma_chars_lt_index(ta, tb, k - 1);
    }
}

/// `a < b` for strings.
fn chars_lt_of(a: &[char], b: &[char]) -> (r: bool)
    ensures
        r == chars_lt(a@, b@),
{
    let mut k: usize = 0;
    while k < a.len() && k < b.len() && a[k] == b[k]
        invariant
            k <= a@.len(),
            k <= b@.len(),
            forall|j: int| 0 <= j < k ==> a@[j] == b@[j],
        decreases a@.len() - k,
    {
        k += 1;
    }
    proof {
        lemma_chars_lt_index(a@, b@, k as int);
    }
    if k == a.len() {
        k < b.len()
    } else if k == b.len() {
        false
    } else {
        (a[k] as u32) < (b[k] as u32)
    }
}

proof fn lemma_insert_sorted(s: Seq<(Seq<char>, Seq<char>)>, x: (Seq<char>, Seq<char>), j: int)
    requires
        0 <= j <= s.len(),
        forall|k: int| j <= k < s.len() ==> chars_lt(x.0, #[trigger] s[k].0),
        j > 0 ==> !chars_lt(x.0, s[j - 1].0),
    ensures
        insert_sorted(s, x) == s.take(j).push(x) + s.skip(j),
    decreases s.len() - j,
{
    if s.len() == 0 {
        assert(s.take(j).push(x) + s.skip(j) =~= seq![x]);
    } else if j == s.len() {
        assert(s.take(j) =~= s);
        assert(s.take(j).push(x) + s.skip(j) =~= s.push(x));
    } else {
        let t = s.drop_last();
        assert forall|k: int| j <= k < t.len() implies chars_lt(x.0, #[trigger] t[k].0) by {
            assert(t[k] == s[k]);
        }
        if j > 0 {
            assert(t[j - 1] == s[j - 1]);
        }
        lemma_insert_sorted(t, x, j);
        assert(t.take(j) =~= s.take(j));
        assert((t.take(j).push(x) + t.skip(j)).push(s.last()) =~= s.take(j).push(x) + s.skip(j));
    }
}

/// Stable insertion sort of cookie pairs by name.
fn sort_pairs(v: Vec<(Vec<char>, Vec<char>)>) -> (r: Vec<(Vec<char>, Vec<char>)>)
    ensures
        r.deep_view() == sort_by_name(v.deep_view()),
{
    let ghost vv = v.deep_view();
    let mut out: Vec<(Vec<char>, Vec<char>)> = Vec::new();
    let mut src = v;
    let mut taken: Vec<(Vec<char>, Vec<char>)> = Vec::new();
    let mut i: usize = 0;
    let n = src.len();
    assert(out.deep_view() =~= sort_by_name(vv.take(0)));
    while i < n
        invariant
            i <= n,
            n == vv.len(),
            src.deep_view() == vv,
            out.deep_view() == sort_by_name(vv.take(i as int)),
        decreases n - i,
    {
        assert(vv.take(i + 1).drop_last() =~= vv.take(i as int));
        assert(vv.take(i + 1).last() == vv[i as int]);
        let x = (copy_chars(src[i].0.as_slice()), copy_chars(src[i].1.as_slice()));
        assert(vv[i as int] == (src[i as int].0@, src[i as int].1@));
        let ghost ov = out.deep_view();
        let mut j: usize = out.len();
        while j > 0 && chars_lt_of(x.0.as_slice(), out[j - 1].0.as_slice())
            invariant
                j <= out.len(),
                ov == out.deep_view(),
                forall|k: int| j <= k < ov.len() ==> chars_lt(x.0@, #[trigger] ov[k].0),
            decreases j,
        {
            assert(ov[j - 1] == (out[j - 1].0@, out[j - 1].1@));
            j -= 1;
        }
        proof {
            if j > 0 {
                assert(ov[j - 1] == (out[j - 1].0@, out[j - 1].1@));
            }
            lemma_insert_sorted(ov, (x.0@, x.1@), j as int);
        }
        let ghost xv = (x.0@, x.1@);
        let ghost before = out@;
        proof {
            lemma_chars_deep_view(x.0);
            lemma_chars_deep_view(x.1);
        }
        out.insert(j, x);
        proof {
            assert forall|k: int| 0 <= k < out@.len() implies #[trigger] out.deep_view()[k] == (
            ov.take(j as int).push(xv) + ov.skip(j as int))[k] by {
                if k < j {
                    assert(out@[k] == before[k]);
                } else if k > j {
                    assert(out@[k] == before[k - 1]);
                }
            }
            assert(out.deep_view() =~= ov.take(j as int).push(xv) + ov.skip(j as int));
        }
        i += 1;
    }
    assert(vv.take(n as int) =~= vv);
    out
}

/// The deep view of a character vector is its view.
proof fn lemma_chars_deep_view(v: Vec<char>)
    ensures
        v.deep_view() == v@,
{
    assert(v.deep_view() =~= v@);
}

fn copy_chars(s: &[char]) -> (r: Vec<char>)
    ensures
        r@ == s@,
{
    let mut r: Vec<char> = Vec::new();
    push_all(&mut r, s);
    assert(r@ =~= s@);
    r
}

// ── the fingerprint ───────────────────────────────────────────────

/// The `c` and `d` sections for a `Cookie` value.
fn cookie_sections_of(v: Option<&[u8]>) -> (r: (String, String))
    ensures
        (r.0@, r.1@) == cookie_sections(
            match v {
                Some(b) => Some(b@),
                None => None,
            },
        ),
        hex12(r.0@),
        hex12(r.1@),
{
    let bytes = match v {
        None => {
            return (zeros12_string(), zeros12_string());
        },
        Some(b) => b,
    };
    let pairs = sort_pairs(parse_cookies(bytes));
    let ghost pv = pairs.deep_view();
    if pairs.len() == 0 {
        return (zeros12_string(), zeros12_string());
    }
    let mut names: Vec<Vec<char>> = Vec::new();
    let mut kvs: Vec<Vec<char>> = Vec::new();
    let mut i: usize = 0;
    while i < pairs.len()
        invariant
            i <= pairs.len(),
            pv == pairs.deep_view(),
            names.deep_view() =~= Seq::new(i as nat, |k: int| pv[k].0),
            kvs.deep_view() =~= Seq::new(i as nat, |k: int| pv[k].0 + seq!['='] + pv[k].1),
        decreases pairs.len() - i,
    {
        assert(pv[i as int] == (pairs[i as int].0@, pairs[i as int].1@));
        let n = copy_chars(pairs[i].0.as_slice());
        let mut kv = copy_chars(pairs[i].0.as_slice());
        kv.push('=');
        push_all(&mut kv, pairs[i].1.as_slice());
        assert(kv@ =~= pv[i as int].0 + seq!['='] + pv[i as int].1);
        push_chars(&mut names, n);
        push_chars(&mut kvs, kv);
        i += 1;
    }
    let names_csv = join_with(&names, ',');
    let pairs_csv = join_with(&kvs, ',');
    (hash12_of(&names_csv), hash12_of(&pairs_csv))
}

/// The JA4H sections of a request.
pub fn ja4h_parts(req: &HttpRequest) -> (p: Ja4hParts)
    ensures
        (p.a@, p.b@, p.c@, p.d@) == ja4h_spec(req.method@, req.version, req.headers.deep_view()),
        hex12(p.b@),
        hex12(p.c@),
        hex12(p.d@),
{
    let ghost hs = req.headers.deep_view();
    let m = req.method.as_slice();
    let mut a: Vec<char> = Vec::new();
    a.push(if m.len() > 0 { lower_char_of(m[0]) } else { '0' });
    a.push(if m.len() > 1 { lower_char_of(m[1]) } else { '0' });
    match req.version {
        HttpVersion::Http1_0 => {
            a.push('1');
            a.push('0');
        },
        HttpVersion::Http1_1 => {
            a.push('1');
            a.push('1');
        },
    }
    let ct = cookie_tok();
    let rt = referer_tok();
    let lt = accept_language_tok();
    let mut has_cookie = false;
    let mut has_referer = false;
    let mut cookie_at: Option<usize> = None;
    let mut lang: Option<Vec<char>> = None;
    let mut names: Vec<Vec<char>> = Vec::new();
    let mut i: usize = 0;
    while i < req.headers.len()
        invariant
            i <= req.headers.len(),
            hs == req.headers.deep_view(),
            ct@ == tok_cookie(),
            rt@ == tok_referer(),
            lt@ == tok_accept_language(),
            names.deep_view() == hashed_names(hs.take(i as int)),
            has_cookie == has_named(hs.take(i as int), tok_cookie()),
            has_referer == has_named(hs.take(i as int), tok_referer()),
            match cookie_at {
                Some(k) => k < i && last_cookie(hs.take(i as int)) == Some(hs[k as int].1),
                None => last_cookie(hs.take(i as int)) is None,
            },
            match lang {
                Some(l) => first_lang(hs.take(i as int)) == Some(l@),
                None => first_lang(hs.take(i as int)) is None,
            },
        decreases req.headers.len() - i,
    {
        let ghost t = hs.take(i + 1);
        assert(t.drop_last() =~= hs.take(i as int));
        assert(t.last() == hs[i as int]);
        assert(hs[i as int] == (req.headers[i as int].0@, req.headers[i as int].1@));
        let name = req.headers[i].0.as_slice();
        if lower_eq(name, &ct) {
            has_cookie = true;
            cookie_at = Some(i);
        } else if lower_eq(name, &rt) {
            has_referer = true;
        } else {
            if lower_eq(name, &lt) && lang.is_none() {
                lang = primary_lang_of(req.headers[i].1.as_slice());
            }
            push_chars(&mut names, name_chars_of(name));
        }
        i += 1;
    }
    assert(hs.take(req.headers.len() as int) =~= hs);
    a.push(if has_cookie { 'c' } else { 'n' });
    a.push(if has_referer { 'r' } else { 'n' });
    let count = count_part_of(req.headers.len());
    push_all(&mut a, count.as_slice());
    match lang {
        Some(l) => {
            let padded = pad_lang_of(l.as_slice());
            push_all(&mut a, padded.as_slice());
        },
        None => {
            let z: [char; 4] = ['0', '0', '0', '0'];
            push_all(&mut a, &z);
        },
    }
    assert(a@ =~= a_section(req.method@, req.version, hs));
    let joined = join_with(&names, ',');
    let b = hash12_of(&joined);
    let cookie = match cookie_at {
        Some(k) => Some(req.headers[k].1.as_slice()),
        None => None,
    };
    assert(match cookie {
        Some(b) => Some(b@),
        None => None,
    } == last_cookie(hs));
    let (c, d) = cookie_sections_of(cookie);
    let a = string_of(a.as_slice());
    assert(b@ == hash12(join_chars(hashed_names(hs), ',')));
    assert((c@, d@) == cookie_sections(last_cookie(hs)));
    Ja4hParts { a, b, c, d }
}

/// `a`, `b`, `c`, `d` joined with `_`.
pub open spec fn joined_sections(a: Seq<char>, b: Seq<char>, c: Seq<char>, d: Seq<char>) -> Seq<
    char,
> {
    a + seq!['_'] + b + seq!['_'] + c + seq!['_'] + d
}

impl Ja4hParts {
    /// Re-join into the `a_b_c_d` form.
    pub fn fingerprint(&self) -> (s: String)
        ensures
            s@ == joined_sections(self.a@, self.b@, self.c@, self.d@),
    {
        let mut s = self.a.clone();
        s.append("_");
        s.append(self.b.as_str());
        s.append("_");
        s.append(self.c.as_str());
        s.append("_");
        s.append(self.d.as_str());
        proof {
            reveal_strlit("_");
        }
        assert(s@ =~= joined_sections(self.a@, self.b@, self.c@, self.d@));
        s
    }
}

/// The full `a_b_c_d` JA4H fingerprint of a request.
pub fn ja4h(req: &HttpRequest) -> (s: String)
    ensures
        ({
            let (a, b, c, d) = ja4h_spec(req.method@, req.version, req.headers.deep_view());
            s@ == joined_sections(a, b, c, d)
        }),
{
    ja4h_parts(req).fingerprint()
}

} // verus!
