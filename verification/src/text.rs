//! Byte-string primitives shared by the protocol parsers: ASCII case
//! folding, whitespace trimming, separator splitting, CRLF search and
//! strict numeric parsing.

use vstd::prelude::*;
use vstd::string::StringSliceAdditionalSpecFns;
use vstd::utf8::{decode_utf8, valid_utf8};

verus! {

/// ASCII lowercase of one byte (non-letters are unchanged).
pub open spec fn lower(b: u8) -> u8 {
    if 65 <= b && b <= 90 {
        (b + 32) as u8
    } else {
        b
    }
}

/// ASCII case-insensitive equality of two byte strings.
pub open spec fn eq_ic(a: Seq<u8>, b: Seq<u8>) -> bool {
    &&& a.len() == b.len()
    &&& forall|i: int| 0 <= i < a.len() ==> #[trigger] lower(a[i]) == lower(b[i])
}

/// ASCII lowercase of a whole byte string.
pub open spec fn lower_seq(s: Seq<u8>) -> Seq<u8> {
    Seq::new(s.len(), |i: int| lower(s[i]))
}

/// `u8::is_ascii_whitespace`: space, tab, LF, form feed, CR.
pub open spec fn is_ws(b: u8) -> bool {
    b == 32 || b == 9 || b == 10 || b == 12 || b == 13
}

/// `b` is an ASCII decimal digit.
pub open spec fn is_digit(b: u8) -> bool {
    48 <= b && b <= 57
}

/// Drop trailing ASCII whitespace.
pub open spec fn trim_end(s: Seq<u8>) -> Seq<u8>
    decreases s.len(),
{
    if s.len() > 0 && is_ws(s.last()) {
        trim_end(s.drop_last())
    } else {
        s
    }
}

/// Drop leading ASCII whitespace.
pub open spec fn trim_start(s: Seq<u8>) -> Seq<u8>
    decreases s.len(),
{
    if s.len() > 0 && is_ws(s[0]) {
        trim_start(s.drop_first())
    } else {
        s
    }
}

/// `<[u8]>::trim_ascii`: drop leading and trailing ASCII whitespace.
pub open spec fn trim(s: Seq<u8>) -> Seq<u8> {
    trim_start(trim_end(s))
}

/// Pieces of `s` before the last separator, and the piece being built.
pub open spec fn split_prefix(s: Seq<u8>, sep: u8) -> (Seq<Seq<u8>>, Seq<u8>)
    decreases s.len(),
{
    if s.len() == 0 {
        (Seq::empty(), Seq::empty())
    } else {
        let (done, cur) = split_prefix(s.drop_last(), sep);
        if s.last() == sep {
            (done.push(cur), Seq::empty())
        } else {
            (done, cur.push(s.last()))
        }
    }
}

/// `<[u8]>::split(|b| b == sep)`: the pieces between separators. An
/// empty input yields one empty piece.
pub open spec fn split_on(s: Seq<u8>, sep: u8) -> Seq<Seq<u8>> {
    let (done, cur) = split_prefix(s, sep);
    done.push(cur)
}

/// CR LF starts at `i`.
pub open spec fn crlf_at(s: Seq<u8>, i: int) -> bool {
    0 <= i && i + 1 < s.len() && s[i] == 13 && s[i + 1] == 10
}

/// `i` is the first CR LF at or after `from`.
pub open spec fn first_crlf_from(s: Seq<u8>, from: int, i: int) -> bool {
    &&& from <= i
    &&& crlf_at(s, i)
    &&& forall|j: int| from <= j < i ==> !crlf_at(s, j)
}

/// No CR LF at or after `from`.
pub open spec fn no_crlf_from(s: Seq<u8>, from: int) -> bool {
    forall|j: int| from <= j ==> !crlf_at(s, j)
}

/// Value of a string of decimal digits.
pub open spec fn decimal_value(s: Seq<u8>) -> nat
    decreases s.len(),
{
    if s.len() == 0 {
        0
    } else {
        decimal_value(s.drop_last()) * 10 + (s.last() - 48) as nat
    }
}

/// All bytes are ASCII digits.
pub open spec fn all_digits(s: Seq<u8>) -> bool {
    forall|i: int| 0 <= i < s.len() ==> #[trigger] is_digit(s[i])
}

/// Strict decimal: non-empty, digits only, fits in `u64`.
pub open spec fn decimal_u64(s: Seq<u8>) -> Option<u64> {
    if s.len() > 0 && all_digits(s) && decimal_value(s) <= u64::MAX {
        Some(decimal_value(s) as u64)
    } else {
        None
    }
}

/// Value of one hexadecimal digit (any case), or 16 for a non-digit.
pub open spec fn hex_digit(b: u8) -> nat {
    if 48 <= b && b <= 57 {
        (b - 48) as nat
    } else if 97 <= b && b <= 102 {
        (b - 87) as nat
    } else if 65 <= b && b <= 70 {
        (b - 55) as nat
    } else {
        16
    }
}

/// Value of a string of hexadecimal digits.
pub open spec fn hex_value(s: Seq<u8>) -> nat
    decreases s.len(),
{
    if s.len() == 0 {
        0
    } else {
        hex_value(s.drop_last()) * 16 + hex_digit(s.last())
    }
}

/// All bytes are hexadecimal digits.
pub open spec fn all_hex(s: Seq<u8>) -> bool {
    forall|i: int| 0 <= i < s.len() ==> #[trigger] hex_digit(s[i]) < 16
}

/// An ASCII-hex number: one or more hexadecimal digits (no sign) whose
/// value fits in `u64`.
pub open spec fn hex_u64(s: Seq<u8>) -> Option<u64> {
    if s.len() > 0 && all_hex(s) && hex_value(s) <= u64::MAX {
        Some(hex_value(s) as u64)
    } else {
        None
    }
}

/// The deep view of a byte vector is its view.
pub proof fn lemma_bytes_deep_view(v: Vec<u8>)
    ensures
        v.deep_view() == v@,
{
    assert(v.deep_view() =~= v@);
}

/// Copy a byte slice into a new vector.
pub fn copy_bytes(s: &[u8]) -> (v: Vec<u8>)
    ensures
        v@ == s@,
{
    let mut v: Vec<u8> = Vec::new();
    v.extend_from_slice(s);
    assert(v@ =~= s@);
    v
}

/// ASCII lowercase of one byte.
pub fn to_lower(b: u8) -> (r: u8)
    ensures
        r == lower(b),
{
    if 65 <= b && b <= 90 {
        b + 32
    } else {
        b
    }
}

/// ASCII lowercase copy of a byte string.
pub fn to_lower_bytes(s: &[u8]) -> (v: Vec<u8>)
    ensures
        v@ == lower_seq(s@),
{
    let mut v: Vec<u8> = Vec::new();
    let mut i: usize = 0;
    while i < s.len()
        invariant
            i <= s@.len(),
            v@ =~= lower_seq(s@.take(i as int)),
        decreases s@.len() - i,
    {
        v.push(to_lower(s[i]));
        i += 1;
    }
    assert(s@.take(s@.len() as int) =~= s@);
    v
}

/// `<[u8]>::eq_ignore_ascii_case`.
pub fn eq_ignore_ascii_case(a: &[u8], b: &[u8]) -> (r: bool)
    ensures
        r == eq_ic(a@, b@),
{
    if a.len() != b.len() {
        return false;
    }
    let mut i: usize = 0;
    while i < a.len()
        invariant
            i <= a@.len(),
            a@.len() == b@.len(),
            forall|j: int| 0 <= j < i ==> #[trigger] lower(a@[j]) == lower(b@[j]),
        decreases a@.len() - i,
    {
        if to_lower(a[i]) != to_lower(b[i]) {
            return false;
        }
        i += 1;
    }
    true
}

/// `u8::is_ascii_whitespace`.
pub fn is_ascii_ws(b: u8) -> (r: bool)
    ensures
        r == is_ws(b),
{
    b == 32 || b == 9 || b == 10 || b == 12 || b == 13
}

proof fn lemma_trim_end_take(s: Seq<u8>, hi: int)
    requires
        0 <= hi <= s.len(),
        forall|j: int| hi <= j < s.len() ==> is_ws(s[j]),
    ensures
        trim_end(s) == trim_end(s.take(hi)),
    decreases s.len() - hi,
{
    if hi < s.len() {
        assert(s.drop_last().take(hi) =~= s.take(hi));
        lemma_trim_end_take(s.drop_last(), hi);
    } else {
        assert(s.take(hi) =~= s);
    }
}

proof fn lemma_trim_start_skip(s: Seq<u8>, lo: int)
    requires
        0 <= lo <= s.len(),
        forall|j: int| 0 <= j < lo ==> is_ws(s[j]),
    ensures
        trim_start(s) == trim_start(s.skip(lo)),
    decreases lo,
{
    if lo > 0 {
        assert(s.drop_first().skip(lo - 1) =~= s.skip(lo));
        lemma_trim_start_skip(s.drop_first(), lo - 1);
    } else {
        assert(s.skip(0) =~= s);
    }
}

/// Bounds of `s.trim_ascii()` within `s`.
pub fn trim_bounds(s: &[u8]) -> (r: (usize, usize))
    ensures
        r.0 <= r.1 <= s@.len(),
        s@.subrange(r.0 as int, r.1 as int) == trim(s@),
{
    let mut hi: usize = s.len();
    while hi > 0 && is_ascii_ws(s[hi - 1])
        invariant
            hi <= s@.len(),
            forall|j: int| hi <= j < s@.len() ==> is_ws(s@[j]),
        decreases hi,
    {
        hi -= 1;
    }
    proof {
        lemma_trim_end_take(s@, hi as int);
        assert(trim_end(s@.take(hi as int)) == s@.take(hi as int));
    }
    let ghost e = s@.take(hi as int);
    let mut lo: usize = 0;
    while lo < hi && is_ascii_ws(s[lo])
        invariant
            lo <= hi <= s@.len(),
            e == s@.take(hi as int),
            forall|j: int| 0 <= j < lo ==> is_ws(s@[j]),
        decreases hi - lo,
    {
        lo += 1;
    }
    proof {
        lemma_trim_start_skip(e, lo as int);
        assert(e.skip(lo as int) =~= s@.subrange(lo as int, hi as int));
        let t = e.skip(lo as int);
        if t.len() > 0 {
            assert(t[0] == s@[lo as int]);
        }
    }
    (lo, hi)
}

/// `s.trim_ascii()` as a new vector.
pub fn trim_ascii(s: &[u8]) -> (v: Vec<u8>)
    ensures
        v@ == trim(s@),
{
    let (lo, hi) = trim_bounds(s);
    copy_bytes(&s[lo..hi])
}

/// Index of the first CR LF at or after `from`.
pub fn find_crlf_from(buf: &[u8], from: usize) -> (r: Option<usize>)
    ensures
        r matches Some(i) ==> first_crlf_from(buf@, from as int, i as int),
        r is None ==> no_crlf_from(buf@, from as int),
{
    if buf.len() < 2 {
        return None;
    }
    let mut i: usize = from;
    while i < buf.len() - 1
        invariant
            from <= i,
            buf@.len() >= 2,
            forall|j: int| from <= j < i ==> !crlf_at(buf@, j),
        decreases buf@.len() - i,
    {
        if buf[i] == 13 && buf[i + 1] == 10 {
            return Some(i);
        }
        i += 1;
    }
    None
}

/// Split on a separator byte, like `<[u8]>::split`.
pub fn split_bytes(s: &[u8], sep: u8) -> (v: Vec<Vec<u8>>)
    ensures
        v.deep_view() == split_on(s@, sep),
{
    let mut done: Vec<Vec<u8>> = Vec::new();
    let mut cur: Vec<u8> = Vec::new();
    let mut i: usize = 0;
    while i < s.len()
        invariant
            i <= s@.len(),
            (done.deep_view(), cur@) == split_prefix(s@.take(i as int), sep),
        decreases s@.len() - i,
    {
        assert(s@.take(i + 1).drop_last() =~= s@.take(i as int));
        if s[i] == sep {
            let piece = cur;
            done.push(piece);
            cur = Vec::new();
            proof {
                lemma_bytes_deep_view(piece);
                assert(done.deep_view() =~= split_prefix(s@.take(i as int), sep).0.push(piece@));
                assert(cur@ =~= Seq::<u8>::empty());
            }
        } else {
            cur.push(s[i]);
        }
        i += 1;
    }
    assert(s@.take(s@.len() as int) =~= s@);
    let ghost d = done.deep_view();
    proof {
        lemma_bytes_deep_view(cur);
    }
    done.push(cur);
    assert(done.deep_view() =~= d.push(cur@));
    done
}

proof fn lemma_decimal_monotone(s: Seq<u8>, i: int)
    requires
        0 <= i <= s.len(),
        all_digits(s),
    ensures
        decimal_value(s.take(i)) <= decimal_value(s),
    decreases s.len() - i,
{
    if i < s.len() {
        let t = s.take(i + 1);
        assert(t.drop_last() =~= s.take(i));
        lemma_decimal_monotone(s, i + 1);
        assert(decimal_value(t) >= decimal_value(s.take(i))) by (nonlinear_arith)
            requires
                decimal_value(t) == decimal_value(s.take(i)) * 10 + (t.last() - 48) as nat,
        ;
    } else {
        assert(s.take(i) =~= s);
    }
}

/// Strict decimal parse: digits only, no sign, must fit in `u64`.
pub fn parse_decimal(s: &[u8]) -> (r: Option<u64>)
    ensures
        r == decimal_u64(s@),
{
    if s.len() == 0 {
        return None;
    }
    let mut acc: u64 = 0;
    let mut i: usize = 0;
    while i < s.len()
        invariant
            i <= s@.len(),
            acc == decimal_value(s@.take(i as int)),
            all_digits(s@.take(i as int)),
        decreases s@.len() - i,
    {
        assert(s@.take(i + 1).drop_last() =~= s@.take(i as int));
        let b = s[i];
        if b < 48 || b > 57 {
            assert(!is_digit(s@[i as int]));
            return None;
        }
        let d = (b - 48) as u64;
        proof {
            assert(decimal_value(s@.take(i + 1)) == acc * 10 + d);
            assert(all_digits(s@.take(i + 1)));
        }
        let m = acc.checked_mul(10);
        match m {
            None => {
                proof {
                    if all_digits(s@) {
                        lemma_decimal_monotone(s@, i + 1);
                    }
                }
                return None;
            },
            Some(m) => {
                match m.checked_add(d) {
                    None => {
                        proof {
                            if all_digits(s@) {
                                lemma_decimal_monotone(s@, i + 1);
                            }
                        }
                        return None;
                    },
                    Some(n) => {
                        acc = n;
                    },
                }
            },
        }
        assert(all_digits(s@.take(i + 1)));
        i += 1;
    }
    assert(s@.take(s@.len() as int) =~= s@);
    Some(acc)
}


proof fn lemma_hex_monotone(s: Seq<u8>, i: int)
    requires
        0 <= i <= s.len(),
        all_hex(s),
    ensures
        hex_value(s.take(i)) <= hex_value(s),
    decreases s.len() - i,
{
    if i < s.len() {
        let t = s.take(i + 1);
        assert(t.drop_last() =~= s.take(i));
        lemma_hex_monotone(s, i + 1);
        assert(hex_value(t) >= hex_value(s.take(i))) by (nonlinear_arith)
            requires
                hex_value(t) == hex_value(s.take(i)) * 16 + hex_digit(t.last()),
        ;
    } else {
        assert(s.take(i) =~= s);
    }
}

/// Value of one hexadecimal digit byte, if it is one.
pub fn hex_digit_value(b: u8) -> (r: Option<u8>)
    ensures
        r matches Some(v) ==> v as nat == hex_digit(b) && hex_digit(b) < 16,
        r is None ==> hex_digit(b) == 16,
{
    if 48 <= b && b <= 57 {
        Some(b - 48)
    } else if 97 <= b && b <= 102 {
        Some(b - 87)
    } else if 65 <= b && b <= 70 {
        Some(b - 55)
    } else {
        None
    }
}

/// Parse an ASCII-hex number, as [`hex_u64`] says: hexadecimal digits
/// only, whose value fits in `u64`.
pub fn parse_hex(s: &[u8]) -> (r: Option<u64>)
    ensures
        r == hex_u64(s@),
{
    let ghost d = s@;
    if s.len() == 0 {
        return None;
    }
    let mut acc: u64 = 0;
    let mut i: usize = 0;
    while i < s.len()
        invariant
            i <= s@.len(),
            d == s@,
            acc == hex_value(d.take(i as int)),
            all_hex(d.take(i as int)),
        decreases s@.len() - i,
    {
        let ghost k = i as int;
        assert(d.take(k + 1).drop_last() =~= d.take(k));
        assert(d[k] == s@[i as int]);
        let v = hex_digit_value(s[i]);
        match v {
            None => {
                assert(!(hex_digit(d[k]) < 16));
                return None;
            },
            Some(v) => {
                proof {
                    assert(hex_value(d.take(k + 1)) == acc * 16 + v);
                    assert(all_hex(d.take(k + 1)));
                }
                match acc.checked_mul(16) {
                    None => {
                        proof {
                            if all_hex(d) {
                                lemma_hex_monotone(d, k + 1);
                            }
                        }
                        return None;
                    },
                    Some(m) => {
                        match m.checked_add(v as u64) {
                            None => {
                                proof {
                                    if all_hex(d) {
                                        lemma_hex_monotone(d, k + 1);
                                    }
                                }
                                return None;
                            },
                            Some(n) => {
                                acc = n;
                            },
                        }
                    },
                }
            },
        }
        i += 1;
    }
    assert(d.take(d.len() as int) =~= d);
    Some(acc)
}

// ── std string conversions ────────────────────────────────────────

/// `std::str::from_utf8`: a string exactly when the bytes are valid
/// UTF-8, decoding them.
#[verifier::external_body]
pub fn utf8_str(v: &[u8]) -> (r: Option<&str>)
    ensures
        r is Some <==> valid_utf8(v@),
        r matches Some(s) ==> s@ == decode_utf8(v@) && s.spec_bytes() == v@,
{
    std::str::from_utf8(v).ok()
}

/// A character with the Unicode `White_Space` property.
pub open spec fn is_white_space(c: char) -> bool {
    let u = c as u32;
    (9 <= u && u <= 13) || u == 32 || u == 0x85 || u == 0xA0 || u == 0x1680 || (0x2000 <= u && u
        <= 0x200A) || u == 0x2028 || u == 0x2029 || u == 0x202F || u == 0x205F || u == 0x3000
}

/// Drop trailing `White_Space` characters.
pub open spec fn trim_end_chars(s: Seq<char>) -> Seq<char>
    decreases s.len(),
{
    if s.len() > 0 && is_white_space(s.last()) {
        trim_end_chars(s.drop_last())
    } else {
        s
    }
}

/// Drop leading `White_Space` characters.
pub open spec fn trim_start_chars(s: Seq<char>) -> Seq<char>
    decreases s.len(),
{
    if s.len() > 0 && is_white_space(s[0]) {
        trim_start_chars(s.drop_first())
    } else {
        s
    }
}

/// `str::trim`: leading and trailing `White_Space` removed.
pub open spec fn trim_chars(s: Seq<char>) -> Seq<char> {
    trim_start_chars(trim_end_chars(s))
}

/// `str::trim`, which removes leading and trailing characters with the
/// Unicode `White_Space` property.
#[verifier::external_body]
pub fn trim_str(s: &str) -> (r: &str)
    ensures
        r@ == trim_chars(s@),
{
    s.trim()
}

/// `str::trim_end`, which removes trailing characters with the Unicode
/// `White_Space` property.
#[verifier::external_body]
pub fn trim_end_str(s: &str) -> (r: &str)
    ensures
        r@ == trim_end_chars(s@),
{
    s.trim_end()
}

/// `str::trim_start`, which removes leading characters with the Unicode
/// `White_Space` property.
#[verifier::external_body]
pub fn trim_start_str(s: &str) -> (r: &str)
    ensures
        r@ == trim_start_chars(s@),
{
    s.trim_start()
}

/// Value of a string of decimal digit characters.
pub open spec fn digit_chars_value(s: Seq<char>) -> nat
    decreases s.len(),
{
    if s.len() == 0 {
        0
    } else {
        digit_chars_value(s.drop_last()) * 10 + ((s.last() as u32) - 48) as nat
    }
}

/// All characters are ASCII decimal digits.
pub open spec fn all_digit_chars(s: Seq<char>) -> bool {
    forall|i: int| 0 <= i < s.len() ==> 48 <= (#[trigger] s[i] as u32) && (s[i] as u32) <= 57
}

/// `usize::from_str`: an optional `+`, then one or more decimal digits
/// whose value fits in `usize`.
pub open spec fn usize_from_chars(s: Seq<char>) -> Option<usize> {
    let d = if s.len() > 0 && s[0] == '+' {
        s.drop_first()
    } else {
        s
    };
    if d.len() > 0 && all_digit_chars(d) && digit_chars_value(d) <= usize::MAX {
        Some(digit_chars_value(d) as usize)
    } else {
        None
    }
}

/// `str::parse::<usize>`: an optional `+` then decimal digits that fit
/// in `usize`; anything else (a sign `-`, whitespace, an empty string,
/// overflow) is an error.
#[verifier::external_body]
pub fn parse_usize(s: &str) -> (r: Option<usize>)
    ensures
        r == usize_from_chars(s@),
{
    s.parse::<usize>().ok()
}

/// `str::parse::<u64>`, as [`usize_from_chars`] bounded by `u64::MAX`.
pub open spec fn u64_from_chars(s: Seq<char>) -> Option<u64> {
    let d = if s.len() > 0 && s[0] == '+' {
        s.drop_first()
    } else {
        s
    };
    if d.len() > 0 && all_digit_chars(d) && digit_chars_value(d) <= u64::MAX {
        Some(digit_chars_value(d) as u64)
    } else {
        None
    }
}

/// `str::parse::<u64>`: an optional `+` then decimal digits that fit in
/// `u64`; anything else is an error.
#[verifier::external_body]
pub fn parse_u64(s: &str) -> (r: Option<u64>)
    ensures
        r == u64_from_chars(s@),
{
    s.parse::<u64>().ok()
}

/// `str::parse::<u32>`, as [`usize_from_chars`] bounded by `u32::MAX`.
pub open spec fn u32_from_chars(s: Seq<char>) -> Option<u32> {
    let d = if s.len() > 0 && s[0] == '+' {
        s.drop_first()
    } else {
        s
    };
    if d.len() > 0 && all_digit_chars(d) && digit_chars_value(d) <= u32::MAX {
        Some(digit_chars_value(d) as u32)
    } else {
        None
    }
}

/// `str::parse::<u32>`: an optional `+` then decimal digits that fit in
/// `u32`; anything else is an error.
#[verifier::external_body]
pub fn parse_u32(s: &str) -> (r: Option<u32>)
    ensures
        r == u32_from_chars(s@),
{
    s.parse::<u32>().ok()
}

/// `str::chars` collected: the characters of a string.
#[verifier::external_body]
pub(crate) fn str_chars(s: &str) -> (r: Vec<char>)
    ensures
        r@ == s@,
{
    s.chars().collect()
}

/// A `String` collected from characters.
#[verifier::external_body]
pub(crate) fn string_of(cs: &[char]) -> (r: String)
    ensures
        r@ == cs@,
{
    cs.iter().collect()
}

/// `str::parse::<u16>`, as [`usize_from_chars`] bounded by `u16::MAX`.
pub open spec fn u16_from_chars(s: Seq<char>) -> Option<u16> {
    let d = if s.len() > 0 && s[0] == '+' {
        s.drop_first()
    } else {
        s
    };
    if d.len() > 0 && all_digit_chars(d) && digit_chars_value(d) <= u16::MAX {
        Some(digit_chars_value(d) as u16)
    } else {
        None
    }
}

/// `str::parse::<u16>`: an optional `+` then decimal digits that fit in
/// `u16`; anything else is an error.
#[verifier::external_body]
pub fn parse_u16(s: &str) -> (r: Option<u16>)
    ensures
        r == u16_from_chars(s@),
{
    s.parse::<u16>().ok()
}

/// Index of the first `c` in `s` at or after `i`.
pub open spec fn index_of_char(s: Seq<char>, c: char, i: int) -> Option<int>
    decreases s.len() - i,
{
    if i < 0 || i >= s.len() {
        None
    } else if s[i] == c {
        Some(i)
    } else {
        index_of_char(s, c, i + 1)
    }
}

/// Index of the first `c` in `cs` at or after `from`.
pub(crate) fn find_char(cs: &Vec<char>, c: char, from: usize) -> (r: Option<usize>)
    ensures
        r matches Some(k) ==> index_of_char(cs@, c, from as int) == Some(k as int) && k < cs@.len(),
        r is None ==> index_of_char(cs@, c, from as int) is None,
{
    let mut i = from;
    while i < cs.len()
        invariant
            from <= i,
            index_of_char(cs@, c, from as int) == index_of_char(cs@, c, i as int),
        decreases cs@.len() - i,
    {
        if cs[i] == c {
            return Some(i);
        }
        i += 1;
    }
    None
}

} // verus!
