//! HPACK encoding: prefixed integers, and how fields may be compressed.

use vstd::prelude::*;

use super::error::Http2Error;
use super::hpack::{
    evict_spec, decode_int_spec, entries_size, entry_size, insert_spec, int_cont, p2, pow128, set_max_spec,
    static_entry, static_field, table_wf, DynamicTable, FieldView, TableView, MAX_FIELDS_PER_BLOCK,
};
use crate::text::copy_bytes;
use super::huffman::{encode_into as huffman_encode_into, encoded_len, huffman_encode_spec, huffman_len_spec};

verus! {

/// How a field may be compressed.
#[derive(Debug, Clone, Copy, PartialEq, Eq, Structural, Hash, Default)]
pub enum HeaderSensitivity {
    /// May enter the dynamic table and be referenced by index later.
    #[default]
    Indexable,
    /// Compressed, but never added to the table.
    NotIndexed,
    /// Never indexed, here or by any intermediary.
    Sensitive,
}

/// When to Huffman-code a string literal.
#[derive(Debug, Clone, Copy, PartialEq, Eq, Structural, Hash, Default)]
pub enum HuffmanPolicy {
    /// Whichever of Huffman and raw is shorter.
    #[default]
    WhenSmaller,
    /// Never Huffman-code.
    Never,
}

/// Names whose values carry credentials.
pub open spec fn credential_name(name: Seq<u8>) -> bool {
    name == seq![97u8, 117, 116, 104, 111, 114, 105, 122, 97, 116, 105, 111, 110]
        || name == seq![
        112u8, 114, 111, 120, 121, 45, 97, 117, 116, 104, 111, 114, 105, 122, 97, 116, 105, 111, 110,
    ] || name == seq![99u8, 111, 111, 107, 105, 101] || name == seq![
        115u8, 101, 116, 45, 99, 111, 111, 107, 105, 101,
    ]
}

/// Names whose values are effectively unique per message.
pub open spec fn unique_name(name: Seq<u8>) -> bool {
    name == seq![58u8, 112, 97, 116, 104] || name == seq![100u8, 97, 116, 101] || name == seq![
        101u8, 116, 97, 103,
    ] || name == seq![105u8, 102, 45, 110, 111, 110, 101, 45, 109, 97, 116, 99, 104] || name
        == seq![108u8, 97, 115, 116, 45, 109, 111, 100, 105, 102, 105, 101, 100] || name == seq![
        99u8, 111, 110, 116, 101, 110, 116, 45, 108, 101, 110, 103, 116, 104,
    ] || name == seq![120u8, 45, 114, 101, 113, 117, 101, 115, 116, 45, 105, 100] || name == seq![
        116u8, 114, 97, 99, 101, 112, 97, 114, 101, 110, 116,
    ]
}

/// The default classification of a field by its name.
pub open spec fn default_sensitivity_spec(name: Seq<u8>) -> HeaderSensitivity {
    if credential_name(name) {
        HeaderSensitivity::Sensitive
    } else if unique_name(name) {
        HeaderSensitivity::NotIndexed
    } else {
        HeaderSensitivity::Indexable
    }
}

fn bytes_eq(a: &[u8], b: &[u8]) -> (r: bool)
    ensures
        r == (a@ == b@),
{
    if a.len() != b.len() {
        return false;
    }
    let mut i: usize = 0;
    while i < a.len()
        invariant
            i <= a@.len(),
            a@.len() == b@.len(),
            forall|j: int| 0 <= j < i ==> a@[j] == b@[j],
        decreases a@.len() - i,
    {
        if a[i] != b[i] {
            return false;
        }
        i += 1;
    }
    assert(a@ =~= b@);
    true
}

/// The default classifier: credential-bearing fields (`authorization`,
/// `proxy-authorization`, `cookie`, `set-cookie`) are never indexed;
/// per-message-unique ones (`:path`, `date`, `etag`, `if-none-match`,
/// `last-modified`, `content-length`, `x-request-id`, `traceparent`)
/// are not indexed; everything else is indexable. Names are compared
/// exactly.
pub fn default_sensitivity(name: &[u8], _value: &[u8]) -> (s: HeaderSensitivity)
    ensures
        s == default_sensitivity_spec(name@),
{
    let authorization: [u8; 13] = [97u8, 117, 116, 104, 111, 114, 105, 122, 97, 116, 105, 111, 110];
    let proxy_authorization: [u8; 19] = [
        112u8, 114, 111, 120, 121, 45, 97, 117, 116, 104, 111, 114, 105, 122, 97, 116, 105, 111, 110,
    ];
    let cookie: [u8; 6] = [99u8, 111, 111, 107, 105, 101];
    let set_cookie: [u8; 10] = [115u8, 101, 116, 45, 99, 111, 111, 107, 105, 101];
    if bytes_eq(name, &authorization) || bytes_eq(name, &proxy_authorization) || bytes_eq(
        name,
        &cookie,
    ) || bytes_eq(name, &set_cookie) {
        return HeaderSensitivity::Sensitive;
    }
    let path: [u8; 5] = [58u8, 112, 97, 116, 104];
    let date: [u8; 4] = [100u8, 97, 116, 101];
    let etag: [u8; 4] = [101u8, 116, 97, 103];
    let if_none_match: [u8; 13] = [105u8, 102, 45, 110, 111, 110, 101, 45, 109, 97, 116, 99, 104];
    let last_modified: [u8; 13] = [108u8, 97, 115, 116, 45, 109, 111, 100, 105, 102, 105, 101, 100];
    let content_length: [u8; 14] = [
        99u8, 111, 110, 116, 101, 110, 116, 45, 108, 101, 110, 103, 116, 104,
    ];
    let x_request_id: [u8; 12] = [120u8, 45, 114, 101, 113, 117, 101, 115, 116, 45, 105, 100];
    let traceparent: [u8; 11] = [116u8, 114, 97, 99, 101, 112, 97, 114, 101, 110, 116];
    if bytes_eq(name, &path) || bytes_eq(name, &date) || bytes_eq(name, &etag) || bytes_eq(
        name,
        &if_none_match,
    ) || bytes_eq(name, &last_modified) || bytes_eq(name, &content_length) || bytes_eq(
        name,
        &x_request_id,
    ) || bytes_eq(name, &traceparent) {
        return HeaderSensitivity::NotIndexed;
    }
    HeaderSensitivity::Indexable
}

/// The 7-bit groups of `r`, least significant first, with the
/// continuation bit set on all but the last.
pub open spec fn int_groups(r: nat) -> Seq<u8>
    decreases r,
{
    if r < 128 {
        seq![r as u8]
    } else {
        seq![((r % 128) + 128) as u8] + int_groups(r / 128)
    }
}

/// An HPACK integer with a `prefix`-bit prefix and `flags` in the
/// prefix byte's unused high bits: the value itself when it fits below
/// the all-ones prefix, else the all-ones prefix and the 7-bit groups
/// of what is left.
pub open spec fn encode_int_spec(value: nat, prefix: u8, flags: u8) -> Seq<u8> {
    let mask = p2(prefix as nat) - 1;
    if value < mask {
        seq![(flags + value) as u8]
    } else {
        seq![(flags + mask) as u8] + int_groups((value - mask) as nat)
    }
}

pub(crate) proof fn lemma_p2_8(p: u8)
    requires
        1 <= p <= 8,
    ensures
        2 <= p2(p as nat) <= 256,
        p2(p as nat) * p2((8 - p) as nat) == 256,
{
    reveal_with_fuel(p2, 9);
    assert(p2(1) == 2 && p2(2) == 4 && p2(3) == 8 && p2(4) == 16 && p2(5) == 32 && p2(6) == 64
        && p2(7) == 128 && p2(8) == 256 && p2(0) == 1);
    if p == 1 {
        assert(p2(1) * p2(7) == 256);
    } else if p == 2 {
        assert(p2(2) * p2(6) == 256);
    } else if p == 3 {
        assert(p2(3) * p2(5) == 256);
    } else if p == 4 {
        assert(p2(4) * p2(4) == 256);
    } else if p == 5 {
        assert(p2(5) * p2(3) == 256);
    } else if p == 6 {
        assert(p2(6) * p2(2) == 256);
    } else if p == 7 {
        assert(p2(7) * p2(1) == 256);
    } else {
        assert(p2(8) * p2(0) == 256);
    }
}

/// Flags that leave the prefix bits clear leave room for the prefix.
pub(crate) proof fn lemma_flags_room(prefix: u8, flags: u8)
    requires
        1 <= prefix <= 8,
        flags as nat % p2(prefix as nat) == 0,
    ensures
        flags as nat + p2(prefix as nat) <= 256,
{
    lemma_p2_8(prefix);
    let m = p2(prefix as nat);
    let q = flags as nat / m;
    assert(flags as nat == q * m) by (nonlinear_arith)
        requires
            flags as nat % m == 0,
            m > 0,
            q == flags as nat / m,
    ;
    let h = p2((8 - prefix) as nat);
    assert(q < h) by (nonlinear_arith)
        requires
            flags as nat == q * m,
            flags < 256,
            m * h == 256,
            m > 0,
    ;
    assert(flags as nat + m <= 256) by (nonlinear_arith)
        requires
            flags as nat == q * m,
            q + 1 <= h,
            m * h == 256,
            m > 0,
    ;
}

/// Write an HPACK integer with a `prefix_bits`-bit prefix, `flags` in
/// the prefix byte's unused high bits.
pub fn encode_int(out: &mut Vec<u8>, value: u64, prefix_bits: u8, flags: u8)
    requires
        1 <= prefix_bits <= 8,
        flags as nat % p2(prefix_bits as nat) == 0,
    ensures
        final(out)@ == old(out)@ + encode_int_spec(value as nat, prefix_bits, flags),
{
    proof {
        lemma_p2_8(prefix_bits);
        lemma_flags_room(prefix_bits, flags);
    }
    let mut pow: u16 = 1;
    let mut i: u8 = 0;
    while i < prefix_bits
        invariant
            i <= prefix_bits <= 8,
            pow as nat == p2(i as nat),
            pow <= 256,
            p2(prefix_bits as nat) <= 256,
            pow as nat * p2((prefix_bits - i) as nat) == p2(prefix_bits as nat),
        decreases prefix_bits - i,
    {
        proof {
            assert(p2((prefix_bits - i) as nat) == 2 * p2((prefix_bits - i - 1) as nat));
            lemma_p2_pos((prefix_bits - i - 1) as nat);
            assert(2 * pow <= 256) by (nonlinear_arith)
                requires
                    pow as nat * p2((prefix_bits - i) as nat) == p2(prefix_bits as nat),
                    p2((prefix_bits - i) as nat) == 2 * p2((prefix_bits - i - 1) as nat),
                    p2((prefix_bits - i - 1) as nat) >= 1,
                    p2(prefix_bits as nat) <= 256,
            ;
            assert((2 * pow) as nat * p2((prefix_bits - i - 1) as nat) == p2(prefix_bits as nat))
                by (nonlinear_arith)
                requires
                    pow as nat * p2((prefix_bits - i) as nat) == p2(prefix_bits as nat),
                    p2((prefix_bits - i) as nat) == 2 * p2((prefix_bits - i - 1) as nat),
            ;
        }
        pow = pow * 2;
        i += 1;
    }
    let mask: u64 = (pow - 1) as u64;
    assert(pow as nat == p2(prefix_bits as nat));
    if value < mask {
        out.push(flags + value as u8);
        assert(out@ =~= old(out)@ + encode_int_spec(value as nat, prefix_bits, flags));
        return;
    }
    out.push(flags + mask as u8);
    let ghost base = out@;
    assert(base == old(out)@ + seq![(flags + mask) as u8]);
    let mut rest: u64 = value - mask;
    while rest >= 128
        invariant
            out@ + int_groups(rest as nat) == base + int_groups((value - mask) as nat),
            base == old(out)@ + seq![(flags + mask) as u8],
            mask as nat == p2(prefix_bits as nat) - 1,
            value >= mask,
        decreases rest,
    {
        let ghost before = out@;
        out.push((rest % 128) as u8 + 128);
        proof {
            assert(int_groups(rest as nat) == seq![((rest % 128) + 128) as u8] + int_groups(
                (rest / 128) as nat,
            ));
            assert(out@ + int_groups((rest / 128) as nat) =~= before + int_groups(rest as nat));
        }
        rest = rest / 128;
    }
    let ghost before = out@;
    out.push(rest as u8);
    proof {
        assert(int_groups(rest as nat) == seq![rest as u8]);
        assert(out@ =~= before + int_groups(rest as nat));
        assert(encode_int_spec(value as nat, prefix_bits, flags) == seq![(flags + mask) as u8]
            + int_groups((value - mask) as nat));
    }
    assert(out@ =~= old(out)@ + encode_int_spec(value as nat, prefix_bits, flags));
}

proof fn lemma_p2_pos(n: nat)
    ensures
        p2(n) >= 1,
    decreases n,
{
    if n > 0 {
        lemma_p2_pos((n - 1) as nat);
    }
}

proof fn lemma_int_groups_len(r: nat)
    ensures
        int_groups(r).len() >= 1,
    decreases r,
{
    if r >= 128 {
        lemma_int_groups_len(r / 128);
    }
}

/// The continuation groups of `r`, found at `i`, decode to
/// `acc + r * 128^k` when they fit below the 63-bit shift limit.
proof fn lemma_cont_groups(buf: Seq<u8>, i: int, acc: nat, k: nat, r: nat)
    requires
        0 <= i,
        i + int_groups(r).len() <= buf.len(),
        buf.subrange(i, i + int_groups(r).len()) == int_groups(r),
        k <= 8,
        r < pow128((9 - k) as nat),
        acc + r * pow128(k) <= u64::MAX,
    ensures
        int_cont(buf, i, acc, k) == Ok::<(u64, int), super::error::Http2Error>(
            ((acc + r * pow128(k)) as u64, i + int_groups(r).len()),
        ),
    decreases r,
{
    lemma_int_groups_len(r);
    assert(buf[i] == int_groups(r)[0]) by {
        assert(buf.subrange(i, i + int_groups(r).len())[0] == buf[i]);
    }
    if r < 128 {
        assert(buf[i] % 128 == r);
    } else {
        let g = int_groups(r / 128);
        lemma_int_groups_len(r / 128);
        assert(int_groups(r) == seq![((r % 128) + 128) as u8] + g);
        assert(buf[i] == ((r % 128) + 128) as u8);
        assert(buf[i] % 128 == r % 128);
        assert(buf.subrange(i + 1, i + 1 + g.len()) =~= g) by {
            assert forall|j: int| 0 <= j < g.len() implies buf.subrange(i + 1, i + 1 + g.len())[j]
                == g[j] by {
                assert(buf.subrange(i, i + int_groups(r).len())[j + 1] == int_groups(r)[j + 1]);
            }
        }
        if k >= 8 {
            assert(pow128((9 - k) as nat) == 128) by {
                reveal_with_fuel(pow128, 2);
            }
            assert(false);
        }
        assert(pow128((9 - k) as nat) == 128 * pow128((8 - k) as nat));
        assert(r / 128 < pow128((8 - k) as nat)) by (nonlinear_arith)
            requires
                r < pow128((9 - k) as nat),
                pow128((9 - k) as nat) == 128 * pow128((8 - k) as nat),
        ;
        assert(pow128((k + 1) as nat) == 128 * pow128(k));
        let nacc = acc + (r % 128) * pow128(k);
        assert(nacc + (r / 128) * pow128((k + 1) as nat) == acc + r * pow128(k)) by (nonlinear_arith)
            requires
                nacc == acc + (r % 128) * pow128(k),
                pow128((k + 1) as nat) == 128 * pow128(k),
                r == 128 * (r / 128) + r % 128,
        ;
        assert(nacc <= acc + r * pow128(k)) by (nonlinear_arith)
            requires
                nacc + (r / 128) * pow128((k + 1) as nat) == acc + r * pow128(k),
                r / 128 >= 0,
        ;
        lemma_cont_groups(buf, i + 1, nacc, (k + 1) as nat, r / 128);
    }
}

/// Decoding what [`encode_int`] wrote gives back the value and stops
/// right after it, for every value up to `2^63 - 1`, every prefix width
/// from 1 to 8 bits and every choice of flags outside the prefix.
pub proof fn lemma_int_round_trip(value: u64, prefix: u8, flags: u8, rest: Seq<u8>)
    requires
        1 <= prefix <= 8,
        flags as nat % p2(prefix as nat) == 0,
        value <= 0x7fffffffffffffff,
    ensures
        decode_int_spec(encode_int_spec(value as nat, prefix, flags) + rest, prefix) == Ok::<
            (u64, int),
            super::error::Http2Error,
        >((value, encode_int_spec(value as nat, prefix, flags).len() as int)),
{
    lemma_p2_8(prefix);
    lemma_flags_room(prefix, flags);
    let m = p2(prefix as nat);
    let mask = (m - 1) as nat;
    let enc = encode_int_spec(value as nat, prefix, flags);
    let buf = enc + rest;
    let q = flags as nat / m;
    assert(flags as nat == q * m) by (nonlinear_arith)
        requires
            flags as nat % m == 0,
            m > 0,
            q == flags as nat / m,
    ;
    if value < mask {
        assert(buf[0] == (flags + value) as u8);
        assert(((q * m + value) as nat) % m == value as nat) by (nonlinear_arith)
            requires
                value < m,
                m > 0,
        ;
    } else {
        assert(buf[0] == (flags + mask) as u8);
        assert(((q * m + mask) as nat) % m == mask) by (nonlinear_arith)
            requires
                mask < m,
                m > 0,
                mask >= 0,
        ;
        let r = (value - mask) as nat;
        let g = int_groups(r);
        lemma_int_groups_len(r);
        assert(buf.subrange(1, 1 + g.len() as int) =~= g);
        assert(pow128(9) == 0x8000000000000000) by {
            reveal_with_fuel(pow128, 10);
        }
        assert(pow128(0) == 1);
        lemma_cont_groups(buf, 1, mask, 0, r);
    }
}


/// At least `n` groups of `r` are continuation groups when `r` is at
/// least `128^n`.
proof fn lemma_groups_high(r: nat, n: nat)
    requires
        r >= pow128(n),
    ensures
        int_groups(r).len() > n,
        forall|j: int| 0 <= j < n ==> #[trigger] int_groups(r)[j] >= 128,
    decreases n,
{
    lemma_int_groups_len(r);
    if n > 0 {
        assert(pow128(n) == 128 * pow128((n - 1) as nat));
        lemma_pow128_pos((n - 1) as nat);
        assert(r >= 128) by (nonlinear_arith)
            requires
                r >= 128 * pow128((n - 1) as nat),
                pow128((n - 1) as nat) >= 1,
        {
        }
        assert(r / 128 >= pow128((n - 1) as nat)) by (nonlinear_arith)
            requires
                r >= 128 * pow128((n - 1) as nat),
        ;
        lemma_groups_high(r / 128, (n - 1) as nat);
        let g = int_groups(r);
        let t = int_groups(r / 128);
        assert(g == seq![((r % 128) + 128) as u8] + t);
        assert forall|j: int| 0 <= j < n implies #[trigger] g[j] >= 128 by {
            if j > 0 {
                assert(g[j] == t[j - 1]);
            }
        }
    }
}

proof fn lemma_pow128_pos(n: nat)
    ensures
        pow128(n) >= 1,
    decreases n,
{
    if n > 0 {
        lemma_pow128_pos((n - 1) as nat);
    }
}

/// Continuation groups that run on to the 63-bit shift limit are an
/// overflow, whatever has been accumulated.
proof fn lemma_cont_overflows(buf: Seq<u8>, i: int, v: nat, k: nat)
    requires
        0 <= i,
        k <= 9,
        i + (9 - k) < buf.len(),
        forall|j: int| 0 <= j < 9 - k ==> #[trigger] buf[i + j] >= 128,
    ensures
        int_cont(buf, i, v, k) == Err::<(u64, int), super::error::Http2Error>(
            super::error::Http2Error::HpackIntegerOverflow,
        ),
    decreases 9 - k,
{
    if k < 9 {
        assert(buf[i + 0] >= 128);
        let nv = v + (buf[i] % 128) as nat * pow128(k);
        if nv <= u64::MAX {
            assert forall|j: int| 0 <= j < 9 - (k + 1) implies #[trigger] buf[(i + 1) + j] >= 128 by {
                assert(buf[i + (j + 1)] >= 128);
                assert(i + (j + 1) == (i + 1) + j);
            }
            lemma_cont_overflows(buf, i + 1, nv, k + 1);
        }
    }
}

/// The decoder refuses, as an overflow, the encoding of any value at
/// least `2^63` past the all-ones prefix (such as `u64::MAX`, for every
/// prefix width), whatever follows it; and an empty input is truncated.
pub proof fn lemma_int_overflow(value: nat, prefix: u8, flags: u8, rest: Seq<u8>)
    requires
        1 <= prefix <= 8,
        flags as nat % p2(prefix as nat) == 0,
        value >= p2(prefix as nat) - 1 + 0x8000000000000000,
    ensures
        decode_int_spec(encode_int_spec(value, prefix, flags) + rest, prefix) == Err::<
            (u64, int),
            super::error::Http2Error,
        >(super::error::Http2Error::HpackIntegerOverflow),
        decode_int_spec(Seq::empty(), prefix) == Err::<(u64, int), super::error::Http2Error>(
            super::error::Http2Error::HpackTruncated,
        ),
{
    lemma_p2_8(prefix);
    lemma_flags_room(prefix, flags);
    let m = p2(prefix as nat);
    let mask = (m - 1) as nat;
    let enc = encode_int_spec(value, prefix, flags);
    let buf = enc + rest;
    let q = flags as nat / m;
    assert(flags as nat == q * m) by (nonlinear_arith)
        requires
            flags as nat % m == 0,
            m > 0,
            q == flags as nat / m,
    ;
    assert(buf[0] == (flags + mask) as u8);
    assert(((q * m + mask) as nat) % m == mask) by (nonlinear_arith)
        requires
            mask < m,
            m > 0,
            mask >= 0,
    ;
    let r = (value - mask) as nat;
    assert(pow128(9) == 0x8000000000000000) by {
        reveal_with_fuel(pow128, 10);
    }
    lemma_groups_high(r, 9);
    let g = int_groups(r);
    assert(enc == seq![(flags + mask) as u8] + g);
    assert forall|j: int| 0 <= j < 9 - 0 implies #[trigger] buf[1 + j] >= 128 by {
        assert(buf[1 + j] == g[j]);
    }
    lemma_cont_overflows(buf, 1, mask, 0);
}

/// The pseudo-headers HTTP/2 defines: `:method`, `:scheme`,
/// `:authority`, `:path`, `:status`, `:protocol`.
pub open spec fn pseudo_name(name: Seq<u8>) -> bool {
    ||| name == seq![58u8, 109, 101, 116, 104, 111, 100]
    ||| name == seq![58u8, 115, 99, 104, 101, 109, 101]
    ||| name == seq![58u8, 97, 117, 116, 104, 111, 114, 105, 116, 121]
    ||| name == seq![58u8, 112, 97, 116, 104]
    ||| name == seq![58u8, 115, 116, 97, 116, 117, 115]
    ||| name == seq![58u8, 112, 114, 111, 116, 111, 99, 111, 108]
}

/// The connection-specific fields HTTP/2 forbids: `connection`,
/// `keep-alive`, `proxy-connection`, `transfer-encoding`, `upgrade`.
pub open spec fn forbidden_name(name: Seq<u8>) -> bool {
    ||| name == seq![99u8, 111, 110, 110, 101, 99, 116, 105, 111, 110]
    ||| name == seq![107u8, 101, 101, 112, 45, 97, 108, 105, 118, 101]
    ||| name == seq![112u8, 114, 111, 120, 121, 45, 99, 111, 110, 110, 101, 99, 116, 105, 111, 110]
    ||| name == seq![116u8, 114, 97, 110, 115, 102, 101, 114, 45, 101, 110, 99, 111, 100, 105, 110, 103]
    ||| name == seq![117u8, 112, 103, 114, 97, 100, 101]
}

/// `te`, allowed only as `te: trailers`.
pub open spec fn te_name() -> Seq<u8> {
    seq![116u8, 101]
}

/// `trailers`.
pub open spec fn trailers_value() -> Seq<u8> {
    seq![116u8, 114, 97, 105, 108, 101, 114, 115]
}

/// A byte of a lowercase field-name token: a lowercase letter, a digit,
/// or one of ``!#$%&'*+-.^_`|~``.
pub open spec fn token_byte(b: u8) -> bool {
    ||| 97 <= b <= 122
    ||| 48 <= b <= 57
    ||| b == 33 || b == 35 || b == 36 || b == 37 || b == 38 || b == 39 || b == 42
    ||| b == 43 || b == 45 || b == 46 || b == 94 || b == 95 || b == 96 || b == 124 || b == 126
}

/// A name made of token bytes, a colon allowed only first.
pub open spec fn name_bytes_ok(name: Seq<u8>) -> bool {
    forall|i: int| 0 <= i < name.len() ==> token_byte(#[trigger] name[i]) || (i == 0 && name[i] == 58)
}

/// A value with no NUL, CR or LF, and no space or tab first or last.
pub open spec fn value_bytes_ok(value: Seq<u8>) -> bool {
    &&& forall|i: int| 0 <= i < value.len() ==> #[trigger] value[i] != 0 && value[i] != 13 && value[i] != 10
    &&& value.len() > 0 ==> value[0] != 32 && value[0] != 9 && value.last() != 32 && value.last() != 9
}

/// A field that may legally be sent, given whether a regular field came
/// before it: a non-empty name; a pseudo-header only one HTTP/2 defines
/// and only before every regular field; no connection-specific field;
/// `te` only as `trailers`; lowercase token names; clean values.
pub open spec fn field_valid(name: Seq<u8>, value: Seq<u8>, seen_regular: bool) -> bool {
    &&& name.len() > 0
    &&& if name[0] == 58 {
        pseudo_name(name) && !seen_regular
    } else {
        !forbidden_name(name) && !(name == te_name() && value != trailers_value())
    }
    &&& name_bytes_ok(name)
    &&& value_bytes_ok(value)
}

/// A regular (not pseudo) field name.
pub open spec fn regular_name(name: Seq<u8>) -> bool {
    name.len() > 0 && name[0] != 58
}

/// Whether any of the fields is regular.
pub open spec fn any_regular(fs: Seq<FieldView>) -> bool {
    exists|i: int| 0 <= i < fs.len() && regular_name(#[trigger] fs[i].0)
}

/// Every field valid where it stands.
pub open spec fn fields_valid(fs: Seq<FieldView>) -> bool {
    forall|i: int| 0 <= i < fs.len() ==> field_valid(#[trigger] fs[i].0, fs[i].1, any_regular(fs.take(i)))
}

fn is_token_byte(b: u8) -> (r: bool)
    ensures
        r == token_byte(b),
{
    (97 <= b && b <= 122) || (48 <= b && b <= 57) || b == 33 || b == 35 || b == 36 || b == 37
        || b == 38 || b == 39 || b == 42 || b == 43 || b == 45 || b == 46 || b == 94 || b == 95
        || b == 96 || b == 124 || b == 126
}

fn is_pseudo_name(name: &[u8]) -> (r: bool)
    ensures
        r == pseudo_name(name@),
{
    let method: [u8; 7] = [58u8, 109, 101, 116, 104, 111, 100];
    let scheme: [u8; 7] = [58u8, 115, 99, 104, 101, 109, 101];
    let authority: [u8; 10] = [58u8, 97, 117, 116, 104, 111, 114, 105, 116, 121];
    let path: [u8; 5] = [58u8, 112, 97, 116, 104];
    let status: [u8; 7] = [58u8, 115, 116, 97, 116, 117, 115];
    let protocol: [u8; 9] = [58u8, 112, 114, 111, 116, 111, 99, 111, 108];
    bytes_eq(name, &method) || bytes_eq(name, &scheme) || bytes_eq(name, &authority) || bytes_eq(
        name,
        &path,
    ) || bytes_eq(name, &status) || bytes_eq(name, &protocol)
}

fn is_forbidden_name(name: &[u8]) -> (r: bool)
    ensures
        r == forbidden_name(name@),
{
    let connection: [u8; 10] = [99u8, 111, 110, 110, 101, 99, 116, 105, 111, 110];
    let keep_alive: [u8; 10] = [107u8, 101, 101, 112, 45, 97, 108, 105, 118, 101];
    let proxy_connection: [u8; 16] = [
        112u8, 114, 111, 120, 121, 45, 99, 111, 110, 110, 101, 99, 116, 105, 111, 110,
    ];
    let transfer_encoding: [u8; 17] = [
        116u8, 114, 97, 110, 115, 102, 101, 114, 45, 101, 110, 99, 111, 100, 105, 110, 103,
    ];
    let upgrade: [u8; 7] = [117u8, 112, 103, 114, 97, 100, 101];
    bytes_eq(name, &connection) || bytes_eq(name, &keep_alive) || bytes_eq(name, &proxy_connection)
        || bytes_eq(name, &transfer_encoding) || bytes_eq(name, &upgrade)
}

fn name_ok(name: &[u8]) -> (r: bool)
    ensures
        r == name_bytes_ok(name@),
{
    let mut i: usize = 0;
    while i < name.len()
        invariant
            i <= name@.len(),
            forall|j: int| 0 <= j < i ==> token_byte(#[trigger] name@[j]) || (j == 0 && name@[j] == 58),
        decreases name@.len() - i,
    {
        let b = name[i];
        if !(is_token_byte(b) || (i == 0 && b == 58)) {
            return false;
        }
        i += 1;
    }
    true
}

fn value_ok(value: &[u8]) -> (r: bool)
    ensures
        r == value_bytes_ok(value@),
{
    let mut i: usize = 0;
    while i < value.len()
        invariant
            i <= value@.len(),
            forall|j: int| 0 <= j < i ==> #[trigger] value@[j] != 0 && value@[j] != 13 && value@[j] != 10,
        decreases value@.len() - i,
    {
        let b = value[i];
        if b == 0 || b == 13 || b == 10 {
            return false;
        }
        i += 1;
    }
    if value.len() > 0 {
        let first = value[0];
        let last = value[value.len() - 1];
        if first == 32 || first == 9 || last == 32 || last == 9 {
            return false;
        }
    }
    true
}

/// Refuse a field that could not legally be sent; a regular field
/// marks that pseudo-headers may no longer follow.
pub fn validate_field(name: &[u8], value: &[u8], seen_regular: &mut bool) -> (r: Result<(), Http2Error>)
    ensures
        r is Ok <==> field_valid(name@, value@, *old(seen_regular)),
        r is Err ==> r == Err::<(), Http2Error>(Http2Error::InvalidHeaderField),
        *final(seen_regular) == (*old(seen_regular) || regular_name(name@)),
{
    if name.len() == 0 {
        return Err(Http2Error::InvalidHeaderField);
    }
    if name[0] == 58 {
        if !is_pseudo_name(name) || *seen_regular {
            return Err(Http2Error::InvalidHeaderField);
        }
    } else {
        *seen_regular = true;
        if is_forbidden_name(name) {
            return Err(Http2Error::InvalidHeaderField);
        }
        let te: [u8; 2] = [116u8, 101];
        let trailers: [u8; 8] = [116u8, 114, 97, 105, 108, 101, 114, 115];
        if bytes_eq(name, &te) && !bytes_eq(value, &trailers) {
            return Err(Http2Error::InvalidHeaderField);
        }
    }
    if !name_ok(name) || !value_ok(value) {
        return Err(Http2Error::InvalidHeaderField);
    }
    Ok(())
}


/// Where a field sits in the index space.
#[derive(Debug, Clone, Copy, PartialEq, Eq, Structural)]
pub enum FieldMatch {
    /// Name and value both matched at this index.
    Full(u64),
    /// Only the name matched.
    Name(u64),
    /// Neither matched anywhere.
    Absent,
}

/// Index `i` of the combined index space: the static table (1 to 61),
/// then the dynamic table, newest first.
pub open spec fn index_entry(t: TableView, i: int) -> FieldView {
    if i <= 61 {
        static_entry(i as u64)
    } else {
        t.entries[i - 62]
    }
}

/// The entry's name is `name`, and, when `full`, its value is `value`.
pub open spec fn entry_matches(e: FieldView, name: Seq<u8>, value: Seq<u8>, full: bool) -> bool {
    e.0 == name && (!full || e.1 == value)
}

/// The first index from `i` on whose entry matches.
#[verifier::opaque]
pub open spec fn first_match(t: TableView, name: Seq<u8>, value: Seq<u8>, full: bool, i: int) -> Option<int>
    decreases 62 + t.entries.len() - i,
{
    if i < 1 || i >= 62 + t.entries.len() {
        None
    } else if entry_matches(index_entry(t, i), name, value, full) {
        Some(i)
    } else {
        first_match(t, name, value, full, i + 1)
    }
}

/// The first index holding the whole field, else the first holding its
/// name: so the static table wins over the dynamic one.
pub open spec fn find_spec(t: TableView, name: Seq<u8>, value: Seq<u8>) -> FieldMatch {
    match first_match(t, name, value, true, 1) {
        Some(i) => FieldMatch::Full(i as u64),
        None => match first_match(t, name, value, false, 1) {
            Some(i) => FieldMatch::Name(i as u64),
            None => FieldMatch::Absent,
        },
    }
}

pub(crate) proof fn lemma_entries_size_lower(es: Seq<FieldView>)
    ensures
        entries_size(es) >= 32 * es.len(),
    decreases es.len(),
{
    if es.len() > 0 {
        lemma_entries_size_lower(es.drop_last());
    }
}

/// Look a field up, static table first.
fn find(table: &DynamicTable, name: &[u8], value: &[u8]) -> (m: FieldMatch)
    requires
        table.wf(),
    ensures
        m == find_spec(table@, name@, value@),
{
    let ghost t = table@;
    proof {
        reveal(first_match);
        lemma_entries_size_lower(t.entries);
    }
    let n = table.len();
    let mut name_only: Option<u64> = None;
    let mut i: u64 = 1;
    while i < 62 + n as u64
        invariant
            1 <= i <= 62 + t.entries.len(),
            n == t.entries.len(),
            32 * t.entries.len() <= usize::MAX,
            table@ == t,
            first_match(t, name@, value@, true, 1) == first_match(t, name@, value@, true, i as int),
            name_only matches Some(k) ==> first_match(t, name@, value@, false, 1) == Some(k as int),
            name_only is None ==> first_match(t, name@, value@, false, 1) == first_match(
                t,
                name@,
                value@,
                false,
                i as int,
            ),
        decreases 62 + t.entries.len() - i,
    {
        proof {
            reveal(first_match);
        }
        let e = if i <= 61 {
            static_field(i)
        } else {
            table.get((i - 62) as usize).unwrap()
        };
        proof {
            crate::text::lemma_bytes_deep_view(e.0);
            crate::text::lemma_bytes_deep_view(e.1);
            assert((e.0@, e.1@) == index_entry(t, i as int));
        }
        if bytes_eq(name, e.0.as_slice()) {
            if bytes_eq(value, e.1.as_slice()) {
                return FieldMatch::Full(i);
            }
            if name_only.is_none() {
                name_only = Some(i);
            }
        }
        i += 1;
    }
    match name_only {
        Some(k) => FieldMatch::Name(k),
        None => FieldMatch::Absent,
    }
}

/// A string literal: Huffman-coded when the policy allows and that is
/// strictly shorter, else raw; a 7-bit-prefix length first.
pub open spec fn string_repr(s: Seq<u8>, huff: HuffmanPolicy) -> Seq<u8> {
    if huff == HuffmanPolicy::WhenSmaller && huffman_len_spec(s) < s.len() {
        encode_int_spec(huffman_len_spec(s), 7, 0x80) + huffman_encode_spec(s)
    } else {
        encode_int_spec(s.len(), 7, 0) + s
    }
}

/// Write a string literal.
fn encode_string(out: &mut Vec<u8>, s: &[u8], policy: HuffmanPolicy)
    ensures
        final(out)@ == old(out)@ + string_repr(s@, policy),
{
    assert(p2(7) == 128) by {
        reveal_with_fuel(p2, 8);
    }
    if policy == HuffmanPolicy::WhenSmaller {
        let n = encoded_len(s);
        if n < s.len() as u128 {
            encode_int(out, n as u64, 7, 0x80);
            let ghost mid = out@;
            huffman_encode_into(out, s);
            assert(out@ =~= old(out)@ + string_repr(s@, policy));
            return;
        }
    }
    encode_int(out, s.len() as u64, 7, 0x00);
    let ghost mid = out@;
    out.extend_from_slice(s);
    assert(out@ =~= old(out)@ + string_repr(s@, policy));
}



/// Eviction moves neither the limit nor the ceiling.
pub(crate) proof fn lemma_evict_limits(t: TableView)
    ensures
        evict_spec(t).max_size == t.max_size,
        evict_spec(t).hard_max_size == t.hard_max_size,
    decreases t.entries.len(),
{
    if t.size > t.max_size && t.entries.len() > 0 {
        lemma_evict_limits(
            TableView {
                entries: t.entries.drop_last(),
                size: t.size - entry_size(t.entries.last()),
                ..t
            },
        );
    }
}

/// Setting a limit and inserting leave the limits as the specs say.
proof fn lemma_table_limits(t: TableView, n: int, f: FieldView)
    ensures
        set_max_spec(t, n).max_size == (if n < t.hard_max_size { n } else { t.hard_max_size }),
        set_max_spec(t, n).hard_max_size == t.hard_max_size,
        insert_spec(t, f).max_size == t.max_size,
        insert_spec(t, f).hard_max_size == t.hard_max_size,
{
    lemma_evict_limits(TableView { max_size: if n < t.hard_max_size { n } else { t.hard_max_size }, ..t });
    lemma_evict_limits(TableView { entries: seq![f] + t.entries, size: t.size + entry_size(f), ..t });
}

/// Decides, field by field, how a field may be compressed.
pub trait SensitivityPolicy {
    /// The decision for a field.
    spec fn classify_spec(&self, name: Seq<u8>, value: Seq<u8>) -> HeaderSensitivity;

    /// Classify a field.
    fn classify(&self, name: &[u8], value: &[u8]) -> (s: HeaderSensitivity)
        ensures
            s == self.classify_spec(name@, value@),
    ;
}

/// The policy of [`default_sensitivity`].
#[derive(Debug, Clone, Copy, Default)]
pub struct DefaultSensitivity;

impl SensitivityPolicy for DefaultSensitivity {
    open spec fn classify_spec(&self, name: Seq<u8>, value: Seq<u8>) -> HeaderSensitivity {
        default_sensitivity_spec(name)
    }

    fn classify(&self, name: &[u8], value: &[u8]) -> (s: HeaderSensitivity) {
        default_sensitivity(name, value)
    }
}

/// The sensitivity of the first rule naming `name`, else the fallback.
pub open spec fn rule_for(names: Seq<Seq<u8>>, levels: Seq<HeaderSensitivity>, fallback: HeaderSensitivity, name: Seq<u8>, i: int) -> HeaderSensitivity
    decreases names.len() - i,
{
    if i < 0 || i >= names.len() || i >= levels.len() {
        fallback
    } else if names[i] == name {
        levels[i]
    } else {
        rule_for(names, levels, fallback, name, i + 1)
    }
}

/// A policy by field name: the first rule naming the field decides,
/// and a fallback covers every other field.
#[derive(Debug, Clone)]
pub struct NameRules {
    names: Vec<Vec<u8>>,
    levels: Vec<HeaderSensitivity>,
    fallback: HeaderSensitivity,
}

impl NameRules {
    /// The rules' names, in order.
    pub closed spec fn names(&self) -> Seq<Seq<u8>> {
        self.names.deep_view()
    }

    /// The rules' sensitivities, in order.
    pub closed spec fn levels(&self) -> Seq<HeaderSensitivity> {
        self.levels@
    }

    /// The sensitivity of fields no rule names.
    pub closed spec fn fallback(&self) -> HeaderSensitivity {
        self.fallback
    }

    /// No rules: every field gets `fallback`.
    pub fn new(fallback: HeaderSensitivity) -> (r: Self)
        ensures
            r.names() == Seq::<Seq<u8>>::empty(),
            r.levels() == Seq::<HeaderSensitivity>::empty(),
            r.fallback() == fallback,
    {
        let r = NameRules { names: Vec::new(), levels: Vec::new(), fallback };
        assert(r.names() =~= Seq::<Seq<u8>>::empty());
        r
    }

    /// Add a rule after the existing ones.
    pub fn with_rule(self, name: &[u8], level: HeaderSensitivity) -> (r: Self)
        ensures
            r.names() == self.names().push(name@),
            r.levels() == self.levels().push(level),
            r.fallback() == self.fallback(),
    {
        let mut r = self;
        let ghost before = r.names.deep_view();
        let n = copy_bytes(name);
        proof {
            crate::text::lemma_bytes_deep_view(n);
        }
        r.names.push(n);
        r.levels.push(level);
        assert(r.names.deep_view() =~= before.push(name@));
        r
    }
}

impl SensitivityPolicy for NameRules {
    open spec fn classify_spec(&self, name: Seq<u8>, value: Seq<u8>) -> HeaderSensitivity {
        rule_for(self.names(), self.levels(), self.fallback(), name, 0)
    }

    fn classify(&self, name: &[u8], value: &[u8]) -> (s: HeaderSensitivity) {
        let n = self.names.len();
        let mut i: usize = 0;
        while i < n && i < self.levels.len()
            invariant
                n == self.names@.len(),
                i <= n,
                rule_for(self.names(), self.levels(), self.fallback(), name@, 0) == rule_for(
                    self.names(),
                    self.levels(),
                    self.fallback(),
                    name@,
                    i as int,
                ),
            decreases n - i,
        {
            proof {
                crate::text::lemma_bytes_deep_view(self.names@[i as int]);
            }
            if bytes_eq(self.names[i].as_slice(), name) {
                return self.levels[i];
            }
            i += 1;
        }
        self.fallback
    }
}

/// How one field is written, and the table after it: a one-byte index
/// for a whole-field match (never a dynamic one for a sensitive field);
/// else a literal naming the matched index or spelling the name, with
/// incremental indexing when the field is indexable and at most half
/// the table, never-indexed when sensitive, without indexing otherwise.
pub open spec fn field_repr(t: TableView, f: FieldView, sens: HeaderSensitivity, huff: HuffmanPolicy) -> (
    Seq<u8>,
    TableView,
) {
    let m = find_spec(t, f.0, f.1);
    if m is Full && (m->Full_0 <= 61 || sens != HeaderSensitivity::Sensitive) {
        (encode_int_spec(m->Full_0 as nat, 7, 0x80), t)
    } else {
        let name_idx: u64 = match m {
            FieldMatch::Full(i) => i,
            FieldMatch::Name(i) => i,
            FieldMatch::Absent => 0,
        };
        let indexable = sens == HeaderSensitivity::Indexable && entry_size(f) * 2 <= t.max_size;
        let prefix: u8 = if indexable {
            6
        } else {
            4
        };
        let flags: u8 = if indexable {
            0x40
        } else if sens == HeaderSensitivity::Sensitive {
            0x10
        } else {
            0
        };
        let bytes = encode_int_spec(name_idx as nat, prefix, flags) + (if name_idx == 0 {
            string_repr(f.0, huff)
        } else {
            Seq::empty()
        }) + string_repr(f.1, huff);
        (bytes, if indexable {
            insert_spec(t, f)
        } else {
            t
        })
    }
}

/// The fields written one after another, the table moving with each.
pub open spec fn fields_repr<S: SensitivityPolicy>(p: S, t: TableView, fs: Seq<FieldView>, huff: HuffmanPolicy) -> (
    Seq<u8>,
    TableView,
)
    decreases fs.len(),
{
    if fs.len() == 0 {
        (Seq::empty(), t)
    } else {
        let prev = fields_repr(p, t, fs.drop_last(), huff);
        let f = fs.last();
        let cur = field_repr(prev.1, f, p.classify_spec(f.0, f.1), huff);
        (prev.0 + cur.0, cur.1)
    }
}

/// The encoder as plain values: the model of the peer's table, the
/// size the peer was last told, the size wanted for the next block, the
/// smallest size in force since the last signal, the Huffman policy and
/// the block size cap.
pub struct EncoderView {
    pub table: TableView,
    pub signalled: int,
    pub target: int,
    pub min_since: int,
    pub huffman: HuffmanPolicy,
    pub max_block: int,
}

/// The encoder's invariant: a sound table whose limit is the signalled
/// size, every size within the table's ceiling, and the smallest size
/// since the signal no larger than it.
pub open spec fn encoder_wf(e: EncoderView) -> bool {
    &&& table_wf(e.table)
    &&& e.table.max_size == e.signalled
    &&& 0 <= e.min_since <= e.signalled
    &&& 0 <= e.target <= e.table.hard_max_size
    &&& 0 <= e.max_block <= usize::MAX
}

/// The size updates a block starts with: the smallest size since the
/// last signal if it is below that signal, then the wanted size if it
/// differs from what was signalled; each applied to the table.
pub open spec fn size_updates(e: EncoderView) -> (Seq<u8>, EncoderView) {
    let first = e.min_since < e.signalled;
    let b1 = if first {
        encode_int_spec(e.min_since as nat, 5, 0x20)
    } else {
        Seq::empty()
    };
    let t1 = if first {
        set_max_spec(e.table, e.min_since)
    } else {
        e.table
    };
    let s1 = if first {
        e.min_since
    } else {
        e.signalled
    };
    let second = e.target != s1;
    let b2 = if second {
        encode_int_spec(e.target as nat, 5, 0x20)
    } else {
        Seq::empty()
    };
    let t2 = if second {
        set_max_spec(t1, e.target)
    } else {
        t1
    };
    let s2 = if second {
        e.target
    } else {
        s1
    };
    (b1 + b2, EncoderView { table: t2, signalled: s2, min_since: s2, ..e })
}

/// The most a field can take on the wire.
pub open spec fn field_bound(f: FieldView) -> int {
    (14 + f.0.len() + f.1.len()) as int
}

/// The most a block can take: room for two size updates, then each
/// field's bound.
pub open spec fn block_bound(fs: Seq<FieldView>) -> int
    decreases fs.len(),
{
    if fs.len() == 0 {
        8
    } else {
        block_bound(fs.drop_last()) + field_bound(fs.last())
    }
}

/// What encoding a block gives: refused with more than the decoder's
/// field cap or when its bound exceeds the block cap
/// (`HeaderListTooLong`), or with an invalid field
/// (`InvalidHeaderField`); else the size updates and the fields, and
/// the encoder after them.
pub open spec fn encode_outcome<S: SensitivityPolicy>(p: S, e: EncoderView, fs: Seq<FieldView>) -> Result<
    (Seq<u8>, EncoderView),
    Http2Error,
> {
    if fs.len() > 256 {
        Err(Http2Error::HeaderListTooLong)
    } else if !fields_valid(fs) {
        Err(Http2Error::InvalidHeaderField)
    } else if block_bound(fs) > e.max_block {
        Err(Http2Error::HeaderListTooLong)
    } else {
        let (b0, e1) = size_updates(e);
        let (b1, t2) = fields_repr(p, e1.table, fs, e.huffman);
        Ok((b0 + b1, EncoderView { table: t2, ..e1 }))
    }
}

/// HPACK encoder for one direction of one connection; its table models
/// the peer decoder's, so every block it produces must be sent, in
/// order.
#[derive(Debug, Clone)]
pub struct HpackEncoder<S: SensitivityPolicy = DefaultSensitivity> {
    table: DynamicTable,
    signalled_size: usize,
    target_size: usize,
    min_since_signal: usize,
    huffman: HuffmanPolicy,
    sensitivity: S,
    max_block_bytes: usize,
}

/// HTTP/2's default header table size.
const DEFAULT_TABLE_SIZE: usize = 4096;

/// The default cap on one encoded block.
const DEFAULT_MAX_BLOCK_BYTES: usize = 65536;

impl<S: SensitivityPolicy> View for HpackEncoder<S> {
    type V = EncoderView;

    closed spec fn view(&self) -> EncoderView {
        EncoderView {
            table: self.table@,
            signalled: self.signalled_size as int,
            target: self.target_size as int,
            min_since: self.min_since_signal as int,
            huffman: self.huffman,
            max_block: self.max_block_bytes as int,
        }
    }
}

impl HpackEncoder<DefaultSensitivity> {
    /// A new encoder at the default table size (4096 bytes), the default
    /// indexing policy, Huffman when it helps, and a 64 KiB block cap.
    pub fn new() -> (e: Self)
        ensures
            e.wf(),
            e@ == (EncoderView {
                table: TableView { entries: Seq::empty(), size: 0, max_size: 4096, hard_max_size: 4096 },
                signalled: 4096,
                target: 4096,
                min_since: 4096,
                huffman: HuffmanPolicy::WhenSmaller,
                max_block: 65536,
            }),
    {
        HpackEncoder {
            table: DynamicTable::new(DEFAULT_TABLE_SIZE, DEFAULT_TABLE_SIZE),
            signalled_size: DEFAULT_TABLE_SIZE,
            target_size: DEFAULT_TABLE_SIZE,
            min_since_signal: DEFAULT_TABLE_SIZE,
            huffman: HuffmanPolicy::WhenSmaller,
            sensitivity: DefaultSensitivity,
            max_block_bytes: DEFAULT_MAX_BLOCK_BYTES,
        }
    }
}

impl Default for HpackEncoder<DefaultSensitivity> {
    fn default() -> (e: Self)
        ensures
            e.wf(),
            e@ == (EncoderView {
                table: TableView { entries: Seq::empty(), size: 0, max_size: 4096, hard_max_size: 4096 },
                signalled: 4096,
                target: 4096,
                min_since: 4096,
                huffman: HuffmanPolicy::WhenSmaller,
                max_block: 65536,
            }),
    {
        Self::new()
    }
}

impl<S: SensitivityPolicy> HpackEncoder<S> {
    /// The encoder's invariant.
    pub open spec fn wf(&self) -> bool {
        encoder_wf(self@)
    }

    /// The indexing policy.
    pub closed spec fn policy(&self) -> S {
        self.sensitivity
    }

    /// Cap the table this encoder uses, whatever the peer allows: the
    /// table starts over empty under the cap.
    pub fn with_max_table_size(self, n: usize) -> (e: Self)
        requires
            self.wf(),
        ensures
            e.wf(),
            e.policy() == self.policy(),
            e@ == (EncoderView {
                table: TableView {
                    entries: Seq::empty(),
                    size: 0,
                    max_size: if n < self@.table.max_size { n as int } else { self@.table.max_size },
                    hard_max_size: n as int,
                },
                signalled: if n < self@.signalled { n as int } else { self@.signalled },
                target: if n < self@.target { n as int } else { self@.target },
                min_since: if n < self@.min_since { n as int } else { self@.min_since },
                ..self@
            }),
    {
        let mut e = self;
        let cur = e.table.max_size();
        e.table = DynamicTable::new(if n < cur { n } else { cur }, n);
        if n < e.target_size {
            e.target_size = n;
        }
        if n < e.signalled_size {
            e.signalled_size = n;
        }
        if n < e.min_since_signal {
            e.min_since_signal = n;
        }
        e
    }

    /// Start with the peer already holding a table of `n` bytes, as when
    /// the size was agreed out of band: the table starts over empty at
    /// that size, and no size update is owed.
    pub fn with_signalled_table_size(self, n: usize) -> (e: Self)
        ensures
            e.wf(),
            e.policy() == self.policy(),
            e@ == (EncoderView {
                table: TableView { entries: Seq::empty(), size: 0, max_size: n as int, hard_max_size: n as int },
                signalled: n as int,
                target: n as int,
                min_since: n as int,
                ..self@
            }),
    {
        let mut e = self;
        e.table = DynamicTable::new(n, n);
        e.signalled_size = n;
        e.target_size = n;
        e.min_since_signal = n;
        e
    }

    /// Choose when string literals are Huffman-coded.
    pub fn with_huffman(self, policy: HuffmanPolicy) -> (e: Self)
        ensures
            e.policy() == self.policy(),
            e@ == (EncoderView { huffman: policy, ..self@ }),
    {
        let mut e = self;
        e.huffman = policy;
        e
    }

    /// Replace the per-field indexing policy.
    pub fn with_sensitivity<T: SensitivityPolicy>(self, f: T) -> (e: HpackEncoder<T>)
        ensures
            e.policy() == f,
            e@ == self@,
    {
        HpackEncoder {
            table: self.table,
            signalled_size: self.signalled_size,
            target_size: self.target_size,
            min_since_signal: self.min_since_signal,
            huffman: self.huffman,
            sensitivity: f,
            max_block_bytes: self.max_block_bytes,
        }
    }

    /// Cap one encoded field block.
    pub fn with_max_block_bytes(self, n: usize) -> (e: Self)
        ensures
            e.policy() == self.policy(),
            e@ == (EncoderView { max_block: n as int, ..self@ }),
    {
        let mut e = self;
        e.max_block_bytes = n;
        e
    }

    /// Apply the peer's table size setting: the size wanted becomes it,
    /// capped by this encoder's own ceiling, and the smallest size since
    /// the last signal takes it into account. It is signalled at the
    /// start of the next block.
    pub fn set_peer_max_table_size(&mut self, n: usize)
        requires
            old(self).wf(),
        ensures
            final(self).wf(),
            final(self).policy() == old(self).policy(),
            final(self)@ == (EncoderView {
                target: if n < old(self)@.table.hard_max_size { n as int } else { old(self)@.table.hard_max_size },
                min_since: if n < old(self)@.table.hard_max_size && n < old(self)@.min_since {
                    n as int
                } else if old(self)@.table.hard_max_size < old(self)@.min_since {
                    old(self)@.table.hard_max_size
                } else {
                    old(self)@.min_since
                },
                ..old(self)@
            }),
    {
        let hard = self.table.hard_max_size();
        let effective = if n < hard {
            n
        } else {
            hard
        };
        if effective < self.min_since_signal {
            self.min_since_signal = effective;
        }
        self.target_size = effective;
    }

    /// Bytes accounted to the dynamic table.
    pub fn table_size(&self) -> (r: usize)
        ensures
            r == self@.table.size,
    {
        self.table.size()
    }

    /// Entries in the dynamic table.
    pub fn table_len(&self) -> (r: usize)
        ensures
            r == self@.table.entries.len(),
    {
        self.table.len()
    }

    /// The dynamic table, as the peer's decoder should hold it.
    pub fn table(&self) -> (r: &DynamicTable)
        ensures
            r@ == self@.table,
    {
        &self.table
    }

    fn emit_size_updates(&mut self, out: &mut Vec<u8>)
        requires
            old(self).wf(),
        ensures
            final(self).wf(),
            final(self).policy() == old(self).policy(),
            final(out)@ == old(out)@ + size_updates(old(self)@).0,
            final(self)@ == size_updates(old(self)@).1,
    {
        assert(p2(5) == 32) by {
            reveal_with_fuel(p2, 6);
        }
        proof {
            lemma_table_limits(self@.table, self.min_since_signal as int, (Seq::empty(), Seq::empty()));
            lemma_table_limits(
                set_max_spec(self@.table, self.min_since_signal as int),
                self.target_size as int,
                (Seq::empty(), Seq::empty()),
            );
            lemma_table_limits(self@.table, self.target_size as int, (Seq::empty(), Seq::empty()));
        }
        if self.min_since_signal < self.signalled_size {
            encode_int(out, self.min_since_signal as u64, 5, 0x20);
            self.table.set_max_size(self.min_since_signal);
            self.signalled_size = self.min_since_signal;
        }
        if self.target_size != self.signalled_size {
            encode_int(out, self.target_size as u64, 5, 0x20);
            self.table.set_max_size(self.target_size);
            self.signalled_size = self.target_size;
        }
        self.min_since_signal = self.signalled_size;
        assert(out@ =~= old(out)@ + size_updates(old(self)@).0);
    }

    fn encode_field(&mut self, name: &[u8], value: &[u8], out: &mut Vec<u8>)
        requires
            old(self).wf(),
        ensures
            final(self).wf(),
            final(self).policy() == old(self).policy(),
            final(out)@ == old(out)@ + field_repr(
                old(self)@.table,
                (name@, value@),
                old(self).policy().classify_spec(name@, value@),
                old(self)@.huffman,
            ).0,
            final(self)@ == (EncoderView {
                table: field_repr(
                    old(self)@.table,
                    (name@, value@),
                    old(self).policy().classify_spec(name@, value@),
                    old(self)@.huffman,
                ).1,
                ..old(self)@
            }),
    {
        assert(p2(7) == 128 && p2(6) == 64 && p2(4) == 16) by {
            reveal_with_fuel(p2, 8);
        }
        let sens = self.sensitivity.classify(name, value);
        let m = find(&self.table, name, value);
        if let FieldMatch::Full(i) = m {
            if i <= 61 || sens != HeaderSensitivity::Sensitive {
                encode_int(out, i, 7, 0x80);
                return;
            }
        }
        let name_idx: u64 = match m {
            FieldMatch::Full(i) => i,
            FieldMatch::Name(i) => i,
            FieldMatch::Absent => 0,
        };
        let size = name.len() as u128 + value.len() as u128 + 32;
        let indexable = sens == HeaderSensitivity::Indexable && size * 2 <= self.table.max_size() as u128;
        let prefix: u8 = if indexable {
            6
        } else {
            4
        };
        let flags: u8 = if indexable {
            0x40
        } else if sens == HeaderSensitivity::Sensitive {
            0x10
        } else {
            0
        };
        let ghost start = out@;
        encode_int(out, name_idx, prefix, flags);
        let ghost after_idx = out@;
        if name_idx == 0 {
            encode_string(out, name, self.huffman);
        }
        let ghost after_name = out@;
        encode_string(out, value, self.huffman);
        assert(out@ =~= start + field_repr(
            old(self)@.table,
            (name@, value@),
            sens,
            old(self)@.huffman,
        ).0);
        proof {
            lemma_table_limits(self@.table, 0, (name@, value@));
        }
        if indexable {
            self.table.insert(copy_bytes(name), copy_bytes(value));
        }
    }
    /// Check every field and bound the block before anything moves.
    fn check_block(&self, fields: &[(Vec<u8>, Vec<u8>)]) -> (r: Result<(), Http2Error>)
        requires
            self.wf(),
        ensures
            r is Ok <==> encode_outcome(self.policy(), self@, fields.deep_view()) is Ok,
            r matches Err(e) ==> encode_outcome(self.policy(), self@, fields.deep_view()) == Err::<
                (Seq<u8>, EncoderView),
                Http2Error,
            >(e),
    {
        let ghost fs = fields.deep_view();
        if fields.len() > MAX_FIELDS_PER_BLOCK {
            return Err(Http2Error::HeaderListTooLong);
        }
        let mut seen_regular = false;
        let mut bound: u128 = 8;
        let mut i: usize = 0;
        assert(fs.take(0) =~= Seq::<FieldView>::empty());
        while i < fields.len()
            invariant
                fs == fields.deep_view(),
                fs.len() <= 256,
                i <= fs.len(),
                fields_valid(fs.take(i as int)),
                seen_regular == any_regular(fs.take(i as int)),
                bound == block_bound(fs.take(i as int)),
                bound <= 8 + i * (14 + 2 * usize::MAX),
            decreases fs.len() - i,
        {
            let n = fields[i].0.as_slice();
            let v = fields[i].1.as_slice();
            proof {
                crate::text::lemma_bytes_deep_view(fields[i as int].0);
                crate::text::lemma_bytes_deep_view(fields[i as int].1);
                assert(fs[i as int] == (n@, v@));
            }
            let ghost pre = fs.take(i as int);
            let ghost next = fs.take(i + 1);
            let ghost seen0 = seen_regular;
            match validate_field(n, v, &mut seen_regular) {
                Err(e) => {
                    assert(!fields_valid(fs)) by {
                        assert(!field_valid(fs[i as int].0, fs[i as int].1, any_regular(fs.take(i as int))));
                    }
                    return Err(e);
                },
                Ok(()) => {},
            }
            proof {
                assert(next.drop_last() =~= pre);
                assert(next.last() == fs[i as int]);
                assert forall|k: int| 0 <= k < next.len() implies field_valid(
                    #[trigger] next[k].0,
                    next[k].1,
                    any_regular(next.take(k)),
                ) by {
                    if k < i {
                        assert(next[k] == pre[k]);
                        assert(next.take(k) =~= pre.take(k));
                    } else {
                        assert(next.take(k) =~= pre);
                    }
                }
                if regular_name(n@) {
                    assert(regular_name(next[i as int].0));
                } else if seen0 {
                    let w = choose|j: int| 0 <= j < pre.len() && regular_name(#[trigger] pre[j].0);
                    assert(next[w] == pre[w]);
                } else {
                    assert forall|j: int| 0 <= j < next.len() implies !regular_name(#[trigger] next[j].0) by {
                        if j < i {
                            assert(next[j] == pre[j]);
                        }
                    }
                }
            }
            let nl: usize = n.len();
            let vl: usize = v.len();
            proof {
                let m = usize::MAX as int;
                assert(bound + 14 + nl + vl <= 8 + (i + 1) * (14 + 2 * m)) by (nonlinear_arith)
                    requires
                        bound <= 8 + i * (14 + 2 * m),
                        nl <= m,
                        vl <= m,
                ;
                assert(8 + (i + 1) * (14 + 2 * m) <= 8 + 256 * (14 + 2 * m)) by (nonlinear_arith)
                    requires
                        i + 1 <= 256,
                        m >= 0,
                ;
            }
            bound = bound + 14 + nl as u128 + vl as u128;
            i += 1;
        }
        assert(fs.take(fs.len() as int) =~= fs);
        if bound > self.max_block_bytes as u128 {
            return Err(Http2Error::HeaderListTooLong);
        }
        Ok(())
    }

    /// Encode one complete field block, appending it to `out`. All or
    /// nothing: when the block is refused nothing is written and the
    /// table has not moved, so the encoder stays in step with its peer.
    pub fn encode_into(&mut self, fields: &[(Vec<u8>, Vec<u8>)], out: &mut Vec<u8>) -> (r: Result<(), Http2Error>)
        requires
            old(self).wf(),
        ensures
            final(self).wf(),
            final(self).policy() == old(self).policy(),
            match encode_outcome(old(self).policy(), old(self)@, fields.deep_view()) {
                Ok((b, e)) => r is Ok && final(out)@ == old(out)@ + b && final(self)@ == e,
                Err(err) => r == Err::<(), Http2Error>(err) && final(out)@ == old(out)@
                    && final(self)@ == old(self)@,
            },
    {
        match self.check_block(fields) {
            Err(e) => return Err(e),
            Ok(()) => {},
        }
        let ghost fs = fields.deep_view();
        let ghost p = self.policy();
        let ghost e0 = self@;
        let ghost start = out@;
        self.emit_size_updates(out);
        let ghost e1 = self@;
        let ghost mid = out@;
        let mut i: usize = 0;
        assert(fs.take(0) =~= Seq::<FieldView>::empty());
        while i < fields.len()
            invariant
                fs == fields.deep_view(),
                i <= fs.len(),
                self.wf(),
                self.policy() == p,
                out@ == mid + fields_repr(p, e1.table, fs.take(i as int), e1.huffman).0,
                self@ == (EncoderView { table: fields_repr(p, e1.table, fs.take(i as int), e1.huffman).1, ..e1 }),
            decreases fs.len() - i,
        {
            let n = fields[i].0.as_slice();
            let v = fields[i].1.as_slice();
            proof {
                crate::text::lemma_bytes_deep_view(fields[i as int].0);
                crate::text::lemma_bytes_deep_view(fields[i as int].1);
                assert(fs[i as int] == (n@, v@));
                assert(fs.take(i + 1).drop_last() =~= fs.take(i as int));
                assert(fs.take(i + 1).last() == fs[i as int]);
            }
            let ghost before = out@;
            self.encode_field(n, v, out);
            assert(out@ =~= mid + fields_repr(p, e1.table, fs.take(i + 1), e1.huffman).0);
            i += 1;
        }
        assert(fs.take(fs.len() as int) =~= fs);
        assert(out@ =~= start + (size_updates(e0).0 + fields_repr(p, e1.table, fs, e1.huffman).0));
        Ok(())
    }

    /// Encode one complete field block.
    pub fn encode(&mut self, fields: &[(Vec<u8>, Vec<u8>)]) -> (r: Result<Vec<u8>, Http2Error>)
        requires
            old(self).wf(),
        ensures
            final(self).wf(),
            final(self).policy() == old(self).policy(),
            match encode_outcome(old(self).policy(), old(self)@, fields.deep_view()) {
                Ok((b, e)) => r matches Ok(v) && v@ == b && final(self)@ == e,
                Err(err) => r == Err::<Vec<u8>, Http2Error>(err) && final(self)@ == old(self)@,
            },
    {
        let mut out: Vec<u8> = Vec::new();
        match self.encode_into(fields, &mut out) {
            Ok(()) => {
                assert(out@ =~= Seq::<u8>::empty() + out@);
                Ok(out)
            },
            Err(e) => Err(e),
        }
    }
}

} // verus!
