//! HPACK header decompression: prefixed integers, string literals, the
//! static table and the shared dynamic table.

use vstd::prelude::*;

use super::error::Http2Error;
use super::huffman::huffman_decode_spec;
use crate::text::copy_bytes;
use std::collections::VecDeque;

verus! {

/// `2^n`.
pub open spec fn p2(n: nat) -> nat
    decreases n,
{
    if n == 0 {
        1
    } else {
        2 * p2((n - 1) as nat)
    }
}

/// `128^k`: the weight of the `k`-th 7-bit continuation group.
pub open spec fn pow128(k: nat) -> nat
    decreases k,
{
    if k == 0 {
        1
    } else {
        128 * pow128((k - 1) as nat)
    }
}

/// The continuation groups of an integer from byte `i`, group `k`,
/// with `value` accumulated so far: a group whose weight would need a
/// shift of 63 bits or more, or a sum past `u64::MAX`, is an overflow;
/// running out of bytes is truncation. On success, the value and the
/// index just past the last group.
pub open spec fn int_cont(buf: Seq<u8>, i: int, value: nat, k: nat) -> Result<
    (u64, int),
    Http2Error,
>
    decreases buf.len() - i,
{
    if i < 0 || i >= buf.len() {
        Err(Http2Error::HpackTruncated)
    } else if 7 * k >= 63 {
        Err(Http2Error::HpackIntegerOverflow)
    } else {
        let nv = value + (buf[i] % 128) as nat * pow128(k);
        if nv > u64::MAX {
            Err(Http2Error::HpackIntegerOverflow)
        } else if buf[i] < 128 {
            Ok((nv as u64, i + 1))
        } else {
            int_cont(buf, i + 1, nv, k + 1)
        }
    }
}

/// An HPACK integer with a `prefix`-bit prefix at the start of `buf`:
/// the prefix bits hold the value unless they are all ones, in which
/// case 7-bit groups follow, least significant first. On success, the
/// value and the number of bytes it took.
pub open spec fn decode_int_spec(buf: Seq<u8>, prefix: u8) -> Result<(u64, int), Http2Error> {
    if buf.len() == 0 {
        Err(Http2Error::HpackTruncated)
    } else {
        let mask = p2(prefix as nat) - 1;
        let v0 = (buf[0] as nat) % p2(prefix as nat);
        if v0 < mask {
            Ok((v0 as u64, 1))
        } else {
            int_cont(buf, 1, v0 as nat, 0)
        }
    }
}

/// `2^p` for a prefix width below 16.
fn pow2_u16(p: u8) -> (r: u16)
    requires
        p < 16,
    ensures
        r as nat == p2(p as nat),
{
    let mut r: u16 = 1;
    let mut i: u8 = 0;
    while i < p
        invariant
            i <= p < 16,
            r as nat == p2(i as nat),
            r <= 32768,
            r as nat * p2((p - i) as nat) == p2(p as nat),
        decreases p - i,
    {
        proof {
            assert(p2((p - i) as nat) == 2 * p2((p - i - 1) as nat));
            assert(r as nat * p2((p - i) as nat) == (2 * r) as nat * p2((p - i - 1) as nat))
                by (nonlinear_arith)
                requires
                    p2((p - i) as nat) == 2 * p2((p - i - 1) as nat),
            ;
            lemma_p2_bound((p - i - 1) as nat);
            lemma_p2_bound(p as nat);
            assert(p2(p as nat) <= 32768) by {
                lemma_p2_mono(p as nat, 15);
                lemma_p2_15();
            }
            assert((2 * r) as nat <= 32768) by (nonlinear_arith)
                requires
                    (2 * r) as nat * p2((p - i - 1) as nat) == p2(p as nat),
                    p2((p - i - 1) as nat) >= 1,
                    p2(p as nat) <= 32768,
            ;
        }
        r = r * 2;
        i += 1;
    }
    r
}

proof fn lemma_p2_bound(n: nat)
    ensures
        p2(n) >= 1,
    decreases n,
{
    if n > 0 {
        lemma_p2_bound((n - 1) as nat);
    }
}

proof fn lemma_p2_mono(a: nat, b: nat)
    requires
        a <= b,
    ensures
        p2(a) <= p2(b),
    decreases b,
{
    if a < b {
        lemma_p2_mono(a, (b - 1) as nat);
        lemma_p2_bound((b - 1) as nat);
    }
}

proof fn lemma_p2_15()
    ensures
        p2(15) == 32768,
{
    reveal_with_fuel(p2, 16);
}

/// Decode an HPACK integer with a `prefix`-bit prefix; returns the
/// value and the bytes after it.
pub fn decode_int(buf: &[u8], prefix: u8) -> (r: Result<(u64, &[u8]), Http2Error>)
    requires
        prefix < 16,
    ensures
        match (r, decode_int_spec(buf@, prefix)) {
            (Ok((v, rest)), Ok((w, n))) => v == w && 0 < n <= buf@.len() && rest@ == buf@.skip(n),
            (Err(e), Err(f)) => e == f,
            _ => false,
        },
{
    if buf.len() == 0 {
        return Err(Http2Error::HpackTruncated);
    }
    proof {
        lemma_p2_15();
        lemma_p2_mono(prefix as nat, 15);
        lemma_p2_bound(prefix as nat);
    }
    let pow = pow2_u16(prefix);
    let mask: u64 = (pow - 1) as u64;
    let first = buf[0];
    let v0: u64 = (first as u16 % pow) as u64;
    if v0 < mask {
        assert(buf@.skip(1) =~= buf@.subrange(1, buf@.len() as int));
        return Ok((v0, &buf[1..buf.len()]));
    }
    let mut value: u64 = v0;
    let mut k: u32 = 0;
    let mut weight: u64 = 1;
    let mut i: usize = 1;
    loop
        invariant
            1 <= i <= buf@.len(),
            k <= 9,
            weight as nat == pow128(k as nat),
            decode_int_spec(buf@, prefix) == int_cont(buf@, i as int, value as nat, k as nat),
        decreases buf@.len() - i,
    {
        if i >= buf.len() {
            return Err(Http2Error::HpackTruncated);
        }
        let b = buf[i];
        i += 1;
        if k >= 9 {
            return Err(Http2Error::HpackIntegerOverflow);
        }
        proof {
            lemma_pow128_bound(k as nat);
        }
        let group = (b % 128) as u64;
        assert(group as nat * weight as nat <= 127 * 0x100000000000000) by (nonlinear_arith)
            requires
                group <= 127,
                weight <= 0x100000000000000,
        ;
        let add = group * weight;
        match value.checked_add(add) {
            None => {
                return Err(Http2Error::HpackIntegerOverflow);
            },
            Some(nv) => {
                value = nv;
            },
        }
        if b < 128 {
            assert(buf@.skip(i as int) =~= buf@.subrange(i as int, buf@.len() as int));
            return Ok((value, &buf[i..buf.len()]));
        }
        weight = weight * 128;
        k += 1;
    }
}

proof fn lemma_pow128_bound(k: nat)
    requires
        k <= 8,
    ensures
        pow128(k) <= 0x100000000000000,
    decreases k,
{
    if k > 0 {
        lemma_pow128_bound((k - 1) as nat);
        assert(pow128((k - 1) as nat) <= 0x2000000000000) by {
            if k - 1 < 8 {
                lemma_pow128_small((k - 1) as nat);
            }
        }
    }
}

proof fn lemma_pow128_small(k: nat)
    requires
        k <= 7,
    ensures
        pow128(k) <= 0x2000000000000,
    decreases k,
{
    reveal_with_fuel(pow128, 8);
    if k > 0 {
        lemma_pow128_small((k - 1) as nat);
    }
}


/// Entry `i` (1 to 61) of the RFC 7541 Appendix A static table, as
/// (name, value); the value is empty where the table names only a
/// field.
#[verifier::opaque]
pub open spec fn static_entry(i: u64) -> (Seq<u8>, Seq<u8>) {
    match i {
        1u64 => (seq![58u8, 97, 117, 116, 104, 111, 114, 105, 116, 121], Seq::<u8>::empty()),
        2u64 => (seq![58u8, 109, 101, 116, 104, 111, 100], seq![71u8, 69, 84]),
        3u64 => (seq![58u8, 109, 101, 116, 104, 111, 100], seq![80u8, 79, 83, 84]),
        4u64 => (seq![58u8, 112, 97, 116, 104], seq![47u8]),
        5u64 => (seq![58u8, 112, 97, 116, 104], seq![47u8, 105, 110, 100, 101, 120, 46, 104, 116, 109, 108]),
        6u64 => (seq![58u8, 115, 99, 104, 101, 109, 101], seq![104u8, 116, 116, 112]),
        7u64 => (seq![58u8, 115, 99, 104, 101, 109, 101], seq![104u8, 116, 116, 112, 115]),
        8u64 => (seq![58u8, 115, 116, 97, 116, 117, 115], seq![50u8, 48, 48]),
        9u64 => (seq![58u8, 115, 116, 97, 116, 117, 115], seq![50u8, 48, 52]),
        10u64 => (seq![58u8, 115, 116, 97, 116, 117, 115], seq![50u8, 48, 54]),
        11u64 => (seq![58u8, 115, 116, 97, 116, 117, 115], seq![51u8, 48, 52]),
        12u64 => (seq![58u8, 115, 116, 97, 116, 117, 115], seq![52u8, 48, 48]),
        13u64 => (seq![58u8, 115, 116, 97, 116, 117, 115], seq![52u8, 48, 52]),
        14u64 => (seq![58u8, 115, 116, 97, 116, 117, 115], seq![53u8, 48, 48]),
        15u64 => (seq![97u8, 99, 99, 101, 112, 116, 45, 99, 104, 97, 114, 115, 101, 116], Seq::<u8>::empty()),
        16u64 => (seq![97u8, 99, 99, 101, 112, 116, 45, 101, 110, 99, 111, 100, 105, 110, 103], seq![103u8, 122, 105, 112, 44, 32, 100, 101, 102, 108, 97, 116, 101]),
        17u64 => (seq![97u8, 99, 99, 101, 112, 116, 45, 108, 97, 110, 103, 117, 97, 103, 101], Seq::<u8>::empty()),
        18u64 => (seq![97u8, 99, 99, 101, 112, 116, 45, 114, 97, 110, 103, 101, 115], Seq::<u8>::empty()),
        19u64 => (seq![97u8, 99, 99, 101, 112, 116], Seq::<u8>::empty()),
        20u64 => (seq![97u8, 99, 99, 101, 115, 115, 45, 99, 111, 110, 116, 114, 111, 108, 45, 97, 108, 108, 111, 119, 45, 111, 114, 105, 103, 105, 110], Seq::<u8>::empty()),
        21u64 => (seq![97u8, 103, 101], Seq::<u8>::empty()),
        22u64 => (seq![97u8, 108, 108, 111, 119], Seq::<u8>::empty()),
        23u64 => (seq![97u8, 117, 116, 104, 111, 114, 105, 122, 97, 116, 105, 111, 110], Seq::<u8>::empty()),
        24u64 => (seq![99u8, 97, 99, 104, 101, 45, 99, 111, 110, 116, 114, 111, 108], Seq::<u8>::empty()),
        25u64 => (seq![99u8, 111, 110, 116, 101, 110, 116, 45, 100, 105, 115, 112, 111, 115, 105, 116, 105, 111, 110], Seq::<u8>::empty()),
        26u64 => (seq![99u8, 111, 110, 116, 101, 110, 116, 45, 101, 110, 99, 111, 100, 105, 110, 103], Seq::<u8>::empty()),
        27u64 => (seq![99u8, 111, 110, 116, 101, 110, 116, 45, 108, 97, 110, 103, 117, 97, 103, 101], Seq::<u8>::empty()),
        28u64 => (seq![99u8, 111, 110, 116, 101, 110, 116, 45, 108, 101, 110, 103, 116, 104], Seq::<u8>::empty()),
        29u64 => (seq![99u8, 111, 110, 116, 101, 110, 116, 45, 108, 111, 99, 97, 116, 105, 111, 110], Seq::<u8>::empty()),
        30u64 => (seq![99u8, 111, 110, 116, 101, 110, 116, 45, 114, 97, 110, 103, 101], Seq::<u8>::empty()),
        31u64 => (seq![99u8, 111, 110, 116, 101, 110, 116, 45, 116, 121, 112, 101], Seq::<u8>::empty()),
        32u64 => (seq![99u8, 111, 111, 107, 105, 101], Seq::<u8>::empty()),
        33u64 => (seq![100u8, 97, 116, 101], Seq::<u8>::empty()),
        34u64 => (seq![101u8, 116, 97, 103], Seq::<u8>::empty()),
        35u64 => (seq![101u8, 120, 112, 101, 99, 116], Seq::<u8>::empty()),
        36u64 => (seq![101u8, 120, 112, 105, 114, 101, 115], Seq::<u8>::empty()),
        37u64 => (seq![102u8, 114, 111, 109], Seq::<u8>::empty()),
        38u64 => (seq![104u8, 111, 115, 116], Seq::<u8>::empty()),
        39u64 => (seq![105u8, 102, 45, 109, 97, 116, 99, 104], Seq::<u8>::empty()),
        40u64 => (seq![105u8, 102, 45, 109, 111, 100, 105, 102, 105, 101, 100, 45, 115, 105, 110, 99, 101], Seq::<u8>::empty()),
        41u64 => (seq![105u8, 102, 45, 110, 111, 110, 101, 45, 109, 97, 116, 99, 104], Seq::<u8>::empty()),
        42u64 => (seq![105u8, 102, 45, 114, 97, 110, 103, 101], Seq::<u8>::empty()),
        43u64 => (seq![105u8, 102, 45, 117, 110, 109, 111, 100, 105, 102, 105, 101, 100, 45, 115, 105, 110, 99, 101], Seq::<u8>::empty()),
        44u64 => (seq![108u8, 97, 115, 116, 45, 109, 111, 100, 105, 102, 105, 101, 100], Seq::<u8>::empty()),
        45u64 => (seq![108u8, 105, 110, 107], Seq::<u8>::empty()),
        46u64 => (seq![108u8, 111, 99, 97, 116, 105, 111, 110], Seq::<u8>::empty()),
        47u64 => (seq![109u8, 97, 120, 45, 102, 111, 114, 119, 97, 114, 100, 115], Seq::<u8>::empty()),
        48u64 => (seq![112u8, 114, 111, 120, 121, 45, 97, 117, 116, 104, 101, 110, 116, 105, 99, 97, 116, 101], Seq::<u8>::empty()),
        49u64 => (seq![112u8, 114, 111, 120, 121, 45, 97, 117, 116, 104, 111, 114, 105, 122, 97, 116, 105, 111, 110], Seq::<u8>::empty()),
        50u64 => (seq![114u8, 97, 110, 103, 101], Seq::<u8>::empty()),
        51u64 => (seq![114u8, 101, 102, 101, 114, 101, 114], Seq::<u8>::empty()),
        52u64 => (seq![114u8, 101, 102, 114, 101, 115, 104], Seq::<u8>::empty()),
        53u64 => (seq![114u8, 101, 116, 114, 121, 45, 97, 102, 116, 101, 114], Seq::<u8>::empty()),
        54u64 => (seq![115u8, 101, 114, 118, 101, 114], Seq::<u8>::empty()),
        55u64 => (seq![115u8, 101, 116, 45, 99, 111, 111, 107, 105, 101], Seq::<u8>::empty()),
        56u64 => (seq![115u8, 116, 114, 105, 99, 116, 45, 116, 114, 97, 110, 115, 112, 111, 114, 116, 45, 115, 101, 99, 117, 114, 105, 116, 121], Seq::<u8>::empty()),
        57u64 => (seq![116u8, 114, 97, 110, 115, 102, 101, 114, 45, 101, 110, 99, 111, 100, 105, 110, 103], Seq::<u8>::empty()),
        58u64 => (seq![117u8, 115, 101, 114, 45, 97, 103, 101, 110, 116], Seq::<u8>::empty()),
        59u64 => (seq![118u8, 97, 114, 121], Seq::<u8>::empty()),
        60u64 => (seq![118u8, 105, 97], Seq::<u8>::empty()),
        61u64 => (seq![119u8, 119, 119, 45, 97, 117, 116, 104, 101, 110, 116, 105, 99, 97, 116, 101], Seq::<u8>::empty()),
        _ => (Seq::<u8>::empty(), Seq::<u8>::empty()),
    }
}

/// The number of static table entries.
pub const STATIC_TABLE_LEN: u64 = 61;

#[verifier::rlimit(60)]
pub(crate) fn static_field(i: u64) -> (r: (Vec<u8>, Vec<u8>))
    requires
        1 <= i <= STATIC_TABLE_LEN,
    ensures
        (r.0@, r.1@) == static_entry(i),
{
    proof {
        reveal(static_entry);
    }
    match i {
        1u64 => {
            let n: [u8; 10] = [58u8, 97, 117, 116, 104, 111, 114, 105, 116, 121];
            let v: [u8; 0] = [];
            assert(n@ == seq![58u8, 97, 117, 116, 104, 111, 114, 105, 116, 121]);
            assert(v@ == Seq::<u8>::empty());
            (copy_bytes(&n), copy_bytes(&v))
        },
        2u64 => {
            let n: [u8; 7] = [58u8, 109, 101, 116, 104, 111, 100];
            let v: [u8; 3] = [71u8, 69, 84];
            assert(n@ == seq![58u8, 109, 101, 116, 104, 111, 100]);
            assert(v@ == seq![71u8, 69, 84]);
            (copy_bytes(&n), copy_bytes(&v))
        },
        3u64 => {
            let n: [u8; 7] = [58u8, 109, 101, 116, 104, 111, 100];
            let v: [u8; 4] = [80u8, 79, 83, 84];
            assert(n@ == seq![58u8, 109, 101, 116, 104, 111, 100]);
            assert(v@ == seq![80u8, 79, 83, 84]);
            (copy_bytes(&n), copy_bytes(&v))
        },
        4u64 => {
            let n: [u8; 5] = [58u8, 112, 97, 116, 104];
            let v: [u8; 1] = [47u8];
            assert(n@ == seq![58u8, 112, 97, 116, 104]);
            assert(v@ == seq![47u8]);
            (copy_bytes(&n), copy_bytes(&v))
        },
        5u64 => {
            let n: [u8; 5] = [58u8, 112, 97, 116, 104];
            let v: [u8; 11] = [47u8, 105, 110, 100, 101, 120, 46, 104, 116, 109, 108];
            assert(n@ == seq![58u8, 112, 97, 116, 104]);
            assert(v@ == seq![47u8, 105, 110, 100, 101, 120, 46, 104, 116, 109, 108]);
            (copy_bytes(&n), copy_bytes(&v))
        },
        6u64 => {
            let n: [u8; 7] = [58u8, 115, 99, 104, 101, 109, 101];
            let v: [u8; 4] = [104u8, 116, 116, 112];
            assert(n@ == seq![58u8, 115, 99, 104, 101, 109, 101]);
            assert(v@ == seq![104u8, 116, 116, 112]);
            (copy_bytes(&n), copy_bytes(&v))
        },
        7u64 => {
            let n: [u8; 7] = [58u8, 115, 99, 104, 101, 109, 101];
            let v: [u8; 5] = [104u8, 116, 116, 112, 115];
            assert(n@ == seq![58u8, 115, 99, 104, 101, 109, 101]);
            assert(v@ == seq![104u8, 116, 116, 112, 115]);
            (copy_bytes(&n), copy_bytes(&v))
        },
        8u64 => {
            let n: [u8; 7] = [58u8, 115, 116, 97, 116, 117, 115];
            let v: [u8; 3] = [50u8, 48, 48];
            assert(n@ == seq![58u8, 115, 116, 97, 116, 117, 115]);
            assert(v@ == seq![50u8, 48, 48]);
            (copy_bytes(&n), copy_bytes(&v))
        },
        9u64 => {
            let n: [u8; 7] = [58u8, 115, 116, 97, 116, 117, 115];
            let v: [u8; 3] = [50u8, 48, 52];
            assert(n@ == seq![58u8, 115, 116, 97, 116, 117, 115]);
            assert(v@ == seq![50u8, 48, 52]);
            (copy_bytes(&n), copy_bytes(&v))
        },
        10u64 => {
            let n: [u8; 7] = [58u8, 115, 116, 97, 116, 117, 115];
            let v: [u8; 3] = [50u8, 48, 54];
            assert(n@ == seq![58u8, 115, 116, 97, 116, 117, 115]);
            assert(v@ == seq![50u8, 48, 54]);
            (copy_bytes(&n), copy_bytes(&v))
        },
        11u64 => {
            let n: [u8; 7] = [58u8, 115, 116, 97, 116, 117, 115];
            let v: [u8; 3] = [51u8, 48, 52];
            assert(n@ == seq![58u8, 115, 116, 97, 116, 117, 115]);
            assert(v@ == seq![51u8, 48, 52]);
            (copy_bytes(&n), copy_bytes(&v))
        },
        12u64 => {
            let n: [u8; 7] = [58u8, 115, 116, 97, 116, 117, 115];
            let v: [u8; 3] = [52u8, 48, 48];
            assert(n@ == seq![58u8, 115, 116, 97, 116, 117, 115]);
            assert(v@ == seq![52u8, 48, 48]);
            (copy_bytes(&n), copy_bytes(&v))
        },
        13u64 => {
            let n: [u8; 7] = [58u8, 115, 116, 97, 116, 117, 115];
            let v: [u8; 3] = [52u8, 48, 52];
            assert(n@ == seq![58u8, 115, 116, 97, 116, 117, 115]);
            assert(v@ == seq![52u8, 48, 52]);
            (copy_bytes(&n), copy_bytes(&v))
        },
        14u64 => {
            let n: [u8; 7] = [58u8, 115, 116, 97, 116, 117, 115];
            let v: [u8; 3] = [53u8, 48, 48];
            assert(n@ == seq![58u8, 115, 116, 97, 116, 117, 115]);
            assert(v@ == seq![53u8, 48, 48]);
            (copy_bytes(&n), copy_bytes(&v))
        },
        15u64 => {
            let n: [u8; 14] = [97u8, 99, 99, 101, 112, 116, 45, 99, 104, 97, 114, 115, 101, 116];
            let v: [u8; 0] = [];
            assert(n@ == seq![97u8, 99, 99, 101, 112, 116, 45, 99, 104, 97, 114, 115, 101, 116]);
            assert(v@ == Seq::<u8>::empty());
            (copy_bytes(&n), copy_bytes(&v))
        },
        16u64 => {
            let n: [u8; 15] = [97u8, 99, 99, 101, 112, 116, 45, 101, 110, 99, 111, 100, 105, 110, 103];
            let v: [u8; 13] = [103u8, 122, 105, 112, 44, 32, 100, 101, 102, 108, 97, 116, 101];
            assert(n@ == seq![97u8, 99, 99, 101, 112, 116, 45, 101, 110, 99, 111, 100, 105, 110, 103]);
            assert(v@ == seq![103u8, 122, 105, 112, 44, 32, 100, 101, 102, 108, 97, 116, 101]);
            (copy_bytes(&n), copy_bytes(&v))
        },
        17u64 => {
            let n: [u8; 15] = [97u8, 99, 99, 101, 112, 116, 45, 108, 97, 110, 103, 117, 97, 103, 101];
            let v: [u8; 0] = [];
            assert(n@ == seq![97u8, 99, 99, 101, 112, 116, 45, 108, 97, 110, 103, 117, 97, 103, 101]);
            assert(v@ == Seq::<u8>::empty());
            (copy_bytes(&n), copy_bytes(&v))
        },
        18u64 => {
            let n: [u8; 13] = [97u8, 99, 99, 101, 112, 116, 45, 114, 97, 110, 103, 101, 115];
            let v: [u8; 0] = [];
            assert(n@ == seq![97u8, 99, 99, 101, 112, 116, 45, 114, 97, 110, 103, 101, 115]);
            assert(v@ == Seq::<u8>::empty());
            (copy_bytes(&n), copy_bytes(&v))
        },
        19u64 => {
            let n: [u8; 6] = [97u8, 99, 99, 101, 112, 116];
            let v: [u8; 0] = [];
            assert(n@ == seq![97u8, 99, 99, 101, 112, 116]);
            assert(v@ == Seq::<u8>::empty());
            (copy_bytes(&n), copy_bytes(&v))
        },
        20u64 => {
            let n: [u8; 27] = [97u8, 99, 99, 101, 115, 115, 45, 99, 111, 110, 116, 114, 111, 108, 45, 97, 108, 108, 111, 119, 45, 111, 114, 105, 103, 105, 110];
            let v: [u8; 0] = [];
            assert(n@ == seq![97u8, 99, 99, 101, 115, 115, 45, 99, 111, 110, 116, 114, 111, 108, 45, 97, 108, 108, 111, 119, 45, 111, 114, 105, 103, 105, 110]);
            assert(v@ == Seq::<u8>::empty());
            (copy_bytes(&n), copy_bytes(&v))
        },
        21u64 => {
            let n: [u8; 3] = [97u8, 103, 101];
            let v: [u8; 0] = [];
            assert(n@ == seq![97u8, 103, 101]);
            assert(v@ == Seq::<u8>::empty());
            (copy_bytes(&n), copy_bytes(&v))
        },
        22u64 => {
            let n: [u8; 5] = [97u8, 108, 108, 111, 119];
            let v: [u8; 0] = [];
            assert(n@ == seq![97u8, 108, 108, 111, 119]);
            assert(v@ == Seq::<u8>::empty());
            (copy_bytes(&n), copy_bytes(&v))
        },
        23u64 => {
            let n: [u8; 13] = [97u8, 117, 116, 104, 111, 114, 105, 122, 97, 116, 105, 111, 110];
            let v: [u8; 0] = [];
            assert(n@ == seq![97u8, 117, 116, 104, 111, 114, 105, 122, 97, 116, 105, 111, 110]);
            assert(v@ == Seq::<u8>::empty());
            (copy_bytes(&n), copy_bytes(&v))
        },
        24u64 => {
            let n: [u8; 13] = [99u8, 97, 99, 104, 101, 45, 99, 111, 110, 116, 114, 111, 108];
            let v: [u8; 0] = [];
            assert(n@ == seq![99u8, 97, 99, 104, 101, 45, 99, 111, 110, 116, 114, 111, 108]);
            assert(v@ == Seq::<u8>::empty());
            (copy_bytes(&n), copy_bytes(&v))
        },
        25u64 => {
            let n: [u8; 19] = [99u8, 111, 110, 116, 101, 110, 116, 45, 100, 105, 115, 112, 111, 115, 105, 116, 105, 111, 110];
            let v: [u8; 0] = [];
            assert(n@ == seq![99u8, 111, 110, 116, 101, 110, 116, 45, 100, 105, 115, 112, 111, 115, 105, 116, 105, 111, 110]);
            assert(v@ == Seq::<u8>::empty());
            (copy_bytes(&n), copy_bytes(&v))
        },
        26u64 => {
            let n: [u8; 16] = [99u8, 111, 110, 116, 101, 110, 116, 45, 101, 110, 99, 111, 100, 105, 110, 103];
            let v: [u8; 0] = [];
            assert(n@ == seq![99u8, 111, 110, 116, 101, 110, 116, 45, 101, 110, 99, 111, 100, 105, 110, 103]);
            assert(v@ == Seq::<u8>::empty());
            (copy_bytes(&n), copy_bytes(&v))
        },
        27u64 => {
            let n: [u8; 16] = [99u8, 111, 110, 116, 101, 110, 116, 45, 108, 97, 110, 103, 117, 97, 103, 101];
            let v: [u8; 0] = [];
            assert(n@ == seq![99u8, 111, 110, 116, 101, 110, 116, 45, 108, 97, 110, 103, 117, 97, 103, 101]);
            assert(v@ == Seq::<u8>::empty());
            (copy_bytes(&n), copy_bytes(&v))
        },
        28u64 => {
            let n: [u8; 14] = [99u8, 111, 110, 116, 101, 110, 116, 45, 108, 101, 110, 103, 116, 104];
            let v: [u8; 0] = [];
            assert(n@ == seq![99u8, 111, 110, 116, 101, 110, 116, 45, 108, 101, 110, 103, 116, 104]);
            assert(v@ == Seq::<u8>::empty());
            (copy_bytes(&n), copy_bytes(&v))
        },
        29u64 => {
            let n: [u8; 16] = [99u8, 111, 110, 116, 101, 110, 116, 45, 108, 111, 99, 97, 116, 105, 111, 110];
            let v: [u8; 0] = [];
            assert(n@ == seq![99u8, 111, 110, 116, 101, 110, 116, 45, 108, 111, 99, 97, 116, 105, 111, 110]);
            assert(v@ == Seq::<u8>::empty());
            (copy_bytes(&n), copy_bytes(&v))
        },
        30u64 => {
            let n: [u8; 13] = [99u8, 111, 110, 116, 101, 110, 116, 45, 114, 97, 110, 103, 101];
            let v: [u8; 0] = [];
            assert(n@ == seq![99u8, 111, 110, 116, 101, 110, 116, 45, 114, 97, 110, 103, 101]);
            assert(v@ == Seq::<u8>::empty());
            (copy_bytes(&n), copy_bytes(&v))
        },
        31u64 => {
            let n: [u8; 12] = [99u8, 111, 110, 116, 101, 110, 116, 45, 116, 121, 112, 101];
            let v: [u8; 0] = [];
            assert(n@ == seq![99u8, 111, 110, 116, 101, 110, 116, 45, 116, 121, 112, 101]);
            assert(v@ == Seq::<u8>::empty());
            (copy_bytes(&n), copy_bytes(&v))
        },
        32u64 => {
            let n: [u8; 6] = [99u8, 111, 111, 107, 105, 101];
            let v: [u8; 0] = [];
            assert(n@ == seq![99u8, 111, 111, 107, 105, 101]);
            assert(v@ == Seq::<u8>::empty());
            (copy_bytes(&n), copy_bytes(&v))
        },
        33u64 => {
            let n: [u8; 4] = [100u8, 97, 116, 101];
            let v: [u8; 0] = [];
            assert(n@ == seq![100u8, 97, 116, 101]);
            assert(v@ == Seq::<u8>::empty());
            (copy_bytes(&n), copy_bytes(&v))
        },
        34u64 => {
            let n: [u8; 4] = [101u8, 116, 97, 103];
            let v: [u8; 0] = [];
            assert(n@ == seq![101u8, 116, 97, 103]);
            assert(v@ == Seq::<u8>::empty());
            (copy_bytes(&n), copy_bytes(&v))
        },
        35u64 => {
            let n: [u8; 6] = [101u8, 120, 112, 101, 99, 116];
            let v: [u8; 0] = [];
            assert(n@ == seq![101u8, 120, 112, 101, 99, 116]);
            assert(v@ == Seq::<u8>::empty());
            (copy_bytes(&n), copy_bytes(&v))
        },
        36u64 => {
            let n: [u8; 7] = [101u8, 120, 112, 105, 114, 101, 115];
            let v: [u8; 0] = [];
            assert(n@ == seq![101u8, 120, 112, 105, 114, 101, 115]);
            assert(v@ == Seq::<u8>::empty());
            (copy_bytes(&n), copy_bytes(&v))
        },
        37u64 => {
            let n: [u8; 4] = [102u8, 114, 111, 109];
            let v: [u8; 0] = [];
            assert(n@ == seq![102u8, 114, 111, 109]);
            assert(v@ == Seq::<u8>::empty());
            (copy_bytes(&n), copy_bytes(&v))
        },
        38u64 => {
            let n: [u8; 4] = [104u8, 111, 115, 116];
            let v: [u8; 0] = [];
            assert(n@ == seq![104u8, 111, 115, 116]);
            assert(v@ == Seq::<u8>::empty());
            (copy_bytes(&n), copy_bytes(&v))
        },
        39u64 => {
            let n: [u8; 8] = [105u8, 102, 45, 109, 97, 116, 99, 104];
            let v: [u8; 0] = [];
            assert(n@ == seq![105u8, 102, 45, 109, 97, 116, 99, 104]);
            assert(v@ == Seq::<u8>::empty());
            (copy_bytes(&n), copy_bytes(&v))
        },
        40u64 => {
            let n: [u8; 17] = [105u8, 102, 45, 109, 111, 100, 105, 102, 105, 101, 100, 45, 115, 105, 110, 99, 101];
            let v: [u8; 0] = [];
            assert(n@ == seq![105u8, 102, 45, 109, 111, 100, 105, 102, 105, 101, 100, 45, 115, 105, 110, 99, 101]);
            assert(v@ == Seq::<u8>::empty());
            (copy_bytes(&n), copy_bytes(&v))
        },
        41u64 => {
            let n: [u8; 13] = [105u8, 102, 45, 110, 111, 110, 101, 45, 109, 97, 116, 99, 104];
            let v: [u8; 0] = [];
            assert(n@ == seq![105u8, 102, 45, 110, 111, 110, 101, 45, 109, 97, 116, 99, 104]);
            assert(v@ == Seq::<u8>::empty());
            (copy_bytes(&n), copy_bytes(&v))
        },
        42u64 => {
            let n: [u8; 8] = [105u8, 102, 45, 114, 97, 110, 103, 101];
            let v: [u8; 0] = [];
            assert(n@ == seq![105u8, 102, 45, 114, 97, 110, 103, 101]);
            assert(v@ == Seq::<u8>::empty());
            (copy_bytes(&n), copy_bytes(&v))
        },
        43u64 => {
            let n: [u8; 19] = [105u8, 102, 45, 117, 110, 109, 111, 100, 105, 102, 105, 101, 100, 45, 115, 105, 110, 99, 101];
            let v: [u8; 0] = [];
            assert(n@ == seq![105u8, 102, 45, 117, 110, 109, 111, 100, 105, 102, 105, 101, 100, 45, 115, 105, 110, 99, 101]);
            assert(v@ == Seq::<u8>::empty());
            (copy_bytes(&n), copy_bytes(&v))
        },
        44u64 => {
            let n: [u8; 13] = [108u8, 97, 115, 116, 45, 109, 111, 100, 105, 102, 105, 101, 100];
            let v: [u8; 0] = [];
            assert(n@ == seq![108u8, 97, 115, 116, 45, 109, 111, 100, 105, 102, 105, 101, 100]);
            assert(v@ == Seq::<u8>::empty());
            (copy_bytes(&n), copy_bytes(&v))
        },
        45u64 => {
            let n: [u8; 4] = [108u8, 105, 110, 107];
            let v: [u8; 0] = [];
            assert(n@ == seq![108u8, 105, 110, 107]);
            assert(v@ == Seq::<u8>::empty());
            (copy_bytes(&n), copy_bytes(&v))
        },
        46u64 => {
            let n: [u8; 8] = [108u8, 111, 99, 97, 116, 105, 111, 110];
            let v: [u8; 0] = [];
            assert(n@ == seq![108u8, 111, 99, 97, 116, 105, 111, 110]);
            assert(v@ == Seq::<u8>::empty());
            (copy_bytes(&n), copy_bytes(&v))
        },
        47u64 => {
            let n: [u8; 12] = [109u8, 97, 120, 45, 102, 111, 114, 119, 97, 114, 100, 115];
            let v: [u8; 0] = [];
            assert(n@ == seq![109u8, 97, 120, 45, 102, 111, 114, 119, 97, 114, 100, 115]);
            assert(v@ == Seq::<u8>::empty());
            (copy_bytes(&n), copy_bytes(&v))
        },
        48u64 => {
            let n: [u8; 18] = [112u8, 114, 111, 120, 121, 45, 97, 117, 116, 104, 101, 110, 116, 105, 99, 97, 116, 101];
            let v: [u8; 0] = [];
            assert(n@ == seq![112u8, 114, 111, 120, 121, 45, 97, 117, 116, 104, 101, 110, 116, 105, 99, 97, 116, 101]);
            assert(v@ == Seq::<u8>::empty());
            (copy_bytes(&n), copy_bytes(&v))
        },
        49u64 => {
            let n: [u8; 19] = [112u8, 114, 111, 120, 121, 45, 97, 117, 116, 104, 111, 114, 105, 122, 97, 116, 105, 111, 110];
            let v: [u8; 0] = [];
            assert(n@ == seq![112u8, 114, 111, 120, 121, 45, 97, 117, 116, 104, 111, 114, 105, 122, 97, 116, 105, 111, 110]);
            assert(v@ == Seq::<u8>::empty());
            (copy_bytes(&n), copy_bytes(&v))
        },
        50u64 => {
            let n: [u8; 5] = [114u8, 97, 110, 103, 101];
            let v: [u8; 0] = [];
            assert(n@ == seq![114u8, 97, 110, 103, 101]);
            assert(v@ == Seq::<u8>::empty());
            (copy_bytes(&n), copy_bytes(&v))
        },
        51u64 => {
            let n: [u8; 7] = [114u8, 101, 102, 101, 114, 101, 114];
            let v: [u8; 0] = [];
            assert(n@ == seq![114u8, 101, 102, 101, 114, 101, 114]);
            assert(v@ == Seq::<u8>::empty());
            (copy_bytes(&n), copy_bytes(&v))
        },
        52u64 => {
            let n: [u8; 7] = [114u8, 101, 102, 114, 101, 115, 104];
            let v: [u8; 0] = [];
            assert(n@ == seq![114u8, 101, 102, 114, 101, 115, 104]);
            assert(v@ == Seq::<u8>::empty());
            (copy_bytes(&n), copy_bytes(&v))
        },
        53u64 => {
            let n: [u8; 11] = [114u8, 101, 116, 114, 121, 45, 97, 102, 116, 101, 114];
            let v: [u8; 0] = [];
            assert(n@ == seq![114u8, 101, 116, 114, 121, 45, 97, 102, 116, 101, 114]);
            assert(v@ == Seq::<u8>::empty());
            (copy_bytes(&n), copy_bytes(&v))
        },
        54u64 => {
            let n: [u8; 6] = [115u8, 101, 114, 118, 101, 114];
            let v: [u8; 0] = [];
            assert(n@ == seq![115u8, 101, 114, 118, 101, 114]);
            assert(v@ == Seq::<u8>::empty());
            (copy_bytes(&n), copy_bytes(&v))
        },
        55u64 => {
            let n: [u8; 10] = [115u8, 101, 116, 45, 99, 111, 111, 107, 105, 101];
            let v: [u8; 0] = [];
            assert(n@ == seq![115u8, 101, 116, 45, 99, 111, 111, 107, 105, 101]);
            assert(v@ == Seq::<u8>::empty());
            (copy_bytes(&n), copy_bytes(&v))
        },
        56u64 => {
            let n: [u8; 25] = [115u8, 116, 114, 105, 99, 116, 45, 116, 114, 97, 110, 115, 112, 111, 114, 116, 45, 115, 101, 99, 117, 114, 105, 116, 121];
            let v: [u8; 0] = [];
            assert(n@ == seq![115u8, 116, 114, 105, 99, 116, 45, 116, 114, 97, 110, 115, 112, 111, 114, 116, 45, 115, 101, 99, 117, 114, 105, 116, 121]);
            assert(v@ == Seq::<u8>::empty());
            (copy_bytes(&n), copy_bytes(&v))
        },
        57u64 => {
            let n: [u8; 17] = [116u8, 114, 97, 110, 115, 102, 101, 114, 45, 101, 110, 99, 111, 100, 105, 110, 103];
            let v: [u8; 0] = [];
            assert(n@ == seq![116u8, 114, 97, 110, 115, 102, 101, 114, 45, 101, 110, 99, 111, 100, 105, 110, 103]);
            assert(v@ == Seq::<u8>::empty());
            (copy_bytes(&n), copy_bytes(&v))
        },
        58u64 => {
            let n: [u8; 10] = [117u8, 115, 101, 114, 45, 97, 103, 101, 110, 116];
            let v: [u8; 0] = [];
            assert(n@ == seq![117u8, 115, 101, 114, 45, 97, 103, 101, 110, 116]);
            assert(v@ == Seq::<u8>::empty());
            (copy_bytes(&n), copy_bytes(&v))
        },
        59u64 => {
            let n: [u8; 4] = [118u8, 97, 114, 121];
            let v: [u8; 0] = [];
            assert(n@ == seq![118u8, 97, 114, 121]);
            assert(v@ == Seq::<u8>::empty());
            (copy_bytes(&n), copy_bytes(&v))
        },
        60u64 => {
            let n: [u8; 3] = [118u8, 105, 97];
            let v: [u8; 0] = [];
            assert(n@ == seq![118u8, 105, 97]);
            assert(v@ == Seq::<u8>::empty());
            (copy_bytes(&n), copy_bytes(&v))
        },
        61u64 => {
            let n: [u8; 16] = [119u8, 119, 119, 45, 97, 117, 116, 104, 101, 110, 116, 105, 99, 97, 116, 101];
            let v: [u8; 0] = [];
            assert(n@ == seq![119u8, 119, 119, 45, 97, 117, 116, 104, 101, 110, 116, 105, 99, 97, 116, 101]);
            assert(v@ == Seq::<u8>::empty());
            (copy_bytes(&n), copy_bytes(&v))
        },
        _ => {
            assert(false);
            (Vec::new(), Vec::new())
        },
    }
}

/// `decode_int_spec` consumes at least one byte and no more than there are.
pub proof fn lemma_decode_int_bounds(buf: Seq<u8>, prefix: u8)
    ensures
        decode_int_spec(buf, prefix) matches Ok((_, n)) ==> 0 < n <= buf.len(),
{
    if buf.len() > 0 {
        let v0 = (buf[0] as nat) % p2(prefix as nat);
        lemma_int_cont_bounds(buf, 1, v0, 0);
    }
}

proof fn lemma_int_cont_bounds(buf: Seq<u8>, i: int, value: nat, k: nat)
    ensures
        int_cont(buf, i, value, k) matches Ok((_, j)) ==> i < j <= buf.len(),
    decreases buf.len() - i,
{
    if !(i < 0 || i >= buf.len()) && !(7 * k >= 63) {
        let nv = value + (buf[i] % 128) as nat * pow128(k);
        if nv <= u64::MAX && buf[i] >= 128 {
            lemma_int_cont_bounds(buf, i + 1, nv, k + 1);
        }
    }
}

/// The size accounting overhead of one table entry.
pub const ENTRY_OVERHEAD: usize = 32;

/// The most fields one block may decode to, whatever the peer allows.
pub const MAX_FIELDS_PER_BLOCK: usize = 256;

/// A header field as plain bytes.
pub type FieldView = (Seq<u8>, Seq<u8>);

/// An entry's accounted size: name, value and the fixed overhead.
pub open spec fn entry_size(f: FieldView) -> int {
    (f.0.len() + f.1.len() + 32) as int
}

/// The accounted size of a run of entries.
pub open spec fn entries_size(es: Seq<FieldView>) -> int
    decreases es.len(),
{
    if es.len() == 0 {
        0
    } else {
        entries_size(es.drop_last()) + entry_size(es.last())
    }
}

/// The dynamic table as plain values: entries newest first, their
/// accounted size, the size limit in force and the ceiling the peer
/// cannot raise.
pub struct TableView {
    pub entries: Seq<FieldView>,
    pub size: int,
    pub max_size: int,
    pub hard_max_size: int,
}

/// Evict the oldest entries until the table fits its limit.
pub open spec fn evict_spec(t: TableView) -> TableView
    decreases t.entries.len(),
{
    if t.size > t.max_size && t.entries.len() > 0 {
        evict_spec(
            TableView {
                entries: t.entries.drop_last(),
                size: t.size - entry_size(t.entries.last()),
                ..t
            },
        )
    } else if t.size > t.max_size {
        TableView { size: 0, ..t }
    } else {
        t
    }
}

/// A new size limit, capped by the ceiling, then eviction down to it.
pub open spec fn set_max_spec(t: TableView, n: int) -> TableView {
    evict_spec(
        TableView {
            max_size: if n < t.hard_max_size {
                n
            } else {
                t.hard_max_size
            },
            ..t
        },
    )
}

/// Add an entry at the front and evict down to the limit; an entry
/// larger than the whole table empties it and is not added.
pub open spec fn insert_spec(t: TableView, f: FieldView) -> TableView {
    if entry_size(f) > t.max_size {
        TableView { entries: Seq::empty(), size: 0, ..t }
    } else {
        evict_spec(TableView { entries: seq![f] + t.entries, size: t.size + entry_size(f), ..t })
    }
}

/// The table's invariant: the size is the entries' accounted size and
/// within the limit, which is within the ceiling.
pub open spec fn table_wf(t: TableView) -> bool {
    &&& t.size == entries_size(t.entries)
    &&& 0 <= t.max_size <= t.hard_max_size <= usize::MAX
    &&& t.size <= t.max_size
}

pub proof fn lemma_entries_size_nonneg(es: Seq<FieldView>)
    ensures
        entries_size(es) >= 0,
    decreases es.len(),
{
    if es.len() > 0 {
        lemma_entries_size_nonneg(es.drop_last());
    }
}

pub proof fn lemma_entries_size_prepend(f: FieldView, es: Seq<FieldView>)
    ensures
        entries_size(seq![f] + es) == entry_size(f) + entries_size(es),
    decreases es.len(),
{
    if es.len() == 0 {
        assert((seq![f] + es).drop_last() =~= Seq::<FieldView>::empty());
        assert((seq![f] + es).last() == f);
        assert(entries_size(Seq::<FieldView>::empty()) == 0);
    } else {
        lemma_entries_size_prepend(f, es.drop_last());
        assert((seq![f] + es).drop_last() =~= seq![f] + es.drop_last());
        assert((seq![f] + es).last() == es.last());
    }
}

/// Eviction keeps the invariant's accounting.
pub proof fn lemma_evict_wf(t: TableView)
    requires
        t.size == entries_size(t.entries),
        0 <= t.max_size <= t.hard_max_size <= usize::MAX,
    ensures
        table_wf(evict_spec(t)),
    decreases t.entries.len(),
{
    lemma_entries_size_nonneg(t.entries);
    if t.size > t.max_size && t.entries.len() > 0 {
        lemma_evict_wf(
            TableView {
                entries: t.entries.drop_last(),
                size: t.size - entry_size(t.entries.last()),
                ..t
            },
        );
    }
}

/// The HPACK dynamic table, shared in shape by the decoder and the
/// encoder's model of its peer.
#[derive(Debug, Clone)]
pub struct DynamicTable {
    entries: VecDeque<(Vec<u8>, Vec<u8>)>,
    size: usize,
    max_size: usize,
    hard_max_size: usize,
}

impl View for DynamicTable {
    type V = TableView;

    closed spec fn view(&self) -> TableView {
        TableView {
            entries: self.entries.deep_view(),
            size: self.size as int,
            max_size: self.max_size as int,
            hard_max_size: self.hard_max_size as int,
        }
    }
}

fn field_size(f: &(Vec<u8>, Vec<u8>)) -> (r: u128)
    ensures
        r == entry_size(f.deep_view()),
{
    f.0.len() as u128 + f.1.len() as u128 + 32
}

impl DynamicTable {
    /// The table's invariant.
    pub open spec fn wf(&self) -> bool {
        table_wf(self@)
    }

    /// An empty table with the given limit, capped by the ceiling.
    pub fn new(max_size: usize, hard_max_size: usize) -> (t: Self)
        ensures
            t.wf(),
            t@ == (TableView {
                entries: Seq::empty(),
                size: 0,
                max_size: if max_size < hard_max_size {
                    max_size as int
                } else {
                    hard_max_size as int
                },
                hard_max_size: hard_max_size as int,
            }),
    {
        let t = DynamicTable {
            entries: VecDeque::new(),
            size: 0,
            max_size: if max_size < hard_max_size {
                max_size
            } else {
                hard_max_size
            },
            hard_max_size,
        };
        assert(t@.entries =~= Seq::<FieldView>::empty());
        t
    }

    /// The size limit in force.
    pub fn max_size(&self) -> (r: usize)
        ensures
            r == self@.max_size,
    {
        self.max_size
    }

    /// The ceiling the peer cannot raise.
    pub fn hard_max_size(&self) -> (r: usize)
        ensures
            r == self@.hard_max_size,
    {
        self.hard_max_size
    }

    /// Bytes accounted to the table.
    pub fn size(&self) -> (r: usize)
        ensures
            r == self@.size,
    {
        self.size
    }

    /// The number of entries.
    pub fn len(&self) -> (r: usize)
        ensures
            r == self@.entries.len(),
    {
        self.entries.len()
    }

    /// A copy of entry `i`, newest first.
    pub fn get(&self, i: usize) -> (r: Option<(Vec<u8>, Vec<u8>)>)
        ensures
            r matches Some(f) ==> i < self@.entries.len() && f.deep_view() == self@.entries[i as int],
            r is None ==> i >= self@.entries.len(),
    {
        if i < self.entries.len() {
            let e = &self.entries[i];
            let f = (copy_bytes(e.0.as_slice()), copy_bytes(e.1.as_slice()));
            assert(f.deep_view() == self@.entries[i as int]);
            Some(f)
        } else {
            None
        }
    }

    /// A copy of every entry, newest first.
    pub fn snapshot(&self) -> (r: Vec<(Vec<u8>, Vec<u8>)>)
        ensures
            r.deep_view() == self@.entries,
    {
        let mut r: Vec<(Vec<u8>, Vec<u8>)> = Vec::new();
        let mut i: usize = 0;
        while i < self.entries.len()
            invariant
                i <= self@.entries.len(),
                r.deep_view() == self@.entries.take(i as int),
            decreases self@.entries.len() - i,
        {
            let e = &self.entries[i];
            let f = (copy_bytes(e.0.as_slice()), copy_bytes(e.1.as_slice()));
            assert(f.deep_view() == self@.entries[i as int]);
            let ghost before = r.deep_view();
            r.push(f);
            assert(r.deep_view() =~= before.push(f.deep_view()));
            assert(self@.entries.take(i + 1) =~= self@.entries.take(i as int).push(
                self@.entries[i as int],
            ));
            i += 1;
        }
        assert(self@.entries.take(self@.entries.len() as int) =~= self@.entries);
        r
    }

    fn evict_from(&mut self, total: u128)
        requires
            total == entries_size(old(self)@.entries),
            0 <= old(self)@.max_size <= old(self)@.hard_max_size <= usize::MAX,
        ensures
            final(self)@ == evict_spec(TableView { size: total as int, ..old(self)@ }),
            final(self).wf(),
    {
        proof {
            lemma_evict_wf(TableView { size: total as int, ..self@ });
        }
        let ghost goal = evict_spec(TableView { size: total as int, ..self@ });
        let mut total = total;
        while total > self.max_size as u128
            invariant
                evict_spec(TableView { size: total as int, ..self@ }) == goal,
                total == entries_size(self@.entries),
                0 <= self@.max_size <= self@.hard_max_size <= usize::MAX,
            decreases self@.entries.len(),
        {
            proof {
                lemma_entries_size_nonneg(self@.entries);
            }
            let ghost before = self@;
            match self.entries.pop_back() {
                Some(f) => {
                    proof {
                        assert(self.entries.deep_view() =~= before.entries.drop_last());
                        assert(f.deep_view() == before.entries.last());
                        lemma_entries_size_nonneg(before.entries.drop_last());
                    }
                    let sz = field_size(&f);
                    total = total - sz;
                },
                None => {
                    self.size = 0;
                    return;
                },
            }
        }
        self.size = total as usize;
    }

    fn evict(&mut self)
        requires
            old(self)@.size == entries_size(old(self)@.entries),
            0 <= old(self)@.max_size <= old(self)@.hard_max_size <= usize::MAX,
        ensures
            final(self)@ == evict_spec(old(self)@),
            final(self).wf(),
    {
        let total = self.size as u128;
        self.evict_from(total);
    }

    /// Apply a new size limit, capped by the ceiling, evicting down to
    /// it.
    pub fn set_max_size(&mut self, n: usize)
        requires
            old(self).wf(),
        ensures
            final(self).wf(),
            final(self)@ == set_max_spec(old(self)@, n as int),
    {
        self.max_size = if n < self.hard_max_size {
            n
        } else {
            self.hard_max_size
        };
        self.evict();
    }

    /// Add an entry at the front, evicting the oldest until it fits; an
    /// entry larger than the whole table empties it.
    pub fn insert(&mut self, name: Vec<u8>, value: Vec<u8>)
        requires
            old(self).wf(),
        ensures
            final(self).wf(),
            final(self)@ == insert_spec(old(self)@, (name@, value@)),
    {
        let f = (name, value);
        let sz = field_size(&f);
        if sz > self.max_size as u128 {
            self.entries.clear();
            self.size = 0;
            assert(self@.entries =~= Seq::<FieldView>::empty());
            return;
        }
        let ghost before = self@;
        let ghost fv = (f.0@, f.1@);
        proof {
            crate::text::lemma_bytes_deep_view(f.0);
            crate::text::lemma_bytes_deep_view(f.1);
            assert(f.deep_view() == fv);
        }
        self.entries.push_front(f);
        proof {
            assert(self.entries.deep_view() =~= seq![fv] + before.entries);
            lemma_entries_size_prepend(fv, before.entries);
        }
        let total = self.size as u128 + sz;
        self.evict_from(total);
    }
}

/// A header index resolved against the static table (1 to 61) and then
/// the dynamic table (newest first); zero and anything past both are
/// invalid.
pub open spec fn resolve_spec(t: TableView, idx: u64) -> Result<FieldView, Http2Error> {
    if idx == 0 || idx > usize::MAX {
        Err(Http2Error::HpackInvalidIndex)
    } else if idx <= 61 {
        Ok(static_entry(idx))
    } else if idx - 62 < t.entries.len() {
        Ok(t.entries[idx - 62])
    } else {
        Err(Http2Error::HpackInvalidIndex)
    }
}

/// A string literal: a 7-bit-prefixed length, then that many bytes,
/// Huffman-decoded when the first byte's top bit is set. On success,
/// the string and the bytes it took.
pub open spec fn decode_string_spec(buf: Seq<u8>) -> Result<(Seq<u8>, int), Http2Error> {
    match decode_int_spec(buf, 7) {
        Err(e) => Err(e),
        Ok((len, n)) => if len > usize::MAX {
            Err(Http2Error::HpackIntegerOverflow)
        } else if buf.len() - n < len {
            Err(Http2Error::HpackTruncated)
        } else {
            let raw = buf.subrange(n, n + len);
            if buf[0] >= 128 {
                match huffman_decode_spec(raw) {
                    Some(d) => Ok((d, n + len)),
                    None => Err(Http2Error::HuffmanInvalid),
                }
            } else {
                Ok((raw, n + len))
            }
        },
    }
}

/// A literal field: its name by index (or, for index 0, as a string
/// literal), then its value as a string literal. On success, the name,
/// the value and the bytes taken.
#[verifier::opaque]
pub open spec fn literal_spec(t: TableView, buf: Seq<u8>, prefix: u8) -> Result<
    (Seq<u8>, Seq<u8>, int),
    Http2Error,
> {
    match decode_int_spec(buf, prefix) {
        Err(e) => Err(e),
        Ok((idx, n)) => {
            let name: Result<(Seq<u8>, int), Http2Error> = if idx == 0 {
                match decode_string_spec(buf.skip(n)) {
                    Ok((s, m)) => Ok((s, n + m)),
                    Err(e) => Err(e),
                }
            } else {
                match resolve_spec(t, idx) {
                    Ok(f) => Ok((f.0, n)),
                    Err(e) => Err(e),
                }
            };
            match name {
                Err(e) => Err(e),
                Ok((nm, k)) => match decode_string_spec(buf.skip(k)) {
                    Err(e) => Err(e),
                    Ok((v, m)) => Ok((nm, v, k + m)),
                },
            }
        },
    }
}

/// One representation at the start of a field block (RFC 7541 §6): an
/// indexed field, a literal with incremental indexing (added to the
/// table), a table size update (refused above the ceiling), or a
/// literal without indexing. On success, the table after it, the field
/// it yields if any, and the bytes it took.
pub open spec fn block_step(t: TableView, buf: Seq<u8>) -> Result<
    (TableView, Option<FieldView>, int),
    Http2Error,
> {
    let first = buf[0];
    if first >= 128 {
        match decode_int_spec(buf, 7) {
            Err(e) => Err(e),
            Ok((idx, n)) => match resolve_spec(t, idx) {
                Err(e) => Err(e),
                Ok(f) => Ok((t, Some(f), n)),
            },
        }
    } else if first >= 64 {
        match literal_spec(t, buf, 6) {
            Err(e) => Err(e),
            Ok((nm, v, n)) => Ok((insert_spec(t, (nm, v)), Some((nm, v)), n)),
        }
    } else if first >= 32 {
        match decode_int_spec(buf, 5) {
            Err(e) => Err(e),
            Ok((sz, n)) => if sz > usize::MAX {
                Err(Http2Error::HpackInvalidIndex)
            } else if sz > t.hard_max_size {
                Err(Http2Error::HpackTableSizeExceeded)
            } else {
                Ok((set_max_spec(t, sz as int), None, n))
            },
        }
    } else {
        match literal_spec(t, buf, 4) {
            Err(e) => Err(e),
            Ok((nm, v, n)) => Ok((t, Some((nm, v)), n)),
        }
    }
}

proof fn lemma_string_bounds(buf: Seq<u8>)
    ensures
        decode_string_spec(buf) matches Ok((_, m)) ==> 0 < m <= buf.len(),
{
    lemma_decode_int_bounds(buf, 7);
}

proof fn lemma_literal_bounds(t: TableView, buf: Seq<u8>, prefix: u8)
    ensures
        literal_spec(t, buf, prefix) matches Ok((_, _, k)) ==> 0 < k <= buf.len(),
{
    reveal(literal_spec);
    lemma_decode_int_bounds(buf, prefix);
    if let Ok((idx, n)) = decode_int_spec(buf, prefix) {
        lemma_string_bounds(buf.skip(n));
        if idx == 0 {
            if let Ok((s, m)) = decode_string_spec(buf.skip(n)) {
                lemma_string_bounds(buf.skip(n + m));
                assert(buf.skip(n).skip(m) =~= buf.skip(n + m));
            }
        }
    }
}

/// Every representation takes at least one byte.
pub proof fn lemma_block_step_bounds(t: TableView, buf: Seq<u8>)
    requires
        buf.len() > 0,
    ensures
        block_step(t, buf) matches Ok((_, _, n)) ==> 0 < n <= buf.len(),
{
    lemma_decode_int_bounds(buf, 7);
    lemma_decode_int_bounds(buf, 5);
    lemma_literal_bounds(t, buf, 6);
    lemma_literal_bounds(t, buf, 4);
}

/// A whole field block, representation by representation: the table
/// after it (which keeps what was added before a failure) and the
/// fields, or the first failure. More than [`MAX_FIELDS_PER_BLOCK`]
/// fields is refused.
pub open spec fn decode_block_spec(t: TableView, buf: Seq<u8>, count: nat) -> (
    TableView,
    Result<Seq<FieldView>, Http2Error>,
)
    decreases buf.len(),
{
    if buf.len() == 0 {
        (t, Ok(Seq::empty()))
    } else if count >= MAX_FIELDS_PER_BLOCK {
        (t, Err(Http2Error::HeaderListTooLong))
    } else {
        match block_step(t, buf) {
            Err(e) => (t, Err(e)),
            Ok((t1, f, n)) => {
                proof {
                    lemma_block_step_bounds(t, buf);
                }
                let pre: Seq<FieldView> = match f {
                    Some(x) => seq![x],
                    None => Seq::empty(),
                };
                let rest = decode_block_spec(t1, buf.skip(n), count + pre.len());
                (
                    rest.0,
                    match rest.1 {
                        Ok(fs) => Ok(pre + fs),
                        Err(e) => Err(e),
                    },
                )
            },
        }
    }
}

/// The result of decoding after `done` fields were already produced.
pub open spec fn after_prefix(done: Seq<FieldView>, r: (TableView, Result<Seq<FieldView>, Http2Error>)) -> (
    TableView,
    Result<Seq<FieldView>, Http2Error>,
) {
    (
        r.0,
        match r.1 {
            Ok(fs) => Ok(done + fs),
            Err(e) => Err(e),
        },
    )
}

fn decode_string(buf: &[u8]) -> (r: Result<(Vec<u8>, usize), Http2Error>)
    ensures
        match (r, decode_string_spec(buf@)) {
            (Ok((s, m)), Ok((s2, m2))) => s@ == s2 && m == m2,
            (Err(e), Err(e2)) => e == e2,
            _ => false,
        },
{
    proof {
        lemma_decode_int_bounds(buf@, 7);
    }
    let (len, rest) = match decode_int(buf, 7) {
        Ok(p) => p,
        Err(e) => {
            return Err(e);
        },
    };
    let n = buf.len() - rest.len();
    if len > usize::MAX as u64 {
        return Err(Http2Error::HpackIntegerOverflow);
    }
    let len = len as usize;
    if rest.len() < len {
        return Err(Http2Error::HpackTruncated);
    }
    let raw = &buf[n..n + len];
    if buf[0] >= 128 {
        match super::huffman::decode(raw) {
            Ok(d) => Ok((d, n + len)),
            Err(e) => Err(e),
        }
    } else {
        Ok((copy_bytes(raw), n + len))
    }
}

/// An HPACK decoder for one direction of one connection; it must see
/// every field block, in order.
#[derive(Debug, Clone)]
pub struct HpackDecoder {
    table: DynamicTable,
}

impl View for HpackDecoder {
    type V = TableView;

    closed spec fn view(&self) -> TableView {
        self.table@
    }
}

impl HpackDecoder {
    /// The decoder's invariant: its table's.
    pub closed spec fn wf(&self) -> bool {
        self.table.wf()
    }

    /// A decoder whose table starts with the given limit, capped by
    /// the ceiling.
    pub fn new(max_size: usize, hard_max_size: usize) -> (d: Self)
        ensures
            d.wf(),
            d@ == (TableView {
                entries: Seq::empty(),
                size: 0,
                max_size: if max_size < hard_max_size {
                    max_size as int
                } else {
                    hard_max_size as int
                },
                hard_max_size: hard_max_size as int,
            }),
    {
        HpackDecoder { table: DynamicTable::new(max_size, hard_max_size) }
    }

    /// Apply a `SETTINGS_HEADER_TABLE_SIZE` change from the peer.
    pub fn set_max_size(&mut self, n: usize)
        requires
            old(self).wf(),
        ensures
            final(self).wf(),
            final(self)@ == set_max_spec(old(self)@, n as int),
    {
        self.table.set_max_size(n);
    }

    /// The number of entries in the dynamic table.
    pub fn len(&self) -> (r: usize)
        ensures
            r == self@.entries.len(),
    {
        self.table.len()
    }

    /// The dynamic table.
    pub fn table(&self) -> (r: &DynamicTable)
        ensures
            r@ == self@,
    {
        &self.table
    }

    fn resolve(&self, idx: u64) -> (r: Result<(Vec<u8>, Vec<u8>), Http2Error>)
        ensures
            match (r, resolve_spec(self@, idx)) {
                (Ok(f), Ok(g)) => f.deep_view() == g,
                (Err(e), Err(e2)) => e == e2,
                _ => false,
            },
    {
        if idx == 0 || idx > usize::MAX as u64 {
            return Err(Http2Error::HpackInvalidIndex);
        }
        if idx <= STATIC_TABLE_LEN {
            let f = static_field(idx);
            assert(f.deep_view() == (f.0@, f.1@));
            return Ok(f);
        }
        match self.table.get((idx - 62) as usize) {
            Some(f) => Ok(f),
            None => Err(Http2Error::HpackInvalidIndex),
        }
    }

    fn decode_literal(&self, buf: &[u8], prefix: u8) -> (r: Result<(Vec<u8>, Vec<u8>, usize), Http2Error>)
        requires
            prefix < 16,
        ensures
            match (r, literal_spec(self@, buf@, prefix)) {
                (Ok((n, v, k)), Ok((n2, v2, k2))) => n@ == n2 && v@ == v2 && k == k2,
                (Err(e), Err(e2)) => e == e2,
                _ => false,
            },
    {
        proof {
            reveal(literal_spec);
        }
        let (idx, rest) = match decode_int(buf, prefix) {
            Ok(p) => p,
            Err(e) => {
                return Err(e);
            },
        };
        let n = buf.len() - rest.len();
        let (name, k) = if idx == 0 {
            match decode_string(rest) {
                Ok((s, m)) => {
                    proof {
                        lemma_string_bounds(rest@);
                    }
                    (s, n + m)
                },
                Err(e) => {
                    return Err(e);
                },
            }
        } else {
            match self.resolve(idx) {
                Ok(f) => (f.0, n),
                Err(e) => {
                    return Err(e);
                },
            }
        };
        assert(buf@.skip(k as int) =~= buf@.subrange(k as int, buf@.len() as int));
        if idx == 0 {
            assert(buf@.skip(n as int).skip((k - n) as int) =~= buf@.skip(k as int));
        }
        match decode_string(&buf[k..buf.len()]) {
            Ok((v, m)) => {
                proof {
                    lemma_string_bounds(buf@.skip(k as int));
                }
                Ok((name, v, k + m))
            },
            Err(e) => Err(e),
        }
    }

    /// The fields a step yields, as a run.
    spec fn yielded(fo: Option<FieldView>) -> Seq<FieldView> {
        match fo {
            Some(x) => seq![x],
            None => Seq::empty(),
        }
    }

    #[verifier::rlimit(40)]
    fn step(&mut self, buf: &[u8], out: &mut Vec<(Vec<u8>, Vec<u8>)>) -> (r: Result<usize, Http2Error>)
        requires
            old(self).wf(),
            buf@.len() > 0,
        ensures
            final(self).wf(),
            match (r, block_step(old(self)@, buf@)) {
                (Ok(n), Ok((t1, fo, n2))) => n == n2 && final(self)@ == t1 && final(out).deep_view()
                    == old(out).deep_view() + Self::yielded(fo),
                (Err(e), Err(e2)) => e == e2 && final(self)@ == old(self)@,
                _ => false,
            },
    {
        let ghost t0 = self@;
        let ghost done = out.deep_view();
        proof {
            lemma_decode_int_bounds(buf@, 7);
            lemma_decode_int_bounds(buf@, 5);
        }
        let first = buf[0];
        if first >= 128 {
            let (idx, r2) = match decode_int(buf, 7) {
                Ok(p) => p,
                Err(e) => {
                    return Err(e);
                },
            };
            let n = buf.len() - r2.len();
            let f = match self.resolve(idx) {
                Ok(f) => f,
                Err(e) => {
                    return Err(e);
                },
            };
            let ghost fv = f.deep_view();
            out.push(f);
            assert(out.deep_view() =~= done + seq![fv]);
            Ok(n)
        } else if first >= 64 {
            let (name, value, n) = match self.decode_literal(buf, 6) {
                Ok(p) => p,
                Err(e) => {
                    return Err(e);
                },
            };
            let ghost fv = (name@, value@);
            self.table.insert(copy_bytes(name.as_slice()), copy_bytes(value.as_slice()));
            proof {
                crate::text::lemma_bytes_deep_view(name);
                crate::text::lemma_bytes_deep_view(value);
            }
            out.push((name, value));
            assert(out.deep_view() =~= done + seq![fv]);
            Ok(n)
        } else if first >= 32 {
            let (sz, r2) = match decode_int(buf, 5) {
                Ok(p) => p,
                Err(e) => {
                    return Err(e);
                },
            };
            let n = buf.len() - r2.len();
            if sz > usize::MAX as u64 {
                return Err(Http2Error::HpackInvalidIndex);
            }
            if sz as usize > self.table.hard_max_size() {
                return Err(Http2Error::HpackTableSizeExceeded);
            }
            self.table.set_max_size(sz as usize);
            assert(out.deep_view() =~= done + Seq::<FieldView>::empty());
            Ok(n)
        } else {
            let (name, value, n) = match self.decode_literal(buf, 4) {
                Ok(p) => p,
                Err(e) => {
                    return Err(e);
                },
            };
            let ghost fv = (name@, value@);
            proof {
                crate::text::lemma_bytes_deep_view(name);
                crate::text::lemma_bytes_deep_view(value);
            }
            out.push((name, value));
            assert(out.deep_view() =~= done + seq![fv]);
            Ok(n)
        }
    }

    /// Decode one complete field block, as [`decode_block_spec`] says.
    /// A failure leaves the table as it stands: the entries added
    /// before it are real to the peer.
    pub fn decode(&mut self, buf: &[u8]) -> (r: Result<Vec<(Vec<u8>, Vec<u8>)>, Http2Error>)
        requires
            old(self).wf(),
        ensures
            final(self).wf(),
            final(self)@ == decode_block_spec(old(self)@, buf@, 0).0,
            match (r, decode_block_spec(old(self)@, buf@, 0).1) {
                (Ok(fs), Ok(gs)) => fs.deep_view() == gs,
                (Err(e), Err(e2)) => e == e2,
                _ => false,
            },
    {
        let ghost goal = decode_block_spec(self@, buf@, 0);
        let mut out: Vec<(Vec<u8>, Vec<u8>)> = Vec::new();
        let mut at: usize = 0;
        assert(buf@.skip(0) =~= buf@);
        assert(out.deep_view() =~= Seq::<FieldView>::empty());
        assert(after_prefix(out.deep_view(), decode_block_spec(self@, buf@.skip(0), 0)) =~~= goal);
        while at < buf.len()
            invariant
                self.wf(),
                at <= buf@.len(),
                goal == decode_block_spec(old(self)@, buf@, 0),
                after_prefix(out.deep_view(), decode_block_spec(self@, buf@.skip(at as int), out.len() as nat)) == goal,
            decreases buf@.len() - at,
        {
            let ghost t0 = self@;
            let ghost rest = buf@.skip(at as int);
            let ghost done = out.deep_view();
            if out.len() >= MAX_FIELDS_PER_BLOCK {
                return Err(Http2Error::HeaderListTooLong);
            }
            let slice = &buf[at..buf.len()];
            assert(slice@ =~= rest);
            proof {
                lemma_block_step_bounds(t0, rest);
            }
            let n = match self.step(slice, &mut out) {
                Ok(n) => n,
                Err(e) => {
                    return Err(e);
                },
            };
            at = at + n;
            proof {
                let (t1, fo, n2) = block_step(t0, rest)->Ok_0;
                assert(rest.skip(n2) =~= buf@.skip(at as int));
                let pre = Self::yielded(fo);
                assert(out.len() == done.len() + pre.len()) by {
                    assert(out.deep_view().len() == out.len());
                }
                let tail = decode_block_spec(t1, rest.skip(n2), (done.len() + pre.len()) as nat);
                match tail.1 {
                    Ok(fs) => {
                        assert(done + (pre + fs) =~= (done + pre) + fs);
                    },
                    Err(_) => {},
                }
            }
        }
        proof {
            assert(buf@.skip(at as int) =~= Seq::<u8>::empty());
            assert(out.deep_view() =~= out.deep_view() + Seq::<FieldView>::empty());
        }
        Ok(out)
    }
}

} // verus!
