//! The Huffman code reads back: decoding what the encoder writes gives
//! the string again. The proof rests on the code table being canonical:
//! the codes of each length are consecutive, and every shorter code
//! space ends below where the longer codes begin, so no code is a
//! prefix of another.

use vstd::prelude::*;

use super::hpack::p2;
use super::huffman::{
    bits_value, code_bits, huff_bits, huff_code, huffman_decode_spec, huffman_encode_spec,
    bit_at, huffman_len_spec, lookup_from, pack_bits, pad_bits, run_bits, step_bit, step_byte,
    HuffState,
};

verus! {

/// How many symbols have a code of each length.
pub open spec fn code_count(l: u32) -> nat {
    match l {
        5u32 => 10,
        6u32 => 26,
        7u32 => 32,
        8u32 => 6,
        10u32 => 5,
        11u32 => 3,
        12u32 => 2,
        13u32 => 6,
        14u32 => 2,
        15u32 => 3,
        19u32 => 3,
        20u32 => 8,
        21u32 => 13,
        22u32 => 26,
        23u32 => 29,
        24u32 => 12,
        25u32 => 4,
        26u32 => 15,
        27u32 => 19,
        28u32 => 29,
        30u32 => 4,
        _ => 0,
    }
}

/// The first (smallest) code of each length: the code space is
/// canonical, each length's codes following on from the last's.
pub open spec fn first_code(l: u32) -> nat {
    match l {
        6u32 => 20,
        7u32 => 92,
        8u32 => 248,
        9u32 => 508,
        10u32 => 1016,
        11u32 => 2042,
        12u32 => 4090,
        13u32 => 8184,
        14u32 => 16380,
        15u32 => 32764,
        16u32 => 65534,
        17u32 => 131068,
        18u32 => 262136,
        19u32 => 524272,
        20u32 => 1048550,
        21u32 => 2097116,
        22u32 => 4194258,
        23u32 => 8388568,
        24u32 => 16777194,
        25u32 => 33554412,
        26u32 => 67108832,
        27u32 => 134217694,
        28u32 => 268435426,
        29u32 => 536870910,
        30u32 => 1073741820,
        _ => 0,
    }
}

/// The symbol whose code is the `i`-th of length `l`.
pub open spec fn code_symbol(l: u32, i: u32) -> int {
    match l {
        5u32 => match i {
            0u32 => 48,
            1u32 => 49,
            2u32 => 50,
            3u32 => 97,
            4u32 => 99,
            5u32 => 101,
            6u32 => 105,
            7u32 => 111,
            8u32 => 115,
            9u32 => 116,
            _ => -1,
        },
        6u32 => match i {
            0u32 => 32,
            1u32 => 37,
            2u32 => 45,
            3u32 => 46,
            4u32 => 47,
            5u32 => 51,
            6u32 => 52,
            7u32 => 53,
            8u32 => 54,
            9u32 => 55,
            10u32 => 56,
            11u32 => 57,
            12u32 => 61,
            13u32 => 65,
            14u32 => 95,
            15u32 => 98,
            16u32 => 100,
            17u32 => 102,
            18u32 => 103,
            19u32 => 104,
            20u32 => 108,
            21u32 => 109,
            22u32 => 110,
            23u32 => 112,
            24u32 => 114,
            25u32 => 117,
            _ => -1,
        },
        7u32 => match i {
            0u32 => 58,
            1u32 => 66,
            2u32 => 67,
            3u32 => 68,
            4u32 => 69,
            5u32 => 70,
            6u32 => 71,
            7u32 => 72,
            8u32 => 73,
            9u32 => 74,
            10u32 => 75,
            11u32 => 76,
            12u32 => 77,
            13u32 => 78,
            14u32 => 79,
            15u32 => 80,
            16u32 => 81,
            17u32 => 82,
            18u32 => 83,
            19u32 => 84,
            20u32 => 85,
            21u32 => 86,
            22u32 => 87,
            23u32 => 89,
            24u32 => 106,
            25u32 => 107,
            26u32 => 113,
            27u32 => 118,
            28u32 => 119,
            29u32 => 120,
            30u32 => 121,
            31u32 => 122,
            _ => -1,
        },
        8u32 => match i {
            0u32 => 38,
            1u32 => 42,
            2u32 => 44,
            3u32 => 59,
            4u32 => 88,
            5u32 => 90,
            _ => -1,
        },
        10u32 => match i {
            0u32 => 33,
            1u32 => 34,
            2u32 => 40,
            3u32 => 41,
            4u32 => 63,
            _ => -1,
        },
        11u32 => match i {
            0u32 => 39,
            1u32 => 43,
            2u32 => 124,
            _ => -1,
        },
        12u32 => match i {
            0u32 => 35,
            1u32 => 62,
            _ => -1,
        },
        13u32 => match i {
            0u32 => 0,
            1u32 => 36,
            2u32 => 64,
            3u32 => 91,
            4u32 => 93,
            5u32 => 126,
            _ => -1,
        },
        14u32 => match i {
            0u32 => 94,
            1u32 => 125,
            _ => -1,
        },
        15u32 => match i {
            0u32 => 60,
            1u32 => 96,
            2u32 => 123,
            _ => -1,
        },
        19u32 => match i {
            0u32 => 92,
            1u32 => 195,
            2u32 => 208,
            _ => -1,
        },
        20u32 => match i {
            0u32 => 128,
            1u32 => 130,
            2u32 => 131,
            3u32 => 162,
            4u32 => 184,
            5u32 => 194,
            6u32 => 224,
            7u32 => 226,
            _ => -1,
        },
        21u32 => match i {
            0u32 => 153,
            1u32 => 161,
            2u32 => 167,
            3u32 => 172,
            4u32 => 176,
            5u32 => 177,
            6u32 => 179,
            7u32 => 209,
            8u32 => 216,
            9u32 => 217,
            10u32 => 227,
            11u32 => 229,
            12u32 => 230,
            _ => -1,
        },
        22u32 => match i {
            0u32 => 129,
            1u32 => 132,
            2u32 => 133,
            3u32 => 134,
            4u32 => 136,
            5u32 => 146,
            6u32 => 154,
            7u32 => 156,
            8u32 => 160,
            9u32 => 163,
            10u32 => 164,
            11u32 => 169,
            12u32 => 170,
            13u32 => 173,
            14u32 => 178,
            15u32 => 181,
            16u32 => 185,
            17u32 => 186,
            18u32 => 187,
            19u32 => 189,
            20u32 => 190,
            21u32 => 196,
            22u32 => 198,
            23u32 => 228,
            24u32 => 232,
            25u32 => 233,
            _ => -1,
        },
        23u32 => match i {
            0u32 => 1,
            1u32 => 135,
            2u32 => 137,
            3u32 => 138,
            4u32 => 139,
            5u32 => 140,
            6u32 => 141,
            7u32 => 143,
            8u32 => 147,
            9u32 => 149,
            10u32 => 150,
            11u32 => 151,
            12u32 => 152,
            13u32 => 155,
            14u32 => 157,
            15u32 => 158,
            16u32 => 165,
            17u32 => 166,
            18u32 => 168,
            19u32 => 174,
            20u32 => 175,
            21u32 => 180,
            22u32 => 182,
            23u32 => 183,
            24u32 => 188,
            25u32 => 191,
            26u32 => 197,
            27u32 => 231,
            28u32 => 239,
            _ => -1,
        },
        24u32 => match i {
            0u32 => 9,
            1u32 => 142,
            2u32 => 144,
            3u32 => 145,
            4u32 => 148,
            5u32 => 159,
            6u32 => 171,
            7u32 => 206,
            8u32 => 215,
            9u32 => 225,
            10u32 => 236,
            11u32 => 237,
            _ => -1,
        },
        25u32 => match i {
            0u32 => 199,
            1u32 => 207,
            2u32 => 234,
            3u32 => 235,
            _ => -1,
        },
        26u32 => match i {
            0u32 => 192,
            1u32 => 193,
            2u32 => 200,
            3u32 => 201,
            4u32 => 202,
            5u32 => 205,
            6u32 => 210,
            7u32 => 213,
            8u32 => 218,
            9u32 => 219,
            10u32 => 238,
            11u32 => 240,
            12u32 => 242,
            13u32 => 243,
            14u32 => 255,
            _ => -1,
        },
        27u32 => match i {
            0u32 => 203,
            1u32 => 204,
            2u32 => 211,
            3u32 => 212,
            4u32 => 214,
            5u32 => 221,
            6u32 => 222,
            7u32 => 223,
            8u32 => 241,
            9u32 => 244,
            10u32 => 245,
            11u32 => 246,
            12u32 => 247,
            13u32 => 248,
            14u32 => 250,
            15u32 => 251,
            16u32 => 252,
            17u32 => 253,
            18u32 => 254,
            _ => -1,
        },
        28u32 => match i {
            0u32 => 2,
            1u32 => 3,
            2u32 => 4,
            3u32 => 5,
            4u32 => 6,
            5u32 => 7,
            6u32 => 8,
            7u32 => 11,
            8u32 => 12,
            9u32 => 14,
            10u32 => 15,
            11u32 => 16,
            12u32 => 17,
            13u32 => 18,
            14u32 => 19,
            15u32 => 20,
            16u32 => 21,
            17u32 => 23,
            18u32 => 24,
            19u32 => 25,
            20u32 => 26,
            21u32 => 27,
            22u32 => 28,
            23u32 => 29,
            24u32 => 30,
            25u32 => 31,
            26u32 => 127,
            27u32 => 220,
            28u32 => 249,
            _ => -1,
        },
        30u32 => match i {
            0u32 => 10,
            1u32 => 13,
            2u32 => 22,
            3u32 => 256,
            _ => -1,
        },
        _ => -1,
    }
}

/// Every symbol's code lies in its length's range, and that range's
/// symbol at its offset is the symbol.
proof fn lemma_table()
    ensures
        forall|s: usize|
            s < 257 ==> {
                let (c, l) = #[trigger] huff_code(s);
                &&& 5 <= l <= 30
                &&& first_code(l) <= c < first_code(l) + code_count(l)
                &&& code_symbol(l, (c - first_code(l)) as u32) == s
            },
{
}


/// `2^l` for `l` up to 31, as a table.
spec fn pow_table(l: u32) -> nat {
    match l {
        0u32 => 1,
        1u32 => 2,
        2u32 => 4,
        3u32 => 8,
        4u32 => 16,
        5u32 => 32,
        6u32 => 64,
        7u32 => 128,
        8u32 => 256,
        9u32 => 512,
        10u32 => 1024,
        11u32 => 2048,
        12u32 => 4096,
        13u32 => 8192,
        14u32 => 16384,
        15u32 => 32768,
        16u32 => 65536,
        17u32 => 131072,
        18u32 => 262144,
        19u32 => 524288,
        20u32 => 1048576,
        21u32 => 2097152,
        22u32 => 4194304,
        23u32 => 8388608,
        24u32 => 16777216,
        25u32 => 33554432,
        26u32 => 67108864,
        27u32 => 134217728,
        28u32 => 268435456,
        29u32 => 536870912,
        30u32 => 1073741824,
        _ => 2147483648,
    }
}

proof fn lemma_p2_value(l: u32)
    requires
        l <= 31,
    ensures
        p2(l as nat) == pow_table(l),
    decreases l,
{
    if l > 0 {
        lemma_p2_value((l - 1) as u32);
    }
}

/// Each length's codes start right after the previous length's end,
/// doubled; and they all fit in their bits.
proof fn lemma_lengths(l: u32)
    requires
        5 <= l <= 30,
    ensures
        l < 30 ==> first_code((l + 1) as u32) == 2 * (first_code(l) + code_count(l)),
        first_code(l) + code_count(l) <= p2(l as nat),
        first_code(l) + code_count(l) <= 0x4000_0000,
{
    lemma_p2_value(l);
}

/// The codes of a length `l` start at or beyond where every shorter
/// length `j`'s codes end, shifted up by the difference.
proof fn lemma_canonical(j: u32, l: u32)
    requires
        5 <= j < l <= 30,
    ensures
        first_code(l) >= (first_code(j) + code_count(j)) * p2((l - j) as nat),
    decreases l - j,
{
    lemma_lengths(j);
    if l == j + 1 {
        assert(p2(1) == 2) by {
            reveal_with_fuel(p2, 2);
        }
        assert((l - j) as nat == 1nat);
        assert(first_code(l) == 2 * (first_code(j) + code_count(j)));
        assert(p2((l - j) as nat) == 2);
        assert((first_code(j) + code_count(j)) * p2((l - j) as nat) == 2 * (first_code(j)
            + code_count(j))) by (nonlinear_arith)
            requires
                p2((l - j) as nat) == 2,
        ;
    } else {
        let l1 = (l - 1) as u32;
        lemma_canonical(j, l1);
        lemma_lengths(l1);
        let a = first_code(j) + code_count(j);
        let q = p2((l1 - j) as nat);
        let n = (l - j) as nat;
        assert(n >= 1);
        assert((l1 - j) as nat == (n - 1) as nat);
        assert(p2(n) == 2 * p2((n - 1) as nat));
        assert(first_code(l) == 2 * (first_code(l1) + code_count(l1)));
        assert(first_code(l) >= a * p2(n)) by (nonlinear_arith)
            requires
                first_code(l) == 2 * (first_code(l1) + code_count(l1)),
                first_code(l1) >= a * q,
                p2(n) == 2 * q,
        ;
    }
}

proof fn lemma_bv_shr(c: u32, k: u32)
    by (bit_vector)
    requires
        k < 31,
    ensures
        c >> (k + 1) == (c >> k) / 2,
        (c >> k) & 1 == (c >> k) % 2,
        c >> 0u32 == c,
{
}

proof fn lemma_bv_shl(x: u32, b: u32)
    by (bit_vector)
    requires
        x < 0x8000_0000,
        b <= 1,
    ensures
        (x << 1) | b == 2 * x + b,
{
}

proof fn lemma_bv_one(p: u32)
    by (bit_vector)
    requires
        p < 31,
    ensures
        1u32 << (p + 1) == 2 * (1u32 << p),
        1u32 << 0u32 == 1,
{
}

/// A right shift divides by a power of two.
proof fn lemma_shr_div(c: u32, k: u32)
    requires
        k < 32,
    ensures
        (c >> k) as nat == c as nat / p2(k as nat),
    decreases k,
{
    lemma_bv_shr(c, 0);
    if k == 0 {
        assert(p2(0) == 1);
    } else {
        lemma_shr_div(c, (k - 1) as u32);
        lemma_bv_shr(c, (k - 1) as u32);
        lemma_p2_pos((k - 1) as nat);
        vstd::arithmetic::div_mod::lemma_div_denominator(c as int, p2((k - 1) as nat) as int, 2);
        assert(p2(k as nat) == p2((k - 1) as nat) * 2);
    }
}

proof fn lemma_p2_pos(n: nat)
    ensures
        p2(n) >= 1,
    decreases n,
{
    if n > 0 {
        lemma_p2_pos((n - 1) as nat);
    }
}

/// `1 << p` is `2^p`.
proof fn lemma_one_shl(p: u32)
    requires
        p < 32,
    ensures
        (1u32 << p) as nat == p2(p as nat),
    decreases p,
{
    lemma_bv_one(0);
    if p > 0 {
        lemma_one_shl((p - 1) as u32);
        lemma_bv_one((p - 1) as u32);
    }
}


/// The lookup finds no symbol for a code no symbol has.
proof fn lemma_lookup_absent(code: u32, len: u32, i: int)
    requires
        0 <= i <= 257,
        forall|k: usize| i <= k < 257 ==> #[trigger] huff_code(k) != (code, len),
    ensures
        lookup_from(code, len, i) is None,
    decreases 257 - i,
{
    if i < 257 {
        assert(huff_code(i as usize) != (code, len));
        lemma_lookup_absent(code, len, i + 1);
    }
}

/// The lookup of a symbol's code finds that symbol: no other symbol
/// has the same code.
proof fn lemma_lookup_symbol(sym: usize, i: int)
    requires
        sym < 257,
        0 <= i <= sym,
    ensures
        lookup_from(huff_code(sym).0, huff_code(sym).1, i) == Some(sym as int),
    decreases sym - i,
{
    lemma_table();
    if i < sym {
        let k = i as usize;
        assert(huff_code(k) != huff_code(sym)) by {
            if huff_code(k) == huff_code(sym) {
                assert(code_symbol(huff_code(k).1, (huff_code(k).0 - first_code(huff_code(k).1)) as u32) == k);
            }
        }
        lemma_lookup_symbol(sym, i + 1);
    }
}

/// The first `j` bits of a code are no symbol's code.
proof fn lemma_prefix_absent(sym: usize, j: u32)
    requires
        sym < 257,
        1 <= j < huff_code(sym).1,
    ensures
        forall|k: usize| k < 257 ==> #[trigger] huff_code(k) != (
            huff_code(sym).0 >> ((huff_code(sym).1 - j) as u32),
            j,
        ),
{
    lemma_table();
    let (c, l) = huff_code(sym);
    assert(huff_code(sym) == (c, l));
    let m = (l - j) as u32;
    let p = c >> m;
    lemma_shr_div(c, m);
    lemma_p2_pos(m as nat);
    assert forall|k: usize| k < 257 implies #[trigger] huff_code(k) != (p, j) by {
        if huff_code(k) == (p, j) {
            lemma_canonical(j, l);
            let d = p2(m as nat) as int;
            let x = (first_code(j) + code_count(j)) as int;
            vstd::arithmetic::div_mod::lemma_div_is_ordered(first_code(l) as int, c as int, d);
            vstd::arithmetic::div_mod::lemma_div_is_ordered(x * d, first_code(l) as int, d);
            vstd::arithmetic::div_mod::lemma_div_by_multiple(x, d);
        }
    }
}

/// A run of up to seven one bits is no symbol's code.
proof fn lemma_ones_absent(q: u32)
    requires
        1 <= q <= 7,
    ensures
        forall|k: usize| k < 257 ==> #[trigger] huff_code(k) != (((1u32 << q) - 1) as u32, q),
{
    lemma_table();
    lemma_one_shl(q);
    lemma_p2_value(q);
}


/// Bits fed to the decoder one after another.
pub open spec fn run_bit_seq(st: HuffState, bits: Seq<bool>) -> Option<HuffState>
    decreases bits.len(),
{
    if bits.len() == 0 {
        Some(st)
    } else {
        match run_bit_seq(st, bits.drop_last()) {
            Some(x) => step_bit(
                x,
                if bits.last() {
                    1u32
                } else {
                    0u32
                },
            ),
            None => None,
        }
    }
}

/// Feeding two runs of bits is feeding the first, then the second.
proof fn lemma_run_append(st: HuffState, x: Seq<bool>, y: Seq<bool>)
    ensures
        run_bit_seq(st, x + y) == match run_bit_seq(st, x) {
            Some(m) => run_bit_seq(m, y),
            None => None,
        },
    decreases y.len(),
{
    if y.len() == 0 {
        assert(x + y =~= x);
    } else {
        lemma_run_append(st, x, y.drop_last());
        assert((x + y).drop_last() =~= x + y.drop_last());
        assert((x + y).last() == y.last());
    }
}

/// Feeding the first `j` bits of a symbol's code from a clean state
/// leaves those bits pending; feeding all of them emits the symbol.
proof fn lemma_symbol_bits(out: Seq<u8>, sym: u8, j: u32)
    requires
        j <= huff_code(sym as usize).1,
    ensures
        ({
            let (c, l) = huff_code(sym as usize);
            &&& j < l ==> run_bit_seq((out, 0u32, 0u32), code_bits(sym).take(j as int)) == Some(
                (out, c >> ((l - j) as u32), j),
            )
            &&& j == l ==> run_bit_seq((out, 0u32, 0u32), code_bits(sym).take(j as int)) == Some(
                (out.push(sym), 0u32, 0u32),
            )
        }),
    decreases j,
{
    lemma_table();
    let (c, l) = huff_code(sym as usize);
    assert(huff_code(sym as usize) == (c, l));
    lemma_lengths(l);
    if j == 0 {
        assert(code_bits(sym).take(0) =~= Seq::<bool>::empty());
        lemma_shr_div(c, l);
        lemma_p2_pos(l as nat);
        vstd::arithmetic::div_mod::lemma_basic_div(c as int, p2(l as nat) as int);
    } else {
        lemma_symbol_bits(out, sym, (j - 1) as u32);
        let bits = code_bits(sym).take(j as int);
        assert(bits.drop_last() =~= code_bits(sym).take(j - 1));
        assert(bits.last() == code_bits(sym)[j - 1]);
        let y = c >> ((l - j) as u32);
        lemma_bv_shr(c, (l - j) as u32);
        assert((l - (j - 1)) as u32 == ((l - j) as u32) + 1);
        let b: u32 = if bits.last() {
            1u32
        } else {
            0u32
        };
        assert(b == y % 2);
        lemma_bv_shl(y / 2, y % 2);
        assert(((c >> ((l - (j - 1)) as u32)) << 1u32) | b == y);
        if j < l {
            lemma_prefix_absent(sym as usize, j);
            lemma_lookup_absent(y, j, 0);
        } else {
            lemma_lookup_symbol(sym as usize, 0);
        }
    }
}


/// Feeding the codes of a string's symbols emits the string.
proof fn lemma_run_symbols(s: Seq<u8>)
    ensures
        run_bit_seq((Seq::<u8>::empty(), 0u32, 0u32), huff_bits(s)) == Some((s, 0u32, 0u32)),
    decreases s.len(),
{
    if s.len() == 0 {
    } else {
        let init = s.drop_last();
        let sym = s.last();
        lemma_run_symbols(init);
        lemma_run_append((Seq::<u8>::empty(), 0u32, 0u32), huff_bits(init), code_bits(sym));
        let l = huff_code(sym as usize).1;
        lemma_symbol_bits(init, sym, l);
        assert(code_bits(sym).take(l as int) =~= code_bits(sym));
        assert(init.push(sym) =~= s);
    }
}

/// Feeding up to seven one bits from a clean state leaves them pending.
proof fn lemma_run_ones(out: Seq<u8>, q: u32)
    requires
        q <= 7,
    ensures
        run_bit_seq((out, 0u32, 0u32), Seq::new(q as nat, |j: int| true)) == Some(
            (out, ((1u32 << q) - 1) as u32, q),
        ),
    decreases q,
{
    lemma_bv_one(0);
    if q == 0 {
        assert(Seq::new(0, |j: int| true) =~= Seq::<bool>::empty());
    } else {
        let q1 = (q - 1) as u32;
        lemma_run_ones(out, q1);
        let bits = Seq::new(q as nat, |j: int| true);
        assert(bits.drop_last() =~= Seq::new(q1 as nat, |j: int| true));
        lemma_one_shl(q1);
        lemma_one_shl(q);
        lemma_bv_one(q1);
        lemma_p2_value(q1);
        let x = ((1u32 << q1) - 1) as u32;
        lemma_bv_shl(x, 1);
        assert((x << 1u32) | 1u32 == ((1u32 << q) - 1) as u32);
        lemma_ones_absent(q);
        lemma_lookup_absent(((1u32 << q) - 1) as u32, q, 0);
    }
}

proof fn lemma_bv_shr8(b: u8, k: u8)
    by (bit_vector)
    requires
        k < 8,
    ensures
        k < 7 ==> b >> (k + 1) == (b >> k) / 2,
        (b >> k) & 1 == (b >> k) % 2,
        b >> 0u8 == b,
{
}

/// A right shift of a byte divides by a power of two.
proof fn lemma_shr_div8(b: u8, k: u8)
    requires
        k < 8,
    ensures
        (b >> k) as nat == b as nat / p2(k as nat),
    decreases k,
{
    lemma_bv_shr8(b, 0);
    if k == 0 {
        assert(p2(0) == 1);
    } else {
        lemma_shr_div8(b, (k - 1) as u8);
        lemma_bv_shr8(b, (k - 1) as u8);
        lemma_p2_pos((k - 1) as nat);
        vstd::arithmetic::div_mod::lemma_div_denominator(b as int, p2((k - 1) as nat) as int, 2);
        assert(p2(k as nat) == p2((k - 1) as nat) * 2);
    }
}

/// A run of bits read as a number is below `2^len`, and its `k`-th bit
/// is the `k`-th of the run.
proof fn lemma_bits_digit(b: Seq<bool>, k: int)
    requires
        0 <= k < b.len(),
    ensures
        bits_value(b) < p2(b.len()),
        (bits_value(b) / p2((b.len() - 1 - k) as nat)) % 2 == if b[k] {
            1nat
        } else {
            0nat
        },
    decreases b.len(),
{
    let n = b.len();
    let v0 = bits_value(b.drop_last());
    let t: nat = if b.last() {
        1
    } else {
        0
    };
    assert(bits_value(b) == 2 * v0 + t);
    assert(p2(n) == 2 * p2((n - 1) as nat));
    if n == 1 {
        assert(v0 == 0);
        assert(p2(0) == 1);
        assert(b[k] == b.last());
        assert(bits_value(b) / 1 == bits_value(b));
    } else {
        let kk = if k < n - 1 {
            k
        } else {
            0
        };
        lemma_bits_digit(b.drop_last(), kk);
        if k == n - 1 {
            assert(p2(0) == 1);
            assert(b[k] == b.last());
            assert(((n - 1 - k) as nat) == 0nat);
            assert((2 * v0 + t) / 1 == 2 * v0 + t);
            assert((2 * v0 + t) % 2 == t) by (nonlinear_arith)
                requires
                    t <= 1,
            ;
        } else {
            let m = (n - 1 - k) as nat;
            lemma_p2_pos((m - 1) as nat);
            assert(p2(m) == 2 * p2((m - 1) as nat));
            vstd::arithmetic::div_mod::lemma_div_denominator((2 * v0 + t) as int, 2, p2((m - 1) as nat) as int);
            vstd::arithmetic::div_mod::lemma_div_multiples_vanish_fancy(v0 as int, t as int, 2);
            assert(b.drop_last()[k] == b[k]);
            assert(((b.drop_last().len() - 1 - k) as nat) == (m - 1) as nat);
        }
    }
}

/// Feeding bits `k..8` of a byte is feeding the same bits of the run it
/// packs.
proof fn lemma_step_byte(st: HuffState, v: u8, b8: Seq<bool>, k: int)
    requires
        b8.len() == 8,
        v as nat == bits_value(b8),
        0 <= k <= 8,
    ensures
        step_byte(st, v, k) == run_bit_seq(st, b8.skip(k)),
    decreases 8 - k,
{
    if k == 8 {
        assert(b8.skip(8) =~= Seq::<bool>::empty());
    } else {
        lemma_bits_digit(b8, k);
        lemma_shr_div8(v, (7 - k) as u8);
        let bit = b8[k];
        lemma_bv_shr8(v, (7 - k) as u8);
        assert(((7 - k) as u8) as nat == (b8.len() - 1 - k) as nat);
        assert(bit_at(v, k) == if bit {
            1u32
        } else {
            0u32
        });
        lemma_step_byte(step_bit(st, bit_at(v, k))->Some_0, v, b8, k + 1);
        assert(b8.skip(k) =~= seq![bit] + b8.skip(k + 1));
        lemma_run_append(st, seq![bit], b8.skip(k + 1));
        assert(seq![bit].drop_last() =~= Seq::<bool>::empty());
        assert(run_bit_seq(st, Seq::<bool>::empty()) == Some(st));
        assert(run_bit_seq(st, seq![bit]) == step_bit(st, bit_at(v, k)));
    }
}


/// The decoder fed the bytes a run of bits packs to is fed the run;
/// the run packs to one byte per eight bits.
proof fn lemma_run_packed(b: Seq<bool>)
    requires
        b.len() % 8 == 0,
    ensures
        run_bits(pack_bits(b)) == run_bit_seq((Seq::<u8>::empty(), 0u32, 0u32), b),
        pack_bits(b).len() == b.len() / 8,
    decreases b.len(),
{
    let init = (Seq::<u8>::empty(), 0u32, 0u32);
    if b.len() == 0 {
        assert(pack_bits(b) =~= Seq::<u8>::empty());
    } else {
        let k = (b.len() - 8) as int;
        let head = b.take(k);
        let tail = b.skip(k);
        lemma_run_packed(head);
        lemma_bits_digit(tail, 0);
        assert(p2(8) == 256) by {
            reveal_with_fuel(p2, 9);
        }
        let v = bits_value(tail);
        let bytes = pack_bits(b);
        assert(bytes == pack_bits(head).push(v as u8));
        assert(bytes.drop_last() =~= pack_bits(head));
        assert(bytes.last() == v as u8);
        assert(head + tail =~= b);
        lemma_run_append(init, head, tail);
        match run_bit_seq(init, head) {
            Some(m) => {
                lemma_step_byte(m, v as u8, tail, 0);
                assert(tail.skip(0) =~= tail);
            },
            None => {},
        }
    }
}

/// Decoding a Huffman-coded string gives the string back, and the coded
/// string is as long as announced: the code is a prefix code, and the
/// padding is too short and too uniform to read as a symbol.
pub proof fn lemma_huffman_round_trip(s: Seq<u8>)
    ensures
        huffman_decode_spec(huffman_encode_spec(s)) == Some(s),
        huffman_encode_spec(s).len() == huffman_len_spec(s),
{
    let init = (Seq::<u8>::empty(), 0u32, 0u32);
    let bits = huff_bits(s);
    let pad = pad_bits(bits.len());
    let q = ((8 - bits.len() % 8) % 8) as u32;
    assert(pad.len() == q);
    let all = bits + pad;
    assert(all.len() % 8 == 0);
    lemma_run_packed(all);
    lemma_run_append(init, bits, pad);
    lemma_run_symbols(s);
    lemma_run_ones(s, q);
    assert(pad =~= Seq::new(q as nat, |j: int| true));
    assert(all.len() / 8 == (bits.len() + 7) / 8);
}

} // verus!
