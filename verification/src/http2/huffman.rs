//! HPACK Huffman decoding: the canonical code of the HPACK
//! specification, decoded a bit at a time.

use vstd::prelude::*;

use super::error::Http2Error;
use super::hpack::p2;

verus! {

/// The `(code, bit_length)` of each symbol; symbol 256 is end-of-string.
pub open spec fn huff_code(sym: usize) -> (u32, u32) {
    match sym {
        0 => (0x1ff8u32, 13u32),
        1 => (0x7fffd8u32, 23u32),
        2 => (0xfffffe2u32, 28u32),
        3 => (0xfffffe3u32, 28u32),
        4 => (0xfffffe4u32, 28u32),
        5 => (0xfffffe5u32, 28u32),
        6 => (0xfffffe6u32, 28u32),
        7 => (0xfffffe7u32, 28u32),
        8 => (0xfffffe8u32, 28u32),
        9 => (0xffffeau32, 24u32),
        10 => (0x3ffffffcu32, 30u32),
        11 => (0xfffffe9u32, 28u32),
        12 => (0xfffffeau32, 28u32),
        13 => (0x3ffffffdu32, 30u32),
        14 => (0xfffffebu32, 28u32),
        15 => (0xfffffecu32, 28u32),
        16 => (0xfffffedu32, 28u32),
        17 => (0xfffffeeu32, 28u32),
        18 => (0xfffffefu32, 28u32),
        19 => (0xffffff0u32, 28u32),
        20 => (0xffffff1u32, 28u32),
        21 => (0xffffff2u32, 28u32),
        22 => (0x3ffffffeu32, 30u32),
        23 => (0xffffff3u32, 28u32),
        24 => (0xffffff4u32, 28u32),
        25 => (0xffffff5u32, 28u32),
        26 => (0xffffff6u32, 28u32),
        27 => (0xffffff7u32, 28u32),
        28 => (0xffffff8u32, 28u32),
        29 => (0xffffff9u32, 28u32),
        30 => (0xffffffau32, 28u32),
        31 => (0xffffffbu32, 28u32),
        32 => (0x14u32, 6u32),
        33 => (0x3f8u32, 10u32),
        34 => (0x3f9u32, 10u32),
        35 => (0xffau32, 12u32),
        36 => (0x1ff9u32, 13u32),
        37 => (0x15u32, 6u32),
        38 => (0xf8u32, 8u32),
        39 => (0x7fau32, 11u32),
        40 => (0x3fau32, 10u32),
        41 => (0x3fbu32, 10u32),
        42 => (0xf9u32, 8u32),
        43 => (0x7fbu32, 11u32),
        44 => (0xfau32, 8u32),
        45 => (0x16u32, 6u32),
        46 => (0x17u32, 6u32),
        47 => (0x18u32, 6u32),
        48 => (0x0u32, 5u32),
        49 => (0x1u32, 5u32),
        50 => (0x2u32, 5u32),
        51 => (0x19u32, 6u32),
        52 => (0x1au32, 6u32),
        53 => (0x1bu32, 6u32),
        54 => (0x1cu32, 6u32),
        55 => (0x1du32, 6u32),
        56 => (0x1eu32, 6u32),
        57 => (0x1fu32, 6u32),
        58 => (0x5cu32, 7u32),
        59 => (0xfbu32, 8u32),
        60 => (0x7ffcu32, 15u32),
        61 => (0x20u32, 6u32),
        62 => (0xffbu32, 12u32),
        63 => (0x3fcu32, 10u32),
        64 => (0x1ffau32, 13u32),
        65 => (0x21u32, 6u32),
        66 => (0x5du32, 7u32),
        67 => (0x5eu32, 7u32),
        68 => (0x5fu32, 7u32),
        69 => (0x60u32, 7u32),
        70 => (0x61u32, 7u32),
        71 => (0x62u32, 7u32),
        72 => (0x63u32, 7u32),
        73 => (0x64u32, 7u32),
        74 => (0x65u32, 7u32),
        75 => (0x66u32, 7u32),
        76 => (0x67u32, 7u32),
        77 => (0x68u32, 7u32),
        78 => (0x69u32, 7u32),
        79 => (0x6au32, 7u32),
        80 => (0x6bu32, 7u32),
        81 => (0x6cu32, 7u32),
        82 => (0x6du32, 7u32),
        83 => (0x6eu32, 7u32),
        84 => (0x6fu32, 7u32),
        85 => (0x70u32, 7u32),
        86 => (0x71u32, 7u32),
        87 => (0x72u32, 7u32),
        88 => (0xfcu32, 8u32),
        89 => (0x73u32, 7u32),
        90 => (0xfdu32, 8u32),
        91 => (0x1ffbu32, 13u32),
        92 => (0x7fff0u32, 19u32),
        93 => (0x1ffcu32, 13u32),
        94 => (0x3ffcu32, 14u32),
        95 => (0x22u32, 6u32),
        96 => (0x7ffdu32, 15u32),
        97 => (0x3u32, 5u32),
        98 => (0x23u32, 6u32),
        99 => (0x4u32, 5u32),
        100 => (0x24u32, 6u32),
        101 => (0x5u32, 5u32),
        102 => (0x25u32, 6u32),
        103 => (0x26u32, 6u32),
        104 => (0x27u32, 6u32),
        105 => (0x6u32, 5u32),
        106 => (0x74u32, 7u32),
        107 => (0x75u32, 7u32),
        108 => (0x28u32, 6u32),
        109 => (0x29u32, 6u32),
        110 => (0x2au32, 6u32),
        111 => (0x7u32, 5u32),
        112 => (0x2bu32, 6u32),
        113 => (0x76u32, 7u32),
        114 => (0x2cu32, 6u32),
        115 => (0x8u32, 5u32),
        116 => (0x9u32, 5u32),
        117 => (0x2du32, 6u32),
        118 => (0x77u32, 7u32),
        119 => (0x78u32, 7u32),
        120 => (0x79u32, 7u32),
        121 => (0x7au32, 7u32),
        122 => (0x7bu32, 7u32),
        123 => (0x7ffeu32, 15u32),
        124 => (0x7fcu32, 11u32),
        125 => (0x3ffdu32, 14u32),
        126 => (0x1ffdu32, 13u32),
        127 => (0xffffffcu32, 28u32),
        128 => (0xfffe6u32, 20u32),
        129 => (0x3fffd2u32, 22u32),
        130 => (0xfffe7u32, 20u32),
        131 => (0xfffe8u32, 20u32),
        132 => (0x3fffd3u32, 22u32),
        133 => (0x3fffd4u32, 22u32),
        134 => (0x3fffd5u32, 22u32),
        135 => (0x7fffd9u32, 23u32),
        136 => (0x3fffd6u32, 22u32),
        137 => (0x7fffdau32, 23u32),
        138 => (0x7fffdbu32, 23u32),
        139 => (0x7fffdcu32, 23u32),
        140 => (0x7fffddu32, 23u32),
        141 => (0x7fffdeu32, 23u32),
        142 => (0xffffebu32, 24u32),
        143 => (0x7fffdfu32, 23u32),
        144 => (0xffffecu32, 24u32),
        145 => (0xffffedu32, 24u32),
        146 => (0x3fffd7u32, 22u32),
        147 => (0x7fffe0u32, 23u32),
        148 => (0xffffeeu32, 24u32),
        149 => (0x7fffe1u32, 23u32),
        150 => (0x7fffe2u32, 23u32),
        151 => (0x7fffe3u32, 23u32),
        152 => (0x7fffe4u32, 23u32),
        153 => (0x1fffdcu32, 21u32),
        154 => (0x3fffd8u32, 22u32),
        155 => (0x7fffe5u32, 23u32),
        156 => (0x3fffd9u32, 22u32),
        157 => (0x7fffe6u32, 23u32),
        158 => (0x7fffe7u32, 23u32),
        159 => (0xffffefu32, 24u32),
        160 => (0x3fffdau32, 22u32),
        161 => (0x1fffddu32, 21u32),
        162 => (0xfffe9u32, 20u32),
        163 => (0x3fffdbu32, 22u32),
        164 => (0x3fffdcu32, 22u32),
        165 => (0x7fffe8u32, 23u32),
        166 => (0x7fffe9u32, 23u32),
        167 => (0x1fffdeu32, 21u32),
        168 => (0x7fffeau32, 23u32),
        169 => (0x3fffddu32, 22u32),
        170 => (0x3fffdeu32, 22u32),
        171 => (0xfffff0u32, 24u32),
        172 => (0x1fffdfu32, 21u32),
        173 => (0x3fffdfu32, 22u32),
        174 => (0x7fffebu32, 23u32),
        175 => (0x7fffecu32, 23u32),
        176 => (0x1fffe0u32, 21u32),
        177 => (0x1fffe1u32, 21u32),
        178 => (0x3fffe0u32, 22u32),
        179 => (0x1fffe2u32, 21u32),
        180 => (0x7fffedu32, 23u32),
        181 => (0x3fffe1u32, 22u32),
        182 => (0x7fffeeu32, 23u32),
        183 => (0x7fffefu32, 23u32),
        184 => (0xfffeau32, 20u32),
        185 => (0x3fffe2u32, 22u32),
        186 => (0x3fffe3u32, 22u32),
        187 => (0x3fffe4u32, 22u32),
        188 => (0x7ffff0u32, 23u32),
        189 => (0x3fffe5u32, 22u32),
        190 => (0x3fffe6u32, 22u32),
        191 => (0x7ffff1u32, 23u32),
        192 => (0x3ffffe0u32, 26u32),
        193 => (0x3ffffe1u32, 26u32),
        194 => (0xfffebu32, 20u32),
        195 => (0x7fff1u32, 19u32),
        196 => (0x3fffe7u32, 22u32),
        197 => (0x7ffff2u32, 23u32),
        198 => (0x3fffe8u32, 22u32),
        199 => (0x1ffffecu32, 25u32),
        200 => (0x3ffffe2u32, 26u32),
        201 => (0x3ffffe3u32, 26u32),
        202 => (0x3ffffe4u32, 26u32),
        203 => (0x7ffffdeu32, 27u32),
        204 => (0x7ffffdfu32, 27u32),
        205 => (0x3ffffe5u32, 26u32),
        206 => (0xfffff1u32, 24u32),
        207 => (0x1ffffedu32, 25u32),
        208 => (0x7fff2u32, 19u32),
        209 => (0x1fffe3u32, 21u32),
        210 => (0x3ffffe6u32, 26u32),
        211 => (0x7ffffe0u32, 27u32),
        212 => (0x7ffffe1u32, 27u32),
        213 => (0x3ffffe7u32, 26u32),
        214 => (0x7ffffe2u32, 27u32),
        215 => (0xfffff2u32, 24u32),
        216 => (0x1fffe4u32, 21u32),
        217 => (0x1fffe5u32, 21u32),
        218 => (0x3ffffe8u32, 26u32),
        219 => (0x3ffffe9u32, 26u32),
        220 => (0xffffffdu32, 28u32),
        221 => (0x7ffffe3u32, 27u32),
        222 => (0x7ffffe4u32, 27u32),
        223 => (0x7ffffe5u32, 27u32),
        224 => (0xfffecu32, 20u32),
        225 => (0xfffff3u32, 24u32),
        226 => (0xfffedu32, 20u32),
        227 => (0x1fffe6u32, 21u32),
        228 => (0x3fffe9u32, 22u32),
        229 => (0x1fffe7u32, 21u32),
        230 => (0x1fffe8u32, 21u32),
        231 => (0x7ffff3u32, 23u32),
        232 => (0x3fffeau32, 22u32),
        233 => (0x3fffebu32, 22u32),
        234 => (0x1ffffeeu32, 25u32),
        235 => (0x1ffffefu32, 25u32),
        236 => (0xfffff4u32, 24u32),
        237 => (0xfffff5u32, 24u32),
        238 => (0x3ffffeau32, 26u32),
        239 => (0x7ffff4u32, 23u32),
        240 => (0x3ffffebu32, 26u32),
        241 => (0x7ffffe6u32, 27u32),
        242 => (0x3ffffecu32, 26u32),
        243 => (0x3ffffedu32, 26u32),
        244 => (0x7ffffe7u32, 27u32),
        245 => (0x7ffffe8u32, 27u32),
        246 => (0x7ffffe9u32, 27u32),
        247 => (0x7ffffeau32, 27u32),
        248 => (0x7ffffebu32, 27u32),
        249 => (0xffffffeu32, 28u32),
        250 => (0x7ffffecu32, 27u32),
        251 => (0x7ffffedu32, 27u32),
        252 => (0x7ffffeeu32, 27u32),
        253 => (0x7ffffefu32, 27u32),
        254 => (0x7fffff0u32, 27u32),
        255 => (0x3ffffeeu32, 26u32),
        256 => (0x3fffffffu32, 30u32),
        _ => (0u32, 0u32),
    }
}

/// The number of symbols in the code: the 256 byte values and
/// end-of-string.
pub const SYMBOL_COUNT: usize = 257;

/// The `(code, bit_length)` of a symbol.
pub fn code_of(sym: usize) -> (r: (u32, u32))
    requires
        sym < SYMBOL_COUNT,
    ensures
        r == huff_code(sym),
{
    match sym {
        0 => (0x1ff8u32, 13u32),
        1 => (0x7fffd8u32, 23u32),
        2 => (0xfffffe2u32, 28u32),
        3 => (0xfffffe3u32, 28u32),
        4 => (0xfffffe4u32, 28u32),
        5 => (0xfffffe5u32, 28u32),
        6 => (0xfffffe6u32, 28u32),
        7 => (0xfffffe7u32, 28u32),
        8 => (0xfffffe8u32, 28u32),
        9 => (0xffffeau32, 24u32),
        10 => (0x3ffffffcu32, 30u32),
        11 => (0xfffffe9u32, 28u32),
        12 => (0xfffffeau32, 28u32),
        13 => (0x3ffffffdu32, 30u32),
        14 => (0xfffffebu32, 28u32),
        15 => (0xfffffecu32, 28u32),
        16 => (0xfffffedu32, 28u32),
        17 => (0xfffffeeu32, 28u32),
        18 => (0xfffffefu32, 28u32),
        19 => (0xffffff0u32, 28u32),
        20 => (0xffffff1u32, 28u32),
        21 => (0xffffff2u32, 28u32),
        22 => (0x3ffffffeu32, 30u32),
        23 => (0xffffff3u32, 28u32),
        24 => (0xffffff4u32, 28u32),
        25 => (0xffffff5u32, 28u32),
        26 => (0xffffff6u32, 28u32),
        27 => (0xffffff7u32, 28u32),
        28 => (0xffffff8u32, 28u32),
        29 => (0xffffff9u32, 28u32),
        30 => (0xffffffau32, 28u32),
        31 => (0xffffffbu32, 28u32),
        32 => (0x14u32, 6u32),
        33 => (0x3f8u32, 10u32),
        34 => (0x3f9u32, 10u32),
        35 => (0xffau32, 12u32),
        36 => (0x1ff9u32, 13u32),
        37 => (0x15u32, 6u32),
        38 => (0xf8u32, 8u32),
        39 => (0x7fau32, 11u32),
        40 => (0x3fau32, 10u32),
        41 => (0x3fbu32, 10u32),
        42 => (0xf9u32, 8u32),
        43 => (0x7fbu32, 11u32),
        44 => (0xfau32, 8u32),
        45 => (0x16u32, 6u32),
        46 => (0x17u32, 6u32),
        47 => (0x18u32, 6u32),
        48 => (0x0u32, 5u32),
        49 => (0x1u32, 5u32),
        50 => (0x2u32, 5u32),
        51 => (0x19u32, 6u32),
        52 => (0x1au32, 6u32),
        53 => (0x1bu32, 6u32),
        54 => (0x1cu32, 6u32),
        55 => (0x1du32, 6u32),
        56 => (0x1eu32, 6u32),
        57 => (0x1fu32, 6u32),
        58 => (0x5cu32, 7u32),
        59 => (0xfbu32, 8u32),
        60 => (0x7ffcu32, 15u32),
        61 => (0x20u32, 6u32),
        62 => (0xffbu32, 12u32),
        63 => (0x3fcu32, 10u32),
        64 => (0x1ffau32, 13u32),
        65 => (0x21u32, 6u32),
        66 => (0x5du32, 7u32),
        67 => (0x5eu32, 7u32),
        68 => (0x5fu32, 7u32),
        69 => (0x60u32, 7u32),
        70 => (0x61u32, 7u32),
        71 => (0x62u32, 7u32),
        72 => (0x63u32, 7u32),
        73 => (0x64u32, 7u32),
        74 => (0x65u32, 7u32),
        75 => (0x66u32, 7u32),
        76 => (0x67u32, 7u32),
        77 => (0x68u32, 7u32),
        78 => (0x69u32, 7u32),
        79 => (0x6au32, 7u32),
        80 => (0x6bu32, 7u32),
        81 => (0x6cu32, 7u32),
        82 => (0x6du32, 7u32),
        83 => (0x6eu32, 7u32),
        84 => (0x6fu32, 7u32),
        85 => (0x70u32, 7u32),
        86 => (0x71u32, 7u32),
        87 => (0x72u32, 7u32),
        88 => (0xfcu32, 8u32),
        89 => (0x73u32, 7u32),
        90 => (0xfdu32, 8u32),
        91 => (0x1ffbu32, 13u32),
        92 => (0x7fff0u32, 19u32),
        93 => (0x1ffcu32, 13u32),
        94 => (0x3ffcu32, 14u32),
        95 => (0x22u32, 6u32),
        96 => (0x7ffdu32, 15u32),
        97 => (0x3u32, 5u32),
        98 => (0x23u32, 6u32),
        99 => (0x4u32, 5u32),
        100 => (0x24u32, 6u32),
        101 => (0x5u32, 5u32),
        102 => (0x25u32, 6u32),
        103 => (0x26u32, 6u32),
        104 => (0x27u32, 6u32),
        105 => (0x6u32, 5u32),
        106 => (0x74u32, 7u32),
        107 => (0x75u32, 7u32),
        108 => (0x28u32, 6u32),
        109 => (0x29u32, 6u32),
        110 => (0x2au32, 6u32),
        111 => (0x7u32, 5u32),
        112 => (0x2bu32, 6u32),
        113 => (0x76u32, 7u32),
        114 => (0x2cu32, 6u32),
        115 => (0x8u32, 5u32),
        116 => (0x9u32, 5u32),
        117 => (0x2du32, 6u32),
        118 => (0x77u32, 7u32),
        119 => (0x78u32, 7u32),
        120 => (0x79u32, 7u32),
        121 => (0x7au32, 7u32),
        122 => (0x7bu32, 7u32),
        123 => (0x7ffeu32, 15u32),
        124 => (0x7fcu32, 11u32),
        125 => (0x3ffdu32, 14u32),
        126 => (0x1ffdu32, 13u32),
        127 => (0xffffffcu32, 28u32),
        128 => (0xfffe6u32, 20u32),
        129 => (0x3fffd2u32, 22u32),
        130 => (0xfffe7u32, 20u32),
        131 => (0xfffe8u32, 20u32),
        132 => (0x3fffd3u32, 22u32),
        133 => (0x3fffd4u32, 22u32),
        134 => (0x3fffd5u32, 22u32),
        135 => (0x7fffd9u32, 23u32),
        136 => (0x3fffd6u32, 22u32),
        137 => (0x7fffdau32, 23u32),
        138 => (0x7fffdbu32, 23u32),
        139 => (0x7fffdcu32, 23u32),
        140 => (0x7fffddu32, 23u32),
        141 => (0x7fffdeu32, 23u32),
        142 => (0xffffebu32, 24u32),
        143 => (0x7fffdfu32, 23u32),
        144 => (0xffffecu32, 24u32),
        145 => (0xffffedu32, 24u32),
        146 => (0x3fffd7u32, 22u32),
        147 => (0x7fffe0u32, 23u32),
        148 => (0xffffeeu32, 24u32),
        149 => (0x7fffe1u32, 23u32),
        150 => (0x7fffe2u32, 23u32),
        151 => (0x7fffe3u32, 23u32),
        152 => (0x7fffe4u32, 23u32),
        153 => (0x1fffdcu32, 21u32),
        154 => (0x3fffd8u32, 22u32),
        155 => (0x7fffe5u32, 23u32),
        156 => (0x3fffd9u32, 22u32),
        157 => (0x7fffe6u32, 23u32),
        158 => (0x7fffe7u32, 23u32),
        159 => (0xffffefu32, 24u32),
        160 => (0x3fffdau32, 22u32),
        161 => (0x1fffddu32, 21u32),
        162 => (0xfffe9u32, 20u32),
        163 => (0x3fffdbu32, 22u32),
        164 => (0x3fffdcu32, 22u32),
        165 => (0x7fffe8u32, 23u32),
        166 => (0x7fffe9u32, 23u32),
        167 => (0x1fffdeu32, 21u32),
        168 => (0x7fffeau32, 23u32),
        169 => (0x3fffddu32, 22u32),
        170 => (0x3fffdeu32, 22u32),
        171 => (0xfffff0u32, 24u32),
        172 => (0x1fffdfu32, 21u32),
        173 => (0x3fffdfu32, 22u32),
        174 => (0x7fffebu32, 23u32),
        175 => (0x7fffecu32, 23u32),
        176 => (0x1fffe0u32, 21u32),
        177 => (0x1fffe1u32, 21u32),
        178 => (0x3fffe0u32, 22u32),
        179 => (0x1fffe2u32, 21u32),
        180 => (0x7fffedu32, 23u32),
        181 => (0x3fffe1u32, 22u32),
        182 => (0x7fffeeu32, 23u32),
        183 => (0x7fffefu32, 23u32),
        184 => (0xfffeau32, 20u32),
        185 => (0x3fffe2u32, 22u32),
        186 => (0x3fffe3u32, 22u32),
        187 => (0x3fffe4u32, 22u32),
        188 => (0x7ffff0u32, 23u32),
        189 => (0x3fffe5u32, 22u32),
        190 => (0x3fffe6u32, 22u32),
        191 => (0x7ffff1u32, 23u32),
        192 => (0x3ffffe0u32, 26u32),
        193 => (0x3ffffe1u32, 26u32),
        194 => (0xfffebu32, 20u32),
        195 => (0x7fff1u32, 19u32),
        196 => (0x3fffe7u32, 22u32),
        197 => (0x7ffff2u32, 23u32),
        198 => (0x3fffe8u32, 22u32),
        199 => (0x1ffffecu32, 25u32),
        200 => (0x3ffffe2u32, 26u32),
        201 => (0x3ffffe3u32, 26u32),
        202 => (0x3ffffe4u32, 26u32),
        203 => (0x7ffffdeu32, 27u32),
        204 => (0x7ffffdfu32, 27u32),
        205 => (0x3ffffe5u32, 26u32),
        206 => (0xfffff1u32, 24u32),
        207 => (0x1ffffedu32, 25u32),
        208 => (0x7fff2u32, 19u32),
        209 => (0x1fffe3u32, 21u32),
        210 => (0x3ffffe6u32, 26u32),
        211 => (0x7ffffe0u32, 27u32),
        212 => (0x7ffffe1u32, 27u32),
        213 => (0x3ffffe7u32, 26u32),
        214 => (0x7ffffe2u32, 27u32),
        215 => (0xfffff2u32, 24u32),
        216 => (0x1fffe4u32, 21u32),
        217 => (0x1fffe5u32, 21u32),
        218 => (0x3ffffe8u32, 26u32),
        219 => (0x3ffffe9u32, 26u32),
        220 => (0xffffffdu32, 28u32),
        221 => (0x7ffffe3u32, 27u32),
        222 => (0x7ffffe4u32, 27u32),
        223 => (0x7ffffe5u32, 27u32),
        224 => (0xfffecu32, 20u32),
        225 => (0xfffff3u32, 24u32),
        226 => (0xfffedu32, 20u32),
        227 => (0x1fffe6u32, 21u32),
        228 => (0x3fffe9u32, 22u32),
        229 => (0x1fffe7u32, 21u32),
        230 => (0x1fffe8u32, 21u32),
        231 => (0x7ffff3u32, 23u32),
        232 => (0x3fffeau32, 22u32),
        233 => (0x3fffebu32, 22u32),
        234 => (0x1ffffeeu32, 25u32),
        235 => (0x1ffffefu32, 25u32),
        236 => (0xfffff4u32, 24u32),
        237 => (0xfffff5u32, 24u32),
        238 => (0x3ffffeau32, 26u32),
        239 => (0x7ffff4u32, 23u32),
        240 => (0x3ffffebu32, 26u32),
        241 => (0x7ffffe6u32, 27u32),
        242 => (0x3ffffecu32, 26u32),
        243 => (0x3ffffedu32, 26u32),
        244 => (0x7ffffe7u32, 27u32),
        245 => (0x7ffffe8u32, 27u32),
        246 => (0x7ffffe9u32, 27u32),
        247 => (0x7ffffeau32, 27u32),
        248 => (0x7ffffebu32, 27u32),
        249 => (0xffffffeu32, 28u32),
        250 => (0x7ffffecu32, 27u32),
        251 => (0x7ffffedu32, 27u32),
        252 => (0x7ffffeeu32, 27u32),
        253 => (0x7ffffefu32, 27u32),
        254 => (0x7fffff0u32, 27u32),
        255 => (0x3ffffeeu32, 26u32),
        256 => (0x3fffffffu32, 30u32),
        _ => (0u32, 0u32),
    }
}

/// The first symbol at or after `i` whose code is exactly `code` in
/// `len` bits.
pub open spec fn lookup_from(code: u32, len: u32, i: int) -> Option<int>
    decreases 257 - i,
{
    if i < 0 || i >= 257 {
        None
    } else if huff_code(i as usize) == (code, len) {
        Some(i)
    } else {
        lookup_from(code, len, i + 1)
    }
}

/// Find the symbol whose code is exactly `code` at `len` bits.
fn lookup(code: u32, len: u32) -> (r: Option<usize>)
    ensures
        r matches Some(s) ==> lookup_from(code, len, 0) == Some(s as int) && s < 257,
        r is None ==> lookup_from(code, len, 0) is None,
{
    let mut i: usize = 0;
    while i < 257
        invariant
            i <= 257,
            lookup_from(code, len, 0) == lookup_from(code, len, i as int),
        decreases 257 - i,
    {
        let (c, l) = code_of(i);
        if l == len && c == code {
            return Some(i);
        }
        i += 1;
    }
    None
}

/// The decoder's state between bits: the symbols so far, and the
/// partial code with its length.
pub type HuffState = (Seq<u8>, u32, u32);

/// Bit `k` (0 = most significant) of a byte.
pub open spec fn bit_at(b: u8, k: int) -> u32 {
    ((b >> ((7 - k) as u8)) & 1u8) as u32
}

/// Feed one bit: extend the partial code; refuse a code longer than 30
/// bits or the end-of-string symbol; emit a symbol when the code
/// matches one.
pub open spec fn step_bit(st: HuffState, bit: u32) -> Option<HuffState> {
    let code = (st.1 << 1u32) | bit;
    let len = st.2 + 1;
    if len > 30 {
        None
    } else {
        match lookup_from(code, len as u32, 0) {
            Some(sym) => if sym == 256 {
                None
            } else {
                Some((st.0.push(sym as u8), 0u32, 0u32))
            },
            None => Some((st.0, code, len as u32)),
        }
    }
}

/// Feed bits `k..8` of a byte.
pub open spec fn step_byte(st: HuffState, b: u8, k: int) -> Option<HuffState>
    decreases 8 - k,
{
    if k < 0 || k >= 8 {
        Some(st)
    } else {
        match step_bit(st, bit_at(b, k)) {
            Some(s1) => step_byte(s1, b, k + 1),
            None => None,
        }
    }
}

/// Feed every bit of the input, most significant first.
pub open spec fn run_bits(input: Seq<u8>) -> Option<HuffState>
    decreases input.len(),
{
    if input.len() == 0 {
        Some((Seq::empty(), 0u32, 0u32))
    } else {
        match run_bits(input.drop_last()) {
            Some(st) => step_byte(st, input.last(), 0),
            None => None,
        }
    }
}

/// The decoded string: every bit fed, then at most seven bits of
/// padding left, all ones.
pub open spec fn huffman_decode_spec(input: Seq<u8>) -> Option<Seq<u8>> {
    match run_bits(input) {
        None => None,
        Some(st) => if st.2 > 7 {
            None
        } else if st.2 > 0 && st.1 != ((1u32 << st.2) - 1) as u32 {
            None
        } else {
            Some(st.0)
        },
    }
}

proof fn lemma_run_none(input: Seq<u8>, j: int)
    requires
        0 <= j <= input.len(),
        run_bits(input.take(j)) is None,
    ensures
        run_bits(input) is None,
    decreases input.len(),
{
    if j == input.len() {
        assert(input.take(j) =~= input);
    } else {
        assert(input.drop_last().take(j) =~= input.take(j));
        lemma_run_none(input.drop_last(), j);
    }
}

/// Decode a Huffman-coded string; EOS in the data, more than seven
/// bits of padding, or padding that is not all ones is refused.
pub fn decode(input: &[u8]) -> (r: Result<Vec<u8>, Http2Error>)
    ensures
        r matches Ok(v) ==> huffman_decode_spec(input@) == Some(v@),
        r is Err ==> huffman_decode_spec(input@) is None && r == Err::<Vec<u8>, Http2Error>(
            Http2Error::HuffmanInvalid,
        ),
{
    let mut out: Vec<u8> = Vec::new();
    let mut code: u32 = 0;
    let mut len: u32 = 0;
    let mut i: usize = 0;
    while i < input.len()
        invariant
            i <= input@.len(),
            run_bits(input@.take(i as int)) == Some((out@, code, len)),
            len <= 30,
        decreases input@.len() - i,
    {
        assert(input@.take(i + 1).drop_last() =~= input@.take(i as int));
        let byte = input[i];
        let ghost st0 = (out@, code, len);
        let mut k: u32 = 0;
        while k < 8
            invariant
                k <= 8,
                len <= 30,
                i < input@.len(),
                byte == input@[i as int],
                run_bits(input@.take(i as int)) == Some(st0),
                step_byte(st0, byte, 0) == step_byte((out@, code, len), byte, k as int),
            decreases 8 - k,
        {
            let ghost pre = (out@, code, len);
            let bit = ((byte >> ((7 - k) as u8)) & 1u8) as u32;
            assert(bit == bit_at(byte, k as int));
            assert(input@.take(i + 1).drop_last() =~= input@.take(i as int));
            assert(input@.take(i + 1).last() == byte);
            code = (code << 1u32) | bit;
            len = len + 1;
            if len > 30 {
                proof {
                    assert(step_bit(pre, bit) is None);
                    assert(step_byte(pre, byte, k as int) is None);
                    assert(run_bits(input@.take(i + 1)) is None);
                    lemma_run_none(input@, i + 1);
                }
                return Err(Http2Error::HuffmanInvalid);
            }
            match lookup(code, len) {
                Some(sym) => {
                    if sym == 256 {
                        proof {
                            assert(step_bit(pre, bit) is None);
                            assert(step_byte(pre, byte, k as int) is None);
                            assert(run_bits(input@.take(i + 1)) is None);
                            lemma_run_none(input@, i + 1);
                        }
                        return Err(Http2Error::HuffmanInvalid);
                    }
                    out.push(sym as u8);
                    code = 0;
                    len = 0;
                },
                None => {},
            }
            k += 1;
        }
        i += 1;
    }
    assert(input@.take(input@.len() as int) =~= input@);
    if len > 7 {
        return Err(Http2Error::HuffmanInvalid);
    }
    if len > 0 {
        assert(1u32 << len >= 1) by (bit_vector)
            requires
                len <= 7,
        ;
        let all_ones = (1u32 << len) - 1;
        if code != all_ones {
            return Err(Http2Error::HuffmanInvalid);
        }
    }
    Ok(out)
}


/// Every code is at most 30 bits long.
proof fn lemma_code_len_bound()
    ensures
        forall|s: usize| s < 257 ==> #[trigger] huff_code(s).1 <= 30,
{
}

/// The bits of a symbol's code, most significant first.
pub open spec fn code_bits(sym: u8) -> Seq<bool> {
    let (c, l) = huff_code(sym as usize);
    Seq::new(l as nat, |j: int| ((c >> ((l - 1 - j) as u32)) & 1u32) == 1u32)
}

/// The codes of a string's symbols, one after another.
pub open spec fn huff_bits(s: Seq<u8>) -> Seq<bool>
    decreases s.len(),
{
    if s.len() == 0 {
        Seq::empty()
    } else {
        huff_bits(s.drop_last()) + code_bits(s.last())
    }
}

/// A run of bits read as a binary number, most significant first.
pub open spec fn bits_value(b: Seq<bool>) -> nat
    decreases b.len(),
{
    if b.len() == 0 {
        0
    } else {
        2 * bits_value(b.drop_last()) + if b.last() {
            1nat
        } else {
            0nat
        }
    }
}

/// The whole bytes of a bit string, eight bits to a byte, most
/// significant first; a trailing part byte is left out.
pub open spec fn pack_bits(b: Seq<bool>) -> Seq<u8>
    decreases b.len(),
{
    if b.len() < 8 {
        Seq::empty()
    } else {
        let k = (b.len() - 8) as int;
        pack_bits(b.take(k)).push(bits_value(b.skip(k)) as u8)
    }
}

/// The all-ones padding that takes `n` bits to a byte boundary.
pub open spec fn pad_bits(n: nat) -> Seq<bool> {
    Seq::new(((8 - n % 8) % 8) as nat, |j: int| true)
}

/// A Huffman-coded string: the codes of its symbols, padded with ones
/// to a whole number of bytes.
pub open spec fn huffman_encode_spec(s: Seq<u8>) -> Seq<u8> {
    pack_bits(huff_bits(s) + pad_bits(huff_bits(s).len()))
}

/// The length of a Huffman-coded string in bytes.
pub open spec fn huffman_len_spec(s: Seq<u8>) -> nat {
    (huff_bits(s).len() + 7) / 8
}

proof fn lemma_p2_small(n: nat)
    requires
        n <= 7,
    ensures
        p2(n) <= 128,
        p2(n + 1) == 2 * p2(n),
{
    reveal_with_fuel(p2, 8);
}

/// The bytes written so far are the packed whole bytes of `bits`, and
/// `cur` holds the `n` bits of the part byte.
spec fn packed(out: Seq<u8>, base: Seq<u8>, cur: u8, n: u8, bits: Seq<bool>) -> bool {
    &&& n < 8
    &&& n as int == bits.len() % 8
    &&& (cur as nat) < p2(n as nat)
    &&& cur as nat == bits_value(bits.skip(bits.len() - n))
    &&& out == base + pack_bits(bits.take(bits.len() - n))
}

/// Append one bit, writing the byte out once it has eight.
fn push_bit(out: &mut Vec<u8>, cur: &mut u8, n: &mut u8, bit: bool, Ghost(base): Ghost<Seq<u8>>, Ghost(bits): Ghost<Seq<bool>>)
    requires
        packed(old(out)@, base, *old(cur), *old(n), bits),
    ensures
        packed(final(out)@, base, *final(cur), *final(n), bits.push(bit)),
{
    proof {
        lemma_p2_small(*n as nat);
    }
    let b: u8 = if bit {
        1
    } else {
        0
    };
    let v: u8 = *cur * 2 + b;
    let ghost k = bits.len() - *n;
    let ghost nb = bits.push(bit);
    proof {
        assert(nb.skip(k) =~= bits.skip(k).push(bit));
        assert(nb.skip(k).drop_last() =~= bits.skip(k));
        assert(nb.take(k) =~= bits.take(k));
        assert(bits_value(nb.skip(k)) == v as nat);
    }
    if *n + 1 == 8 {
        out.push(v);
        *cur = 0;
        *n = 0;
        proof {
            assert(nb.len() - 8 == k);
            assert(nb.take(nb.len() as int) =~= nb);
            assert(nb.skip(nb.len() as int) =~= Seq::<bool>::empty());
            assert(pack_bits(nb) == pack_bits(nb.take(k)).push(bits_value(nb.skip(k)) as u8));
        }
    } else {
        *cur = v;
        *n = *n + 1;
    }
}

/// The length in bytes of `s` Huffman-coded.
pub fn encoded_len(s: &[u8]) -> (n: u128)
    ensures
        n == huffman_len_spec(s@),
{
    proof {
        lemma_code_len_bound();
    }
    let mut bits: u128 = 0;
    let mut i: usize = 0;
    while i < s.len()
        invariant
            i <= s@.len(),
            bits == huff_bits(s@.take(i as int)).len(),
            bits <= 30 * i,
            forall|x: usize| x < 257 ==> #[trigger] huff_code(x).1 <= 30,
        decreases s@.len() - i,
    {
        proof {
            assert(s@.take(i + 1).drop_last() =~= s@.take(i as int));
        }
        let (_, l) = code_of(s[i] as usize);
        assert(l <= 30);
        bits = bits + l as u128;
        i += 1;
    }
    assert(s@.take(s@.len() as int) =~= s@);
    (bits + 7) / 8
}

/// Append `s` Huffman-coded: the code of each symbol, most significant
/// bit first, then all-ones padding to a byte boundary.
pub fn encode_into(out: &mut Vec<u8>, s: &[u8])
    ensures
        final(out)@ == old(out)@ + huffman_encode_spec(s@),
{
    proof {
        lemma_code_len_bound();
        reveal_with_fuel(p2, 1);
    }
    let ghost base = out@;
    let mut cur: u8 = 0;
    let mut n: u8 = 0;
    let ghost mut bits: Seq<bool> = Seq::empty();
    proof {
        assert(bits.skip(0) =~= Seq::<bool>::empty());
        assert(bits.take(0) =~= Seq::<bool>::empty());
        assert(out@ =~= base + pack_bits(bits.take(0)));
    }
    let mut i: usize = 0;
    while i < s.len()
        invariant
            i <= s@.len(),
            bits == huff_bits(s@.take(i as int)),
            packed(out@, base, cur, n, bits),
            base == old(out)@,
            forall|x: usize| x < 257 ==> #[trigger] huff_code(x).1 <= 30,
        decreases s@.len() - i,
    {
        proof {
            assert(s@.take(i + 1).drop_last() =~= s@.take(i as int));
        }
        let sym = s[i];
        let (c, l) = code_of(sym as usize);
        assert(l <= 30);
        let ghost start = bits;
        let mut j: u32 = 0;
        while j < l
            invariant
                j <= l <= 30,
                (c, l) == huff_code(sym as usize),
                bits == start + code_bits(sym).take(j as int),
                packed(out@, base, cur, n, bits),
            decreases l - j,
        {
            let bit = ((c >> (l - 1 - j)) & 1u32) == 1u32;
            assert(bit == code_bits(sym)[j as int]);
            push_bit(out, &mut cur, &mut n, bit, Ghost(base), Ghost(bits));
            proof {
                assert(start + code_bits(sym).take(j + 1) =~= bits.push(bit));
                bits = bits.push(bit);
            }
            j += 1;
        }
        proof {
            assert(code_bits(sym).take(l as int) =~= code_bits(sym));
            assert(s@.take(i + 1).last() == sym);
        }
        i += 1;
    }
    assert(s@.take(s@.len() as int) =~= s@);
    flush_padding(out, &mut cur, &mut n, Ghost(base), Ghost(bits));
}

/// Pad the part byte with ones and write it out.
fn flush_padding(out: &mut Vec<u8>, cur: &mut u8, n: &mut u8, Ghost(base): Ghost<Seq<u8>>, Ghost(all): Ghost<Seq<bool>>)
    requires
        packed(old(out)@, base, *old(cur), *old(n), all),
    ensures
        final(out)@ == base + pack_bits(all + pad_bits(all.len())),
{
    let ghost pad = pad_bits(all.len());
    let ghost r = all.len() % 8;
    let ghost mut bits = all;
    assert(bits =~= all + pad.take(0));
    while *n != 0
        invariant
            packed(out@, base, *cur, *n, bits),
            pad == pad_bits(all.len()),
            r == all.len() % 8,
            pad.len() == if r == 0 { 0 } else { 8 - r },
            all.len() <= bits.len(),
            bits == all + pad.take(bits.len() - all.len()),
            *n == 0 ==> bits.len() - all.len() == pad.len(),
            *n != 0 ==> bits.len() - all.len() < pad.len() && *n == r + bits.len() - all.len(),
        decreases pad.len() - (bits.len() - all.len()),
    {
        push_bit(out, cur, n, true, Ghost(base), Ghost(bits));
        proof {
            assert(pad.take(bits.len() - all.len() + 1) =~= pad.take(bits.len() - all.len()).push(
                true,
            ));
            bits = bits.push(true);
        }
    }
    proof {
        assert(pad.take(pad.len() as int) =~= pad);
        assert(bits.take(bits.len() as int) =~= bits);
    }
}

} // verus!
