//! The sRGB transfer function in fixed point: the linear-light value of each
//! 8-bit channel (CIE sRGB gamma, scaled by 65536), and the inverse mapping
//! that snaps a linear-light value to the nearest 8-bit channel.
use vstd::prelude::*;

use crate::fx::abs_s;

verus! {

/// Linear-light value of an 8-bit sRGB channel, scaled by 65536.
#[verifier::opaque]
pub open spec fn lin_of(c: u8) -> i64 {
    match c {
        0u8 => 0,
        1u8 => 20,
        2u8 => 40,
        3u8 => 60,
        4u8 => 80,
        5u8 => 99,
        6u8 => 119,
        7u8 => 139,
        8u8 => 159,
        9u8 => 179,
        10u8 => 199,
        11u8 => 219,
        12u8 => 241,
        13u8 => 264,
        14u8 => 288,
        15u8 => 313,
        16u8 => 340,
        17u8 => 367,
        18u8 => 396,
        19u8 => 427,
        20u8 => 458,
        21u8 => 491,
        22u8 => 526,
        23u8 => 562,
        24u8 => 599,
        25u8 => 637,
        26u8 => 677,
        27u8 => 718,
        28u8 => 761,
        29u8 => 805,
        30u8 => 851,
        31u8 => 898,
        32u8 => 947,
        33u8 => 997,
        34u8 => 1048,
        35u8 => 1101,
        36u8 => 1156,
        37u8 => 1212,
        38u8 => 1270,
        39u8 => 1330,
        40u8 => 1391,
        41u8 => 1453,
        42u8 => 1517,
        43u8 => 1583,
        44u8 => 1651,
        45u8 => 1720,
        46u8 => 1791,
        47u8 => 1863,
        48u8 => 1937,
        49u8 => 2013,
        50u8 => 2090,
        51u8 => 2170,
        52u8 => 2250,
        53u8 => 2333,
        54u8 => 2418,
        55u8 => 2504,
        56u8 => 2592,
        57u8 => 2681,
        58u8 => 2773,
        59u8 => 2866,
        60u8 => 2961,
        61u8 => 3058,
        62u8 => 3157,
        63u8 => 3258,
        64u8 => 3360,
        65u8 => 3464,
        66u8 => 3570,
        67u8 => 3678,
        68u8 => 3788,
        69u8 => 3900,
        70u8 => 4014,
        71u8 => 4129,
        72u8 => 4247,
        73u8 => 4366,
        74u8 => 4488,
        75u8 => 4611,
        76u8 => 4736,
        77u8 => 4864,
        78u8 => 4993,
        79u8 => 5124,
        80u8 => 5257,
        81u8 => 5392,
        82u8 => 5530,
        83u8 => 5669,
        84u8 => 5810,
        85u8 => 5953,
        86u8 => 6099,
        87u8 => 6246,
        88u8 => 6395,
        89u8 => 6547,
        90u8 => 6701,
        91u8 => 6856,
        92u8 => 7014,
        93u8 => 7174,
        94u8 => 7336,
        95u8 => 7500,
        96u8 => 7666,
        97u8 => 7834,
        98u8 => 8004,
        99u8 => 8177,
        100u8 => 8352,
        101u8 => 8529,
        102u8 => 8708,
        103u8 => 8889,
        104u8 => 9072,
        105u8 => 9258,
        106u8 => 9446,
        107u8 => 9636,
        108u8 => 9828,
        109u8 => 10022,
        110u8 => 10219,
        111u8 => 10418,
        112u8 => 10619,
        113u8 => 10822,
        114u8 => 11028,
        115u8 => 11236,
        116u8 => 11446,
        117u8 => 11658,
        118u8 => 11873,
        119u8 => 12090,
        120u8 => 12309,
        121u8 => 12531,
        122u8 => 12754,
        123u8 => 12981,
        124u8 => 13209,
        125u8 => 13440,
        126u8 => 13673,
        127u8 => 13909,
        128u8 => 14147,
        129u8 => 14387,
        130u8 => 14629,
        131u8 => 14874,
        132u8 => 15122,
        133u8 => 15372,
        134u8 => 15624,
        135u8 => 15878,
        136u8 => 16135,
        137u8 => 16394,
        138u8 => 16656,
        139u8 => 16920,
        140u8 => 17187,
        141u8 => 17456,
        142u8 => 17727,
        143u8 => 18001,
        144u8 => 18278,
        145u8 => 18556,
        146u8 => 18838,
        147u8 => 19121,
        148u8 => 19408,
        149u8 => 19696,
        150u8 => 19988,
        151u8 => 20281,
        152u8 => 20578,
        153u8 => 20876,
        154u8 => 21178,
        155u8 => 21481,
        156u8 => 21788,
        157u8 => 22096,
        158u8 => 22408,
        159u8 => 22722,
        160u8 => 23038,
        161u8 => 23357,
        162u8 => 23679,
        163u8 => 24003,
        164u8 => 24329,
        165u8 => 24659,
        166u8 => 24991,
        167u8 => 25325,
        168u8 => 25662,
        169u8 => 26002,
        170u8 => 26344,
        171u8 => 26689,
        172u8 => 27036,
        173u8 => 27387,
        174u8 => 27739,
        175u8 => 28095,
        176u8 => 28453,
        177u8 => 28813,
        178u8 => 29177,
        179u8 => 29543,
        180u8 => 29911,
        181u8 => 30283,
        182u8 => 30657,
        183u8 => 31033,
        184u8 => 31413,
        185u8 => 31795,
        186u8 => 32180,
        187u8 => 32567,
        188u8 => 32957,
        189u8 => 33350,
        190u8 => 33746,
        191u8 => 34144,
        192u8 => 34545,
        193u8 => 34949,
        194u8 => 35355,
        195u8 => 35765,
        196u8 => 36177,
        197u8 => 36591,
        198u8 => 37009,
        199u8 => 37429,
        200u8 => 37852,
        201u8 => 38278,
        202u8 => 38707,
        203u8 => 39138,
        204u8 => 39572,
        205u8 => 40009,
        206u8 => 40449,
        207u8 => 40892,
        208u8 => 41337,
        209u8 => 41786,
        210u8 => 42237,
        211u8 => 42691,
        212u8 => 43147,
        213u8 => 43607,
        214u8 => 44069,
        215u8 => 44534,
        216u8 => 45003,
        217u8 => 45474,
        218u8 => 45947,
        219u8 => 46424,
        220u8 => 46904,
        221u8 => 47386,
        222u8 => 47871,
        223u8 => 48360,
        224u8 => 48851,
        225u8 => 49345,
        226u8 => 49842,
        227u8 => 50342,
        228u8 => 50844,
        229u8 => 51350,
        230u8 => 51859,
        231u8 => 52370,
        232u8 => 52884,
        233u8 => 53402,
        234u8 => 53922,
        235u8 => 54445,
        236u8 => 54972,
        237u8 => 55501,
        238u8 => 56033,
        239u8 => 56568,
        240u8 => 57106,
        241u8 => 57647,
        242u8 => 58191,
        243u8 => 58738,
        244u8 => 59288,
        245u8 => 59841,
        246u8 => 60397,
        247u8 => 60956,
        248u8 => 61518,
        249u8 => 62083,
        250u8 => 62651,
        251u8 => 63222,
        252u8 => 63796,
        253u8 => 64373,
        254u8 => 64953,
        _ => 65536,
    }
}

pub broadcast proof fn lemma_lin_of_bounds(c: u8)
    ensures
        0 <= #[trigger] lin_of(c) <= 65536,
{
    reveal(lin_of);
}

/// Executable form of `lin_of`.
pub fn srgb_linear(c: u8) -> (r: i64)
    ensures
        r == lin_of(c),
        0 <= r <= 65536,
{
    proof {
        reveal(lin_of);
    }
    match c {
        0u8 => 0,
        1u8 => 20,
        2u8 => 40,
        3u8 => 60,
        4u8 => 80,
        5u8 => 99,
        6u8 => 119,
        7u8 => 139,
        8u8 => 159,
        9u8 => 179,
        10u8 => 199,
        11u8 => 219,
        12u8 => 241,
        13u8 => 264,
        14u8 => 288,
        15u8 => 313,
        16u8 => 340,
        17u8 => 367,
        18u8 => 396,
        19u8 => 427,
        20u8 => 458,
        21u8 => 491,
        22u8 => 526,
        23u8 => 562,
        24u8 => 599,
        25u8 => 637,
        26u8 => 677,
        27u8 => 718,
        28u8 => 761,
        29u8 => 805,
        30u8 => 851,
        31u8 => 898,
        32u8 => 947,
        33u8 => 997,
        34u8 => 1048,
        35u8 => 1101,
        36u8 => 1156,
        37u8 => 1212,
        38u8 => 1270,
        39u8 => 1330,
        40u8 => 1391,
        41u8 => 1453,
        42u8 => 1517,
        43u8 => 1583,
        44u8 => 1651,
        45u8 => 1720,
        46u8 => 1791,
        47u8 => 1863,
        48u8 => 1937,
        49u8 => 2013,
        50u8 => 2090,
        51u8 => 2170,
        52u8 => 2250,
        53u8 => 2333,
        54u8 => 2418,
        55u8 => 2504,
        56u8 => 2592,
        57u8 => 2681,
        58u8 => 2773,
        59u8 => 2866,
        60u8 => 2961,
        61u8 => 3058,
        62u8 => 3157,
        63u8 => 3258,
        64u8 => 3360,
        65u8 => 3464,
        66u8 => 3570,
        67u8 => 3678,
        68u8 => 3788,
        69u8 => 3900,
        70u8 => 4014,
        71u8 => 4129,
        72u8 => 4247,
        73u8 => 4366,
        74u8 => 4488,
        75u8 => 4611,
        76u8 => 4736,
        77u8 => 4864,
        78u8 => 4993,
        79u8 => 5124,
        80u8 => 5257,
        81u8 => 5392,
        82u8 => 5530,
        83u8 => 5669,
        84u8 => 5810,
        85u8 => 5953,
        86u8 => 6099,
        87u8 => 6246,
        88u8 => 6395,
        89u8 => 6547,
        90u8 => 6701,
        91u8 => 6856,
        92u8 => 7014,
        93u8 => 7174,
        94u8 => 7336,
        95u8 => 7500,
        96u8 => 7666,
        97u8 => 7834,
        98u8 => 8004,
        99u8 => 8177,
        100u8 => 8352,
        101u8 => 8529,
        102u8 => 8708,
        103u8 => 8889,
        104u8 => 9072,
        105u8 => 9258,
        106u8 => 9446,
        107u8 => 9636,
        108u8 => 9828,
        109u8 => 10022,
        110u8 => 10219,
        111u8 => 10418,
        112u8 => 10619,
        113u8 => 10822,
        114u8 => 11028,
        115u8 => 11236,
        116u8 => 11446,
        117u8 => 11658,
        118u8 => 11873,
        119u8 => 12090,
        120u8 => 12309,
        121u8 => 12531,
        122u8 => 12754,
        123u8 => 12981,
        124u8 => 13209,
        125u8 => 13440,
        126u8 => 13673,
        127u8 => 13909,
        128u8 => 14147,
        129u8 => 14387,
        130u8 => 14629,
        131u8 => 14874,
        132u8 => 15122,
        133u8 => 15372,
        134u8 => 15624,
        135u8 => 15878,
        136u8 => 16135,
        137u8 => 16394,
        138u8 => 16656,
        139u8 => 16920,
        140u8 => 17187,
        141u8 => 17456,
        142u8 => 17727,
        143u8 => 18001,
        144u8 => 18278,
        145u8 => 18556,
        146u8 => 18838,
        147u8 => 19121,
        148u8 => 19408,
        149u8 => 19696,
        150u8 => 19988,
        151u8 => 20281,
        152u8 => 20578,
        153u8 => 20876,
        154u8 => 21178,
        155u8 => 21481,
        156u8 => 21788,
        157u8 => 22096,
        158u8 => 22408,
        159u8 => 22722,
        160u8 => 23038,
        161u8 => 23357,
        162u8 => 23679,
        163u8 => 24003,
        164u8 => 24329,
        165u8 => 24659,
        166u8 => 24991,
        167u8 => 25325,
        168u8 => 25662,
        169u8 => 26002,
        170u8 => 26344,
        171u8 => 26689,
        172u8 => 27036,
        173u8 => 27387,
        174u8 => 27739,
        175u8 => 28095,
        176u8 => 28453,
        177u8 => 28813,
        178u8 => 29177,
        179u8 => 29543,
        180u8 => 29911,
        181u8 => 30283,
        182u8 => 30657,
        183u8 => 31033,
        184u8 => 31413,
        185u8 => 31795,
        186u8 => 32180,
        187u8 => 32567,
        188u8 => 32957,
        189u8 => 33350,
        190u8 => 33746,
        191u8 => 34144,
        192u8 => 34545,
        193u8 => 34949,
        194u8 => 35355,
        195u8 => 35765,
        196u8 => 36177,
        197u8 => 36591,
        198u8 => 37009,
        199u8 => 37429,
        200u8 => 37852,
        201u8 => 38278,
        202u8 => 38707,
        203u8 => 39138,
        204u8 => 39572,
        205u8 => 40009,
        206u8 => 40449,
        207u8 => 40892,
        208u8 => 41337,
        209u8 => 41786,
        210u8 => 42237,
        211u8 => 42691,
        212u8 => 43147,
        213u8 => 43607,
        214u8 => 44069,
        215u8 => 44534,
        216u8 => 45003,
        217u8 => 45474,
        218u8 => 45947,
        219u8 => 46424,
        220u8 => 46904,
        221u8 => 47386,
        222u8 => 47871,
        223u8 => 48360,
        224u8 => 48851,
        225u8 => 49345,
        226u8 => 49842,
        227u8 => 50342,
        228u8 => 50844,
        229u8 => 51350,
        230u8 => 51859,
        231u8 => 52370,
        232u8 => 52884,
        233u8 => 53402,
        234u8 => 53922,
        235u8 => 54445,
        236u8 => 54972,
        237u8 => 55501,
        238u8 => 56033,
        239u8 => 56568,
        240u8 => 57106,
        241u8 => 57647,
        242u8 => 58191,
        243u8 => 58738,
        244u8 => 59288,
        245u8 => 59841,
        246u8 => 60397,
        247u8 => 60956,
        248u8 => 61518,
        249u8 => 62083,
        250u8 => 62651,
        251u8 => 63222,
        252u8 => 63796,
        253u8 => 64373,
        254u8 => 64953,
        _ => 65536,
    }
}

/// Among the channels `0 .. n`, the one whose linear-light value is nearest
/// to `x`; the lowest such channel on a tie.
pub open spec fn best_channel_upto(x: int, n: int) -> int
    decreases n,
{
    if n <= 1 {
        0
    } else {
        let b = best_channel_upto(x, n - 1);
        if abs_s(lin_of((n - 1) as u8) - x) < abs_s(lin_of(b as u8) - x) {
            n - 1
        } else {
            b
        }
    }
}

/// The 8-bit channel whose linear-light value is nearest to `x`.
pub open spec fn channel_of_linear(x: int) -> int {
    best_channel_upto(x, 256)
}

proof fn lemma_best_channel_upto_range(x: int, n: int)
    ensures
        0 <= best_channel_upto(x, n) < if n <= 1 {
            1int
        } else {
            n
        },
    decreases n,
{
    if n > 1 {
        lemma_best_channel_upto_range(x, n - 1);
    }
}

pub proof fn lemma_channel_of_linear_range(x: int)
    ensures
        0 <= channel_of_linear(x) < 256,
{
    lemma_best_channel_upto_range(x, 256);
}

#[verifier::rlimit(80)]
proof fn lemma_lin_of_adjacent(c: u8)
    requires
        c < 255,
    ensures
        lin_of(c) < lin_of((c + 1) as u8),
{
    reveal(lin_of);
}

/// The linearization table is strictly increasing.
pub proof fn lemma_lin_of_mono(a: u8, b: u8)
    requires
        a < b,
    ensures
        lin_of(a) < lin_of(b),
    decreases b - a,
{
    if a + 1 == b {
        lemma_lin_of_adjacent(a);
    } else {
        lemma_lin_of_mono(a, (b - 1) as u8);
        lemma_lin_of_adjacent((b - 1) as u8);
    }
}

proof fn lemma_best_channel_below(c: u8, n: int)
    requires
        1 <= n <= c + 1,
    ensures
        best_channel_upto(lin_of(c) as int, n) == n - 1,
    decreases n,
{
    let x = lin_of(c) as int;
    if n > 1 {
        lemma_best_channel_below(c, n - 1);
        lemma_lin_of_mono((n - 2) as u8, (n - 1) as u8);
        if n - 1 < c {
            lemma_lin_of_mono((n - 1) as u8, c);
        }
        if n - 2 < c {
            lemma_lin_of_mono((n - 2) as u8, c);
        }
        assert(abs_s(lin_of((n - 1) as u8) - x) < abs_s(lin_of((n - 2) as u8) - x));
    }
}

proof fn lemma_best_channel_above(c: u8, n: int)
    requires
        c + 1 <= n <= 256,
    ensures
        best_channel_upto(lin_of(c) as int, n) == c,
    decreases n,
{
    let x = lin_of(c) as int;
    if n == c + 1 {
        lemma_best_channel_below(c, n);
    } else {
        lemma_best_channel_above(c, n - 1);
        lemma_lin_of_mono(c, (n - 1) as u8);
        assert(abs_s(lin_of(c) - x) == 0);
        assert(abs_s(lin_of((n - 1) as u8) - x) > 0);
    }
}

/// The quantization step loses nothing on exact table values: snapping a
/// channel's own linear-light value gives back the channel.
pub proof fn lemma_channel_round_trip(c: u8)
    ensures
        channel_of_linear(lin_of(c) as int) == c,
{
    lemma_best_channel_above(c, 256);
}

/// Snap a linear-light value to the 8-bit channel that reproduces it most
/// closely (the canonicalization step of every color conversion back to RGB8).
pub fn srgb_from_linear(x: i64) -> (c: u8)
    requires
        0 <= x <= 65536,
    ensures
        c == channel_of_linear(x as int),
{
    let mut best: u8 = 0;
    let mut best_d: i64 = x;
    let mut i: u16 = 1;
    proof {
        reveal(lin_of);
        assert(lin_of(0) == 0);
        assert(best_channel_upto(x as int, 1) == 0);
    }
    while i < 256
        invariant
            1 <= i <= 256,
            0 <= x <= 65536,
            best < 256,
            best == best_channel_upto(x as int, i as int),
            best_d == abs_s(lin_of(best) - x),
        decreases 256 - i,
    {
        let cand = i as u8;
        let lv = srgb_linear(cand);
        let d = if lv >= x {
            lv - x
        } else {
            x - lv
        };
        if d < best_d {
            best = cand;
            best_d = d;
        }
        i = i + 1;
    }
    best
}

} // verus!
