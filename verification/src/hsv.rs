//! HSV and HSL in fixed point: hue in milli-degrees (`0 .. 360000`),
//! saturation, value and lightness in milli-units (`0 ..= 1000`).
use vstd::prelude::*;

use crate::fx::{abs_s, clamp_i64, clamp_s, lemma_sdiv_s_le, mul_div_milli, sdiv, sdiv_s};
use crate::lab::Rgb8;

verus! {

/// An HSV color in milli-units.
#[derive(Clone, Copy, Debug, PartialEq, Eq, Structural)]
pub struct Hsv {
    pub h: i64,
    pub s: i64,
    pub v: i64,
}

pub open spec fn hsv_wf(c: Hsv) -> bool {
    &&& 0 <= c.h < 360_000
    &&& 0 <= c.s <= 1000
    &&& 0 <= c.v <= 1000
}

pub open spec fn max3_s(a: int, b: int, c: int) -> int {
    if a >= b && a >= c {
        a
    } else if b >= c {
        b
    } else {
        c
    }
}

pub open spec fn min3_s(a: int, b: int, c: int) -> int {
    if a <= b && a <= c {
        a
    } else if b <= c {
        b
    } else {
        c
    }
}

fn max3(a: i64, b: i64, c: i64) -> (r: i64)
    ensures
        r == max3_s(a as int, b as int, c as int),
{
    if a >= b && a >= c {
        a
    } else if b >= c {
        b
    } else {
        c
    }
}

fn min3(a: i64, b: i64, c: i64) -> (r: i64)
    ensures
        r == min3_s(a as int, b as int, c as int),
{
    if a <= b && a <= c {
        a
    } else if b <= c {
        b
    } else {
        c
    }
}

/// Hue of an RGB color in milli-degrees, from the channel values and their
/// maximum and minimum.
pub open spec fn hue_s(r: int, g: int, b: int, mx: int, mn: int) -> int {
    let d = mx - mn;
    if d == 0 {
        0
    } else if mx == r {
        let h0 = sdiv_s((g - b) * 60000, d);
        if h0 < 0 {
            h0 + 360_000
        } else {
            h0
        }
    } else if mx == g {
        sdiv_s((b - r) * 60000, d) + 120_000
    } else {
        sdiv_s((r - g) * 60000, d) + 240_000
    }
}

proof fn lemma_hue_range(r: int, g: int, b: int, mx: int, mn: int)
    requires
        mx == max3_s(r, g, b),
        mn == min3_s(r, g, b),
        0 <= r <= 255 && 0 <= g <= 255 && 0 <= b <= 255,
    ensures
        0 <= hue_s(r, g, b, mx, mn) < 360_000,
{
    let d = mx - mn;
    if d != 0 {
        if mx == r {
            lemma_sdiv_s_le((g - b) * 60000, d, 60000);
        } else if mx == g {
            lemma_sdiv_s_le((b - r) * 60000, d, 60000);
        } else {
            lemma_sdiv_s_le((r - g) * 60000, d, 60000);
        }
    }
}

fn hue(r: i64, g: i64, b: i64, mx: i64, mn: i64) -> (h: i64)
    requires
        mx == max3_s(r as int, g as int, b as int),
        mn == min3_s(r as int, g as int, b as int),
        0 <= r <= 255 && 0 <= g <= 255 && 0 <= b <= 255,
    ensures
        h == hue_s(r as int, g as int, b as int, mx as int, mn as int),
        0 <= h < 360_000,
{
    proof {
        lemma_hue_range(r as int, g as int, b as int, mx as int, mn as int);
    }
    let d = mx - mn;
    if d == 0 {
        0
    } else if mx == r {
        let h0 = sdiv((g - b) * 60000, d);
        proof {
            lemma_sdiv_s_le((g - b) as int * 60000, d as int, 60000);
        }
        if h0 < 0 {
            h0 + 360_000
        } else {
            h0
        }
    } else if mx == g {
        let h0 = sdiv((b - r) * 60000, d);
        proof {
            lemma_sdiv_s_le((b - r) as int * 60000, d as int, 60000);
        }
        h0 + 120_000
    } else {
        let h0 = sdiv((r - g) * 60000, d);
        proof {
            lemma_sdiv_s_le((r - g) as int * 60000, d as int, 60000);
        }
        h0 + 240_000
    }
}

/// HSV from 8-bit sRGB.
#[verifier::opaque]
pub open spec fn rgb8_to_hsv_s(c: Rgb8) -> Hsv {
    let r = c.r as int;
    let g = c.g as int;
    let b = c.b as int;
    let mx = max3_s(r, g, b);
    let mn = min3_s(r, g, b);
    Hsv {
        h: hue_s(r, g, b, mx, mn) as i64,
        s: (if mx == 0 {
            0int
        } else {
            ((mx - mn) * 1000) / mx
        }) as i64,
        v: ((mx * 1000) / 255) as i64,
    }
}

pub fn rgb8_to_hsv(c: Rgb8) -> (hsv: Hsv)
    ensures
        hsv == rgb8_to_hsv_s(c),
        hsv_wf(hsv),
{
    proof {
        reveal(rgb8_to_hsv_s);
    }
    let r = c.r as i64;
    let g = c.g as i64;
    let b = c.b as i64;
    let mx = max3(r, g, b);
    let mn = min3(r, g, b);
    let h = hue(r, g, b, mx, mn);
    let s = if mx == 0 {
        0
    } else {
        proof {
            lemma_sdiv_s_le((mx - mn) * 1000, mx as int, 1000);
        }
        sdiv((mx - mn) * 1000, mx)
    };
    let v = sdiv(mx * 1000, 255);
    proof {
        lemma_sdiv_s_le(mx as int * 1000, 255, 1000);
    }
    Hsv { h, s, v }
}

/// 8-bit sRGB from HSV, by the six-segment construction.
#[verifier::opaque]
pub open spec fn hsv_to_rgb8_s(c: Hsv) -> Rgb8 {
    let seg = c.h / 60000;
    let f = (c.h % 60000) / 60;
    let p = (c.v * (1000 - c.s)) / 1000;
    let q = (c.v * (1000 - (c.s * f) / 1000)) / 1000;
    let t = (c.v * (1000 - (c.s * (1000 - f)) / 1000)) / 1000;
    let rgb_m = if seg == 0 {
        (c.v as int, t, p)
    } else if seg == 1 {
        (q, c.v as int, p)
    } else if seg == 2 {
        (p, c.v as int, t)
    } else if seg == 3 {
        (p, q, c.v as int)
    } else if seg == 4 {
        (t, p, c.v as int)
    } else {
        (c.v as int, p, q)
    };
    Rgb8 {
        r: ((rgb_m.0 * 255 + 500) / 1000) as u8,
        g: ((rgb_m.1 * 255 + 500) / 1000) as u8,
        b: ((rgb_m.2 * 255 + 500) / 1000) as u8,
    }
}

/// A milli-unit channel value scaled to an 8-bit channel, rounding to
/// nearest.
pub fn milli_to_u8(x: i64) -> (c: u8)
    requires
        0 <= x <= 1000,
    ensures
        c == (x * 255 + 500) / 1000,
{
    let v = sdiv(x * 255 + 500, 1000);
    proof {
        vstd::arithmetic::div_mod::lemma_div_is_ordered(x as int * 255 + 500, 255_500, 1000);
        vstd::arithmetic::div_mod::lemma_div_basics_4(x as int * 255 + 500, 1000);
    }
    v as u8
}

pub fn hsv_to_rgb8(c: Hsv) -> (rgb: Rgb8)
    requires
        hsv_wf(c),
    ensures
        rgb == hsv_to_rgb8_s(c),
{
    proof {
        reveal(hsv_to_rgb8_s);
    }
    let seg = sdiv(c.h, 60000);
    let rem = c.h - seg * 60000;
    proof {
        vstd::arithmetic::div_mod::lemma_fundamental_div_mod(c.h as int, 60000);
        vstd::arithmetic::div_mod::lemma_mod_bound(c.h as int, 60000);
        vstd::arithmetic::div_mod::lemma_div_is_ordered(c.h as int, 359_999, 60000);
        vstd::arithmetic::div_mod::lemma_div_basics_4(c.h as int, 60000);
    }
    let f = sdiv(rem, 60);
    proof {
        lemma_sdiv_s_le(rem as int, 60, 1000);
    }
    let p = mul_div_milli(c.v, 1000 - c.s);
    let sf = mul_div_milli(c.s, f);
    let q = mul_div_milli(c.v, 1000 - sf);
    let sg = mul_div_milli(c.s, 1000 - f);
    let t = mul_div_milli(c.v, 1000 - sg);
    let (rm, gm, bm) = if seg == 0 {
        (c.v, t, p)
    } else if seg == 1 {
        (q, c.v, p)
    } else if seg == 2 {
        (p, c.v, t)
    } else if seg == 3 {
        (p, q, c.v)
    } else if seg == 4 {
        (t, p, c.v)
    } else {
        (c.v, p, q)
    };
    Rgb8 { r: milli_to_u8(rm), g: milli_to_u8(gm), b: milli_to_u8(bm) }
}

/// HSL coordinates (hue, saturation, lightness) of an 8-bit sRGB color, in
/// milli-units.
#[verifier::opaque]
pub open spec fn rgb8_to_hsl_s(c: Rgb8) -> (int, int, int) {
    let r = c.r as int;
    let g = c.g as int;
    let b = c.b as int;
    let mx = max3_s(r, g, b);
    let mn = min3_s(r, g, b);
    let d = mx - mn;
    let l = ((mx + mn) * 1000) / 510;
    let s = if d == 0 {
        0int
    } else {
        (d * 1000) / (255 - abs_s(mx + mn - 255))
    };
    (hue_s(r, g, b, mx, mn), s, l)
}

pub fn rgb8_to_hsl(c: Rgb8) -> (hsl: (i64, i64, i64))
    ensures
        (hsl.0 as int, hsl.1 as int, hsl.2 as int) == rgb8_to_hsl_s(c),
        0 <= hsl.0 < 360_000 && 0 <= hsl.1 <= 1000 && 0 <= hsl.2 <= 1000,
{
    proof {
        reveal(rgb8_to_hsl_s);
    }
    let r = c.r as i64;
    let g = c.g as i64;
    let b = c.b as i64;
    let mx = max3(r, g, b);
    let mn = min3(r, g, b);
    let d = mx - mn;
    let h = hue(r, g, b, mx, mn);
    let l = sdiv((mx + mn) * 1000, 510);
    proof {
        lemma_sdiv_s_le((mx + mn) as int * 1000, 510, 1000);
    }
    let s = if d == 0 {
        0
    } else {
        let spread = if mx + mn >= 255 {
            mx + mn - 255
        } else {
            255 - (mx + mn)
        };
        proof {
            lemma_sdiv_s_le(d as int * 1000, (255 - spread) as int, 1000);
        }
        sdiv(d * 1000, 255 - spread)
    };
    (h, s, l)
}

/// 8-bit sRGB from HSL coordinates, by the chroma construction.
#[verifier::opaque]
pub open spec fn hsl_to_rgb8_s(h: int, s: int, l: int) -> Rgb8 {
    let chroma = ((1000 - abs_s(2 * l - 1000)) * s) / 1000;
    let hm = h % 120_000;
    let x = (chroma * (1000 - abs_s(hm - 60000) / 60)) / 1000;
    let m0 = l - chroma / 2;
    let seg = h / 60000;
    let rgb0 = if seg == 0 {
        (chroma, x, 0int)
    } else if seg == 1 {
        (x, chroma, 0int)
    } else if seg == 2 {
        (0int, chroma, x)
    } else if seg == 3 {
        (0int, x, chroma)
    } else if seg == 4 {
        (x, 0int, chroma)
    } else {
        (chroma, 0int, x)
    };
    Rgb8 {
        r: ((clamp_s(rgb0.0 + m0, 0, 1000) * 255 + 500) / 1000) as u8,
        g: ((clamp_s(rgb0.1 + m0, 0, 1000) * 255 + 500) / 1000) as u8,
        b: ((clamp_s(rgb0.2 + m0, 0, 1000) * 255 + 500) / 1000) as u8,
    }
}

pub fn hsl_to_rgb8(h: i64, s: i64, l: i64) -> (rgb: Rgb8)
    requires
        0 <= h < 360_000,
        0 <= s <= 1000,
        0 <= l <= 1000,
    ensures
        rgb == hsl_to_rgb8_s(h as int, s as int, l as int),
{
    proof {
        reveal(hsl_to_rgb8_s);
    }
    let spread = if 2 * l >= 1000 {
        2 * l - 1000
    } else {
        1000 - 2 * l
    };
    let chroma = mul_div_milli(1000 - spread, s);
    let seg2 = sdiv(h, 120_000);
    let hm = h - seg2 * 120_000;
    proof {
        vstd::arithmetic::div_mod::lemma_fundamental_div_mod(h as int, 120_000);
        vstd::arithmetic::div_mod::lemma_mod_bound(h as int, 120_000);
    }
    let hspread = if hm >= 60000 {
        hm - 60000
    } else {
        60000 - hm
    };
    let hx = sdiv(hspread, 60);
    proof {
        lemma_sdiv_s_le(hspread as int, 60, 1000);
    }
    let x = mul_div_milli(chroma, 1000 - hx);
    let m0 = l - sdiv(chroma, 2);
    let seg = sdiv(h, 60000);
    proof {
        vstd::arithmetic::div_mod::lemma_div_is_ordered(h as int, 359_999, 60000);
        vstd::arithmetic::div_mod::lemma_div_basics_4(h as int, 60000);
        lemma_sdiv_s_le(chroma as int, 2, 1000);
    }
    let (r0, g0, b0) = if seg == 0 {
        (chroma, x, 0)
    } else if seg == 1 {
        (x, chroma, 0)
    } else if seg == 2 {
        (0, chroma, x)
    } else if seg == 3 {
        (0, x, chroma)
    } else if seg == 4 {
        (x, 0, chroma)
    } else {
        (chroma, 0, x)
    };
    Rgb8 {
        r: milli_to_u8(clamp_i64(r0 + m0, 0, 1000)),
        g: milli_to_u8(clamp_i64(g0 + m0, 0, 1000)),
        b: milli_to_u8(clamp_i64(b0 + m0, 0, 1000)),
    }
}

} // verus!
