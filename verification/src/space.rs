//! The working color spaces for clustering: a closed tagged variant selects
//! one of sRGB, HSL, HSV, YUV, CIE Lab or CIE Luv, and every space converts
//! to and from an 8-bit sRGB color through a 3-coordinate fixed-point point.
use vstd::prelude::*;

use crate::fx::{
    abs_s, clamp_i64, clamp_s, lemma_mul_abs_le, lemma_sdiv_s_le, sdiv, sdiv_s,
};
use crate::hsv::{hsl_to_rgb8, hsl_to_rgb8_s, hsv_to_rgb8, hsv_to_rgb8_s, rgb8_to_hsl,
    rgb8_to_hsl_s, rgb8_to_hsv, rgb8_to_hsv_s, Hsv};
use crate::lab::{
    lab_f, lab_f_inv, lab_f_inv_s, lab_f_s, lab_to_rgb8, lab_to_rgb8_s, linear_of_xyz,
    linear_of_xyz_s, rgb8_to_lab, rgb8_to_lab_s, xr_of_linear, yr_of_linear, zr_of_linear, Lab,
    Rgb8,
};
use crate::srgb::{
    channel_of_linear, lemma_channel_of_linear_range, lin_of, srgb_from_linear, srgb_linear,
};

verus! {

/// The coordinate system in which clustering distance is measured.
#[derive(Clone, Copy, Debug, PartialEq, Eq, Structural)]
pub enum ColorSpace {
    Rgb,
    Hsl,
    Hsv,
    Yuv,
    Lab,
    Luv,
}

/// A point of the working color space, in that space's fixed-point units.
#[derive(Clone, Copy, Debug, PartialEq, Eq, Structural)]
pub struct Point3 {
    pub x: i64,
    pub y: i64,
    pub z: i64,
}

/// Every working-space coordinate produced by the conversions stays within
/// this bound, which keeps squared distances inside `i64`.
pub open spec fn point_wf(p: Point3) -> bool {
    &&& abs_s(p.x as int) <= 8_000_000
    &&& abs_s(p.y as int) <= 8_000_000
    &&& abs_s(p.z as int) <= 8_000_000
}

/// YUV (BT.601) coordinates of an 8-bit sRGB color, in milli-units.
#[verifier::opaque]
pub open spec fn rgb8_to_yuv_s(c: Rgb8) -> (int, int, int) {
    let y = (299 * c.r + 587 * c.g + 114 * c.b) / 255;
    let rm = (c.r as int * 1000) / 255;
    let bm = (c.b as int * 1000) / 255;
    (y, sdiv_s(492 * (bm - y), 1000), sdiv_s(877 * (rm - y), 1000))
}

pub fn rgb8_to_yuv(c: Rgb8) -> (yuv: (i64, i64, i64))
    ensures
        (yuv.0 as int, yuv.1 as int, yuv.2 as int) == rgb8_to_yuv_s(c),
        0 <= yuv.0 <= 1000 && abs_s(yuv.1 as int) <= 492 && abs_s(yuv.2 as int) <= 877,
{
    proof {
        reveal(rgb8_to_yuv_s);
    }
    let y = sdiv(299 * (c.r as i64) + 587 * (c.g as i64) + 114 * (c.b as i64), 255);
    let rm = sdiv(c.r as i64 * 1000, 255);
    let bm = sdiv(c.b as i64 * 1000, 255);
    proof {
        lemma_sdiv_s_le(299 * (c.r as int) + 587 * (c.g as int) + 114 * (c.b as int), 255, 1000);
        lemma_sdiv_s_le(c.r as int * 1000, 255, 1000);
        lemma_sdiv_s_le(c.b as int * 1000, 255, 1000);
    }
    let u = sdiv(492 * (bm - y), 1000);
    let v = sdiv(877 * (rm - y), 1000);
    proof {
        lemma_sdiv_s_le(492 * (bm as int - y), 1000, 492);
        lemma_sdiv_s_le(877 * (rm as int - y), 1000, 877);
    }
    (y, u, v)
}

/// 8-bit sRGB from YUV milli-unit coordinates.
#[verifier::opaque]
pub open spec fn yuv_to_rgb8_s(y: int, u: int, v: int) -> Rgb8 {
    let rm = clamp_s(y + sdiv_s(v * 1000, 877), 0, 1000);
    let bm = clamp_s(y + sdiv_s(u * 1000, 492), 0, 1000);
    let gm = clamp_s(sdiv_s(y * 1000 - 299 * rm - 114 * bm, 587), 0, 1000);
    Rgb8 {
        r: ((rm * 255 + 500) / 1000) as u8,
        g: ((gm * 255 + 500) / 1000) as u8,
        b: ((bm * 255 + 500) / 1000) as u8,
    }
}

pub fn yuv_to_rgb8(y: i64, u: i64, v: i64) -> (rgb: Rgb8)
    requires
        0 <= y <= 1000,
        abs_s(u as int) <= 500,
        abs_s(v as int) <= 900,
    ensures
        rgb == yuv_to_rgb8_s(y as int, u as int, v as int),
{
    proof {
        reveal(yuv_to_rgb8_s);
    }
    let rm = clamp_i64(y + sdiv(v * 1000, 877), 0, 1000);
    let bm = clamp_i64(y + sdiv(u * 1000, 492), 0, 1000);
    let gm = clamp_i64(sdiv(y * 1000 - 299 * rm - 114 * bm, 587), 0, 1000);
    Rgb8 {
        r: crate::hsv::milli_to_u8(rm),
        g: crate::hsv::milli_to_u8(gm),
        b: crate::hsv::milli_to_u8(bm),
    }
}

/// CIE Luv coordinates of an 8-bit sRGB color: L in milli-units as in Lab,
/// u and v in milli-units from the u'/v' chromaticity of the color and of
/// the D65 white point.
#[verifier::opaque]
pub open spec fn rgb8_to_luv_s(c: Rgb8) -> (int, int, int) {
    let lr = lin_of(c.r) as int;
    let lg = lin_of(c.g) as int;
    let lb = lin_of(c.b) as int;
    let xr = xr_of_linear(lr, lg, lb);
    let yr = yr_of_linear(lr, lg, lb);
    let zr = zr_of_linear(lr, lg, lb);
    let ll = clamp_s(sdiv_s(116 * lab_f_s(yr) * 1000, 65536) - 16000, 0, 100_000);
    let xx = (xr * 95_047) / 100_000;
    let zz = (zr * 108_883) / 100_000;
    let den = xx + 15 * yr + 3 * zz;
    if den == 0 {
        (ll, 0int, 0int)
    } else {
        let up = (4 * xx * 1_000_000) / den;
        let vp = (9 * yr * 1_000_000) / den;
        (
            ll,
            sdiv_s(13 * ll * (up - 197_839), 1_000_000),
            sdiv_s(13 * ll * (vp - 468_336), 1_000_000),
        )
    }
}

pub fn rgb8_to_luv(c: Rgb8) -> (luv: (i64, i64, i64))
    ensures
        (luv.0 as int, luv.1 as int, luv.2 as int) == rgb8_to_luv_s(c),
        0 <= luv.0 <= 100_000 && abs_s(luv.1 as int) <= 6_000_000 && abs_s(luv.2 as int)
            <= 6_000_000,
{
    proof {
        reveal(rgb8_to_luv_s);
    }
    let lr = srgb_linear(c.r);
    let lg = srgb_linear(c.g);
    let lb = srgb_linear(c.b);
    let xr = clamp_i64(sdiv(28439 * lr + 24655 * lg + 12441 * lb, 65536), 0, 65536);
    let yr = clamp_i64(sdiv(13938 * lr + 46868 * lg + 4730 * lb, 65536), 0, 65536);
    let zr = clamp_i64(sdiv(1164 * lr + 7174 * lg + 57198 * lb, 65536), 0, 65536);
    let fyv = lab_f(yr);
    let ll = clamp_i64(sdiv(116 * fyv * 1000, 65536) - 16000, 0, 100_000);
    let xx = sdiv(xr * 95_047, 100_000);
    let zz = sdiv(zr * 108_883, 100_000);
    proof {
        lemma_sdiv_s_le(xr as int * 95_047, 100_000, 65536);
        lemma_sdiv_s_le(zr as int * 108_883, 100_000, 71365);
    }
    let den = xx + 15 * yr + 3 * zz;
    if den == 0 {
        (ll, 0, 0)
    } else {
        let up = sdiv(4 * xx * 1_000_000, den);
        let vp = sdiv(9 * yr * 1_000_000, den);
        proof {
            lemma_sdiv_s_le(4 * (xx as int) * 1_000_000, den as int, 4_000_000);
            lemma_sdiv_s_le(9 * (yr as int) * 1_000_000, den as int, 600_000);
        }
        let du = up - 197_839;
        let dv = vp - 468_336;
        proof {
            lemma_mul_abs_le(13 * ll, du as int, 1_300_000, 4_000_000);
            lemma_mul_abs_le(13 * ll, dv as int, 1_300_000, 600_000);
        }
        let u = sdiv(13 * ll * du, 1_000_000);
        let v = sdiv(13 * ll * dv, 1_000_000);
        proof {
            lemma_sdiv_s_le(13 * (ll as int) * du, 1_000_000, 5_200_000);
            lemma_sdiv_s_le(13 * (ll as int) * dv, 1_000_000, 780_000);
        }
        (ll, u, v)
    }
}

/// 8-bit sRGB from CIE Luv coordinates, clamping the chromaticity to its
/// physical range.
#[verifier::opaque]
pub open spec fn luv_to_rgb8_s(ll: int, u: int, v: int) -> Rgb8 {
    if ll <= 0 {
        Rgb8 { r: 0, g: 0, b: 0 }
    } else {
        let fyv = clamp_s(sdiv_s((ll + 16000) * 65536, 116_000), 0, 65536);
        let yy = lab_f_inv_s(fyv);
        let up = clamp_s(sdiv_s(u * 1_000_000, 13 * ll) + 197_839, 0, 4_000_000);
        let vp = clamp_s(sdiv_s(v * 1_000_000, 13 * ll) + 468_336, 1, 600_000);
        let xx = clamp_s(sdiv_s(9 * yy * up, 4 * vp), 0, 200_000);
        let zz = clamp_s(sdiv_s(yy * (12_000_000 - 3 * up - 20 * vp), 4 * vp), 0, 200_000);
        let xr = clamp_s((xx * 100_000) / 95_047, 0, 65536);
        let zr = clamp_s((zz * 100_000) / 108_883, 0, 65536);
        let t = linear_of_xyz_s(xr, yy, zr);
        Rgb8 {
            r: channel_of_linear(t.0) as u8,
            g: channel_of_linear(t.1) as u8,
            b: channel_of_linear(t.2) as u8,
        }
    }
}

pub fn luv_to_rgb8(ll: i64, u: i64, v: i64) -> (rgb: Rgb8)
    requires
        0 <= ll <= 100_000,
        abs_s(u as int) <= 6_000_000,
        abs_s(v as int) <= 6_000_000,
    ensures
        rgb == luv_to_rgb8_s(ll as int, u as int, v as int),
{
    proof {
        reveal(luv_to_rgb8_s);
    }
    if ll <= 0 {
        Rgb8 { r: 0, g: 0, b: 0 }
    } else {
        let fyv = clamp_i64(sdiv((ll + 16000) * 65536, 116_000), 0, 65536);
        let yy = lab_f_inv(fyv);
        let up = clamp_i64(sdiv(u * 1_000_000, 13 * ll) + 197_839, 0, 4_000_000);
        let vp = clamp_i64(sdiv(v * 1_000_000, 13 * ll) + 468_336, 1, 600_000);
        proof {
            lemma_mul_abs_le(9 * yy, up as int, 589_824, 4_000_000);
            lemma_mul_abs_le(yy as int, 12_000_000 - 3 * up - 20 * vp, 65536, 24_000_000);
        }
        let xx = clamp_i64(sdiv(9 * yy * up, 4 * vp), 0, 200_000);
        let zz = clamp_i64(sdiv(yy * (12_000_000 - 3 * up - 20 * vp), 4 * vp), 0, 200_000);
        let xr = clamp_i64(sdiv(xx * 100_000, 95_047), 0, 65536);
        let zr = clamp_i64(sdiv(zz * 100_000, 108_883), 0, 65536);
        let (tr, tg, tb) = linear_of_xyz(xr, yy, zr);
        proof {
            lemma_channel_of_linear_range(tr as int);
            lemma_channel_of_linear_range(tg as int);
            lemma_channel_of_linear_range(tb as int);
        }
        Rgb8 {
            r: srgb_from_linear(tr),
            g: srgb_from_linear(tg),
            b: srgb_from_linear(tb),
        }
    }
}

/// The working-space point of an 8-bit sRGB sample.
pub open spec fn point_from_rgb8_s(space: ColorSpace, c: Rgb8) -> Point3 {
    match space {
        ColorSpace::Rgb => Point3 {
            x: (c.r as int * 1000) as i64,
            y: (c.g as int * 1000) as i64,
            z: (c.b as int * 1000) as i64,
        },
        ColorSpace::Hsl => {
            let t = rgb8_to_hsl_s(c);
            Point3 { x: t.0 as i64, y: t.1 as i64, z: t.2 as i64 }
        },
        ColorSpace::Hsv => {
            let t = rgb8_to_hsv_s(c);
            Point3 { x: t.h, y: t.s, z: t.v }
        },
        ColorSpace::Yuv => {
            let t = rgb8_to_yuv_s(c);
            Point3 { x: t.0 as i64, y: t.1 as i64, z: t.2 as i64 }
        },
        ColorSpace::Lab => {
            let t = rgb8_to_lab_s(c);
            Point3 { x: t.l, y: t.a, z: t.b }
        },
        ColorSpace::Luv => {
            let t = rgb8_to_luv_s(c);
            Point3 { x: t.0 as i64, y: t.1 as i64, z: t.2 as i64 }
        },
    }
}

pub fn point_from_rgb8(space: ColorSpace, c: Rgb8) -> (p: Point3)
    ensures
        p == point_from_rgb8_s(space, c),
        point_wf(p),
{
    match space {
        ColorSpace::Rgb => Point3 {
            x: c.r as i64 * 1000,
            y: c.g as i64 * 1000,
            z: c.b as i64 * 1000,
        },
        ColorSpace::Hsl => {
            let (h, s, l) = rgb8_to_hsl(c);
            Point3 { x: h, y: s, z: l }
        },
        ColorSpace::Hsv => {
            let t = rgb8_to_hsv(c);
            Point3 { x: t.h, y: t.s, z: t.v }
        },
        ColorSpace::Yuv => {
            let (y, u, v) = rgb8_to_yuv(c);
            Point3 { x: y, y: u, z: v }
        },
        ColorSpace::Lab => {
            let t = rgb8_to_lab(c);
            Point3 { x: t.l, y: t.a, z: t.b }
        },
        ColorSpace::Luv => {
            let (l, u, v) = rgb8_to_luv(c);
            Point3 { x: l, y: u, z: v }
        },
    }
}

/// The canonical 8-bit sRGB color of a working-space point (a cluster
/// centroid): the coordinates are clamped to the space's range and converted
/// back.
pub open spec fn rgb8_from_point_s(space: ColorSpace, p: Point3) -> Rgb8 {
    match space {
        ColorSpace::Rgb => Rgb8 {
            r: ((clamp_s(p.x as int, 0, 255_000) + 500) / 1000) as u8,
            g: ((clamp_s(p.y as int, 0, 255_000) + 500) / 1000) as u8,
            b: ((clamp_s(p.z as int, 0, 255_000) + 500) / 1000) as u8,
        },
        ColorSpace::Hsl => hsl_to_rgb8_s(
            clamp_s(p.x as int, 0, 359_999),
            clamp_s(p.y as int, 0, 1000),
            clamp_s(p.z as int, 0, 1000),
        ),
        ColorSpace::Hsv => hsv_to_rgb8_s(
            Hsv {
                h: clamp_s(p.x as int, 0, 359_999) as i64,
                s: clamp_s(p.y as int, 0, 1000) as i64,
                v: clamp_s(p.z as int, 0, 1000) as i64,
            },
        ),
        ColorSpace::Yuv => yuv_to_rgb8_s(
            clamp_s(p.x as int, 0, 1000),
            clamp_s(p.y as int, -500, 500),
            clamp_s(p.z as int, -900, 900),
        ),
        ColorSpace::Lab => lab_to_rgb8_s(
            Lab {
                l: clamp_s(p.x as int, 0, 100_000) as i64,
                a: clamp_s(p.y as int, -500_000, 500_000) as i64,
                b: clamp_s(p.z as int, -500_000, 500_000) as i64,
            },
        ),
        ColorSpace::Luv => luv_to_rgb8_s(
            clamp_s(p.x as int, 0, 100_000),
            clamp_s(p.y as int, -6_000_000, 6_000_000),
            clamp_s(p.z as int, -6_000_000, 6_000_000),
        ),
    }
}

pub fn rgb8_from_point(space: ColorSpace, p: Point3) -> (c: Rgb8)
    ensures
        c == rgb8_from_point_s(space, p),
{
    match space {
        ColorSpace::Rgb => {
            let xr = clamp_i64(p.x, 0, 255_000);
            let yg = clamp_i64(p.y, 0, 255_000);
            let zb = clamp_i64(p.z, 0, 255_000);
            proof {
                vstd::arithmetic::div_mod::lemma_div_is_ordered(xr + 500, 255_500, 1000);
                vstd::arithmetic::div_mod::lemma_div_is_ordered(yg + 500, 255_500, 1000);
                vstd::arithmetic::div_mod::lemma_div_is_ordered(zb + 500, 255_500, 1000);
                vstd::arithmetic::div_mod::lemma_div_basics_4(xr + 500, 1000);
                vstd::arithmetic::div_mod::lemma_div_basics_4(yg + 500, 1000);
                vstd::arithmetic::div_mod::lemma_div_basics_4(zb + 500, 1000);
            }
            Rgb8 {
                r: sdiv(xr + 500, 1000) as u8,
                g: sdiv(yg + 500, 1000) as u8,
                b: sdiv(zb + 500, 1000) as u8,
            }
        },
        ColorSpace::Hsl => hsl_to_rgb8(
            clamp_i64(p.x, 0, 359_999),
            clamp_i64(p.y, 0, 1000),
            clamp_i64(p.z, 0, 1000),
        ),
        ColorSpace::Hsv => hsv_to_rgb8(
            Hsv {
                h: clamp_i64(p.x, 0, 359_999),
                s: clamp_i64(p.y, 0, 1000),
                v: clamp_i64(p.z, 0, 1000),
            },
        ),
        ColorSpace::Yuv => yuv_to_rgb8(
            clamp_i64(p.x, 0, 1000),
            clamp_i64(p.y, -500, 500),
            clamp_i64(p.z, -900, 900),
        ),
        ColorSpace::Lab => lab_to_rgb8(
            Lab {
                l: clamp_i64(p.x, 0, 100_000),
                a: clamp_i64(p.y, -500_000, 500_000),
                b: clamp_i64(p.z, -500_000, 500_000),
            },
        ),
        ColorSpace::Luv => luv_to_rgb8(
            clamp_i64(p.x, 0, 100_000),
            clamp_i64(p.y, -6_000_000, 6_000_000),
            clamp_i64(p.z, -6_000_000, 6_000_000),
        ),
    }
}

} // verus!
