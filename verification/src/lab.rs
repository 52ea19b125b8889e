//! CIE Lab (D65 reference white) in fixed point: conversion from and to 8-bit
//! sRGB through XYZ, the WCAG contrast ratio and the CIE76 perceptual
//! distance. Lab coordinates are in milli-units (L of 100 is stored as
//! 100000); linear-light and XYZ values are scaled by 65536.
use vstd::prelude::*;

use crate::fx::{
    abs_s, clamp_i64, clamp_s, icbrt, icbrt_s, isqrt, isqrt_s, lemma_isqrt_s_char,
    lemma_sdiv_s_le, sdiv, sdiv_s,
};
use crate::srgb::{
    channel_of_linear, lemma_channel_of_linear_range, lin_of, srgb_from_linear, srgb_linear,
};

verus! {

/// An 8-bit sRGB color.
#[derive(Clone, Copy, Debug, PartialEq, Eq, Structural)]
pub struct Rgb8 {
    pub r: u8,
    pub g: u8,
    pub b: u8,
}

/// A CIE Lab color in milli-units.
#[derive(Clone, Copy, Debug, PartialEq, Eq, Structural)]
pub struct Lab {
    pub l: i64,
    pub a: i64,
    pub b: i64,
}

/// Bounds within which every Lab value handled by the library stays; colors
/// converted from RGB8 satisfy the tighter `lab_canonical` below.
pub open spec fn lab_wf(c: Lab) -> bool {
    &&& -500_000 <= c.l <= 500_000
    &&& -2_000_000 <= c.a <= 2_000_000
    &&& -2_000_000 <= c.b <= 2_000_000
}

/// Bounds of a Lab value derived from an 8-bit RGB color.
pub open spec fn lab_canonical(c: Lab) -> bool {
    &&& 0 <= c.l <= 100_000
    &&& -500_000 <= c.a <= 500_000
    &&& -500_000 <= c.b <= 500_000
}

pub proof fn lemma_canonical_is_wf(c: Lab)
    requires
        lab_canonical(c),
    ensures
        lab_wf(c),
{
}

/// X coordinate relative to the white point, scaled by 65536, from
/// linear-light sRGB channels (sRGB-to-XYZ matrix rows pre-divided by the
/// white point).
pub open spec fn xr_of_linear(lr: int, lg: int, lb: int) -> int {
    clamp_s((28439 * lr + 24655 * lg + 12441 * lb) / 65536, 0, 65536)
}

/// Y coordinate (relative luminance), scaled by 65536.
pub open spec fn yr_of_linear(lr: int, lg: int, lb: int) -> int {
    clamp_s((13938 * lr + 46868 * lg + 4730 * lb) / 65536, 0, 65536)
}

/// Z coordinate relative to the white point, scaled by 65536.
pub open spec fn zr_of_linear(lr: int, lg: int, lb: int) -> int {
    clamp_s((1164 * lr + 7174 * lg + 57198 * lb) / 65536, 0, 65536)
}

/// The CIE `f` function of the Lab definition: a cube root above the small
/// linear segment near zero. Domain and range are `[0, 65536]`.
#[verifier::opaque]
pub open spec fn lab_f_s(t: int) -> int {
    if t > 580 {
        icbrt_s(t * 0x1_0000_0000)
    } else {
        (t * 7787) / 1000 + 9039
    }
}

pub fn lab_f(t: i64) -> (r: i64)
    requires
        0 <= t <= 65536,
    ensures
        r == lab_f_s(t as int),
        0 <= r <= 65536,
{
    proof {
        reveal(lab_f_s);
    }
    if t > 580 {
        icbrt(t * 0x1_0000_0000)
    } else {
        sdiv(t * 7787, 1000) + 9039
    }
}

/// Lab from 8-bit sRGB: linearize each channel, form XYZ relative to the
/// white point, and apply the `f` function.
#[verifier::opaque]
pub open spec fn rgb8_to_lab_s(c: Rgb8) -> Lab {
    let lr = lin_of(c.r);
    let lg = lin_of(c.g);
    let lb = lin_of(c.b);
    let fxv = lab_f_s(xr_of_linear(lr as int, lg as int, lb as int));
    let fyv = lab_f_s(yr_of_linear(lr as int, lg as int, lb as int));
    let fzv = lab_f_s(zr_of_linear(lr as int, lg as int, lb as int));
    Lab {
        l: clamp_s(sdiv_s(116 * fyv * 1000, 65536) - 16000, 0, 100_000) as i64,
        a: sdiv_s(500 * (fxv - fyv) * 1000, 65536) as i64,
        b: sdiv_s(200 * (fyv - fzv) * 1000, 65536) as i64,
    }
}

pub fn rgb8_to_lab(c: Rgb8) -> (lab: Lab)
    ensures
        lab == rgb8_to_lab_s(c),
        lab_canonical(lab),
        lab_wf(lab),
{
    proof {
        reveal(rgb8_to_lab_s);
    }
    let lr = srgb_linear(c.r);
    let lg = srgb_linear(c.g);
    let lb = srgb_linear(c.b);
    let xr = clamp_i64(sdiv(28439 * lr + 24655 * lg + 12441 * lb, 65536), 0, 65536);
    let yr = clamp_i64(sdiv(13938 * lr + 46868 * lg + 4730 * lb, 65536), 0, 65536);
    let zr = clamp_i64(sdiv(1164 * lr + 7174 * lg + 57198 * lb, 65536), 0, 65536);
    let fxv = lab_f(xr);
    let fyv = lab_f(yr);
    let fzv = lab_f(zr);
    let l = clamp_i64(sdiv(116 * fyv * 1000, 65536) - 16000, 0, 100_000);
    let a = sdiv(500 * (fxv - fyv) * 1000, 65536);
    let b = sdiv(200 * (fyv - fzv) * 1000, 65536);
    proof {
        lemma_sdiv_s_le(500 * (fxv - fyv) * 1000, 65536, 500_000);
        lemma_sdiv_s_le(200 * (fyv - fzv) * 1000, 65536, 500_000);
    }
    Lab { l, a, b }
}

/// Inverse of the `f` function: a cube below the linear segment's image.
#[verifier::opaque]
pub open spec fn lab_f_inv_s(f: int) -> int {
    if f > 13561 {
        (f * f * f) / 0x1_0000_0000
    } else {
        clamp_s(sdiv_s((f - 9039) * 1000, 7787), 0, 65536)
    }
}

pub fn lab_f_inv(f: i64) -> (r: i64)
    requires
        0 <= f <= 65536,
    ensures
        r == lab_f_inv_s(f as int),
        0 <= r <= 65536,
{
    proof {
        reveal(lab_f_inv_s);
    }
    if f > 13561 {
        proof {
            assert(0 <= f * f * f <= 65536 * 65536 * 65536 && 0 <= f * f <= 65536 * 65536)
                by (nonlinear_arith)
                requires
                    0 <= f <= 65536,
            {
            }
        }
        let cube = f * f * f;
        let r = sdiv(cube, 0x1_0000_0000);
        proof {
            lemma_sdiv_s_le(cube as int, 0x1_0000_0000, 65536);
        }
        r
    } else {
        clamp_i64(sdiv((f - 9039) * 1000, 7787), 0, 65536)
    }
}

/// Linear-light sRGB channels from XYZ coordinates relative to the white
/// point (each scaled by 65536, clamped to the sRGB gamut): the XYZ-to-sRGB
/// matrix with the white point multiplied back in.
#[verifier::opaque]
pub open spec fn linear_of_xyz_s(xr: int, yr: int, zr: int) -> (int, int, int) {
    (
        clamp_s(sdiv_s(201848 * xr - 100738 * yr - 35574 * zr, 65536), 0, 65536),
        clamp_s(sdiv_s(-60376 * xr + 122946 * yr + 2965 * zr, 65536), 0, 65536),
        clamp_s(sdiv_s(3466 * xr - 13371 * yr + 75441 * zr, 65536), 0, 65536),
    )
}

pub fn linear_of_xyz(xr: i64, yr: i64, zr: i64) -> (r: (i64, i64, i64))
    requires
        0 <= xr <= 65536,
        0 <= yr <= 65536,
        0 <= zr <= 65536,
    ensures
        (r.0 as int, r.1 as int, r.2 as int) == linear_of_xyz_s(xr as int, yr as int, zr as int),
        0 <= r.0 <= 65536 && 0 <= r.1 <= 65536 && 0 <= r.2 <= 65536,
{
    proof {
        reveal(linear_of_xyz_s);
    }
    let lr = clamp_i64(sdiv(201848 * xr - 100738 * yr - 35574 * zr, 65536), 0, 65536);
    let lg = clamp_i64(sdiv(122946 * yr + 2965 * zr - 60376 * xr, 65536), 0, 65536);
    let lb = clamp_i64(sdiv(3466 * xr - 13371 * yr + 75441 * zr, 65536), 0, 65536);
    (lr, lg, lb)
}

/// Linear-light sRGB channels of a Lab color, each clamped to `[0, 65536]`
/// (gamut clipping), through the inverse `f` function and the XYZ-to-sRGB
/// matrix.
#[verifier::opaque]
pub open spec fn lab_to_linear_s(c: Lab) -> (int, int, int) {
    let fy0 = sdiv_s((c.l + 16000) * 65536, 116_000);
    let fxv = clamp_s(fy0 + sdiv_s(c.a * 65536, 500_000), 0, 65536);
    let fzv = clamp_s(fy0 - sdiv_s(c.b * 65536, 200_000), 0, 65536);
    let fyv = clamp_s(fy0, 0, 65536);
    linear_of_xyz_s(lab_f_inv_s(fxv), lab_f_inv_s(fyv), lab_f_inv_s(fzv))
}

pub fn lab_to_linear(c: Lab) -> (r: (i64, i64, i64))
    requires
        lab_wf(c),
    ensures
        (r.0 as int, r.1 as int, r.2 as int) == lab_to_linear_s(c),
        0 <= r.0 <= 65536 && 0 <= r.1 <= 65536 && 0 <= r.2 <= 65536,
{
    proof {
        reveal(lab_to_linear_s);
    }
    let fy0 = sdiv((c.l + 16000) * 65536, 116_000);
    let fxv = clamp_i64(fy0 + sdiv(c.a * 65536, 500_000), 0, 65536);
    let fzv = clamp_i64(fy0 - sdiv(c.b * 65536, 200_000), 0, 65536);
    let fyv = clamp_i64(fy0, 0, 65536);
    let xr = lab_f_inv(fxv);
    let yr = lab_f_inv(fyv);
    let zr = lab_f_inv(fzv);
    linear_of_xyz(xr, yr, zr)
}

/// WCAG relative luminance of a Lab color, scaled by 65536, from its
/// linear-light channels.
#[verifier::opaque]
pub open spec fn y_of_lab_s(c: Lab) -> int {
    let t = lab_to_linear_s(c);
    (2126 * t.0 + 7152 * t.1 + 722 * t.2) / 10000
}

pub proof fn lemma_y_of_lab_bounds(c: Lab)
    ensures
        0 <= y_of_lab_s(c) <= 65536,
{
    reveal(y_of_lab_s);
    reveal(lab_to_linear_s);
    reveal(linear_of_xyz_s);
    let t = lab_to_linear_s(c);
    let num = 2126 * t.0 + 7152 * t.1 + 722 * t.2;
    assert(0 <= num <= 655360000);
    vstd::arithmetic::div_mod::lemma_div_is_ordered(num, 655360000, 10000);
    vstd::arithmetic::div_mod::lemma_div_basics_4(num, 10000);
}

fn y_of_lab(c: Lab) -> (y: i64)
    requires
        lab_wf(c),
    ensures
        y == y_of_lab_s(c),
        0 <= y <= 65536,
{
    let (lr, lg, lb) = lab_to_linear(c);
    proof {
        reveal(y_of_lab_s);
        lemma_y_of_lab_bounds(c);
    }
    sdiv(2126 * lr + 7152 * lg + 722 * lb, 10000)
}

/// WCAG contrast ratio between two Lab colors, in milli-units: the relative
/// luminances are offset by 0.05 (3277 in the 65536 scale) and the larger is
/// divided by the smaller.
#[verifier::opaque]
pub open spec fn contrast_s(a: Lab, b: Lab) -> int {
    let ya = y_of_lab_s(a);
    let yb = y_of_lab_s(b);
    let hi = if ya >= yb {
        ya
    } else {
        yb
    };
    let lo = if ya >= yb {
        yb
    } else {
        ya
    };
    ((hi + 3277) * 1000) / (lo + 3277)
}

/// The contrast ratio is symmetric in its two arguments.
pub proof fn lemma_contrast_symmetric(a: Lab, b: Lab)
    ensures
        contrast_s(a, b) == contrast_s(b, a),
{
    reveal(contrast_s);
}

/// The contrast ratio lies in the WCAG range `[1, 21]`.
pub proof fn lemma_contrast_bounds(a: Lab, b: Lab)
    ensures
        1000 <= contrast_s(a, b) <= 20999,
{
    reveal(contrast_s);
    lemma_y_of_lab_bounds(a);
    lemma_y_of_lab_bounds(b);
    let ya = y_of_lab_s(a);
    let yb = y_of_lab_s(b);
    let hi = if ya >= yb {
        ya
    } else {
        yb
    };
    let lo = if ya >= yb {
        yb
    } else {
        ya
    };
    let num = (hi + 3277) * 1000;
    let den = lo + 3277;
    assert(num / den >= 1000) by (nonlinear_arith)
        requires
            num >= 1000 * den,
            den > 0,
    {
        vstd::arithmetic::div_mod::lemma_fundamental_div_mod(num, den);
        vstd::arithmetic::div_mod::lemma_mod_bound(num, den);
    }
    vstd::arithmetic::div_mod::lemma_div_is_ordered_by_denominator(num, 3277, den);
    vstd::arithmetic::div_mod::lemma_div_is_ordered(num, 68813000, 3277);
}

pub fn contrast_ratio(a: Lab, b: Lab) -> (r: i64)
    requires
        lab_wf(a),
        lab_wf(b),
    ensures
        r == contrast_s(a, b),
        1000 <= r <= 20999,
{
    proof {
        reveal(contrast_s);
    }
    let ya = y_of_lab(a);
    let yb = y_of_lab(b);
    let hi = if ya >= yb {
        ya
    } else {
        yb
    };
    let lo = if ya >= yb {
        yb
    } else {
        ya
    };
    proof {
        lemma_contrast_bounds(a, b);
    }
    sdiv((hi + 3277) * 1000, lo + 3277)
}

/// CIE76 perceptual distance: the Euclidean distance in Lab space, in
/// milli-units.
#[verifier::opaque]
pub open spec fn delta_e_s(x: Lab, y: Lab) -> int {
    isqrt_s(
        (x.l - y.l) * (x.l - y.l) + (x.a - y.a) * (x.a - y.a) + (x.b - y.b) * (x.b - y.b),
    )
}

pub fn delta_e_cie76(x: Lab, y: Lab) -> (r: i64)
    requires
        lab_wf(x),
        lab_wf(y),
    ensures
        r == delta_e_s(x, y),
        0 <= r <= 0x80_0000,
{
    proof {
        reveal(delta_e_s);
    }
    let dl = x.l - y.l;
    let da = x.a - y.a;
    let db = x.b - y.b;
    proof {
        assert(0 <= dl * dl <= 1_000_000 * 1_000_000 && 0 <= da * da <= 4_000_000 * 4_000_000
            && 0 <= db * db <= 4_000_000 * 4_000_000) by (nonlinear_arith)
            requires
                abs_s(dl as int) <= 1_000_000,
                abs_s(da as int) <= 4_000_000,
                abs_s(db as int) <= 4_000_000,
        {
        }
    }
    isqrt(dl * dl + da * da + db * db)
}

/// The perceptual distance of two well-formed colors is a valid
/// non-negative milli-unit value.
pub proof fn lemma_delta_e_bounds(x: Lab, y: Lab)
    requires
        lab_wf(x),
        lab_wf(y),
    ensures
        0 <= delta_e_s(x, y) <= 0x80_0000,
{
    reveal(delta_e_s);
    crate::fx::lemma_mul_abs_le(x.l - y.l, x.l - y.l, 1_000_000, 1_000_000);
    crate::fx::lemma_mul_abs_le(x.a - y.a, x.a - y.a, 4_000_000, 4_000_000);
    crate::fx::lemma_mul_abs_le(x.b - y.b, x.b - y.b, 4_000_000, 4_000_000);
    assert(0 <= (x.l - y.l) * (x.l - y.l)) by (nonlinear_arith);
    assert(0 <= (x.a - y.a) * (x.a - y.a)) by (nonlinear_arith);
    assert(0 <= (x.b - y.b) * (x.b - y.b)) by (nonlinear_arith);
    lemma_isqrt_s_char(
        (x.l - y.l) * (x.l - y.l) + (x.a - y.a) * (x.a - y.a) + (x.b - y.b) * (x.b - y.b),
    );
}

/// The perceptual distance of a color from itself is zero.
pub proof fn lemma_delta_e_self_zero(c: Lab)
    ensures
        delta_e_s(c, c) == 0,
{
    reveal(delta_e_s);
    lemma_isqrt_s_char(0);
    let r = isqrt_s(0);
    assert(r == 0) by (nonlinear_arith)
        requires
            0 <= r,
            r * r <= 0,
    {
    }
}

/// The perceptual distance is symmetric in its two arguments.
pub proof fn lemma_delta_e_symmetric(x: Lab, y: Lab)
    ensures
        delta_e_s(x, y) == delta_e_s(y, x),
{
    reveal(delta_e_s);
    assert((x.l - y.l) * (x.l - y.l) == (y.l - x.l) * (y.l - x.l)) by (nonlinear_arith);
    assert((x.a - y.a) * (x.a - y.a) == (y.a - x.a) * (y.a - x.a)) by (nonlinear_arith);
    assert((x.b - y.b) * (x.b - y.b) == (y.b - x.b) * (y.b - x.b)) by (nonlinear_arith);
}

/// The canonical 8-bit RGB form of a Lab color: each linear-light channel is
/// snapped to the nearest 8-bit sRGB channel.
#[verifier::opaque]
pub open spec fn lab_to_rgb8_s(c: Lab) -> Rgb8 {
    let t = lab_to_linear_s(c);
    Rgb8 {
        r: channel_of_linear(t.0) as u8,
        g: channel_of_linear(t.1) as u8,
        b: channel_of_linear(t.2) as u8,
    }
}

pub fn lab_to_rgb8(c: Lab) -> (rgb: Rgb8)
    requires
        lab_wf(c),
    ensures
        rgb == lab_to_rgb8_s(c),
{
    proof {
        reveal(lab_to_rgb8_s);
    }
    let (lr, lg, lb) = lab_to_linear(c);
    proof {
        lemma_channel_of_linear_range(lr as int);
        lemma_channel_of_linear_range(lg as int);
        lemma_channel_of_linear_range(lb as int);
    }
    Rgb8 { r: srgb_from_linear(lr), g: srgb_from_linear(lg), b: srgb_from_linear(lb) }
}

} // verus!
