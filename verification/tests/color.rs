use rmpc_theme_gen::fmt::rgb_to_hex;
use rmpc_theme_gen::hsv::{hsl_to_rgb8, hsv_to_rgb8, rgb8_to_hsl, rgb8_to_hsv};
use rmpc_theme_gen::lab::{
    contrast_ratio, delta_e_cie76, lab_to_rgb8, rgb8_to_lab, Lab, Rgb8,
};
use rmpc_theme_gen::space::{point_from_rgb8, rgb8_from_point, ColorSpace};

fn diff(a: u8, b: u8) -> i32 {
    (a as i32 - b as i32).abs()
}

#[test]
fn rgb_lab_round_trip_gray_axis() {
    for v in 0..=255u8 {
        let c = Rgb8 { r: v, g: v, b: v };
        let lab = rgb8_to_lab(c);
        let back = lab_to_rgb8(lab);
        assert!(diff(back.r, c.r) <= 1, "r at {}: {}", v, back.r);
        assert!(diff(back.g, c.g) <= 1, "g at {}: {}", v, back.g);
        assert!(diff(back.b, c.b) <= 1, "b at {}: {}", v, back.b);
    }
}

#[test]
fn rgb_lab_round_trip_grid() {
    let mut v: u32 = 0;
    while v < 256 {
        let mut g: u32 = 0;
        while g < 256 {
            let mut b: u32 = 0;
            while b < 256 {
                let c = Rgb8 { r: v as u8, g: g as u8, b: b as u8 };
                let back = lab_to_rgb8(rgb8_to_lab(c));
                assert!(diff(back.r, c.r) <= 1);
                assert!(diff(back.g, c.g) <= 1);
                assert!(diff(back.b, c.b) <= 1);
                b += 51;
            }
            g += 51;
        }
        v += 51;
    }
}

#[test]
fn contrast_symmetric_and_in_range() {
    let samples = [
        Rgb8 { r: 0, g: 0, b: 0 },
        Rgb8 { r: 255, g: 255, b: 255 },
        Rgb8 { r: 200, g: 30, b: 30 },
        Rgb8 { r: 10, g: 120, b: 240 },
        Rgb8 { r: 128, g: 128, b: 128 },
    ];
    for a in samples.iter() {
        for b in samples.iter() {
            let la = rgb8_to_lab(*a);
            let lb = rgb8_to_lab(*b);
            let c1 = contrast_ratio(la, lb);
            let c2 = contrast_ratio(lb, la);
            assert_eq!(c1, c2);
            assert!(c1 >= 1000 && c1 <= 21000);
        }
    }
}

#[test]
fn contrast_black_white_extreme() {
    let black = rgb8_to_lab(Rgb8 { r: 0, g: 0, b: 0 });
    let white = rgb8_to_lab(Rgb8 { r: 255, g: 255, b: 255 });
    let c = contrast_ratio(black, white);
    assert_eq!(c, 20998);
    assert_eq!(contrast_ratio(black, black), 1000);
}

#[test]
fn delta_e_zero_on_self() {
    let samples = [
        Rgb8 { r: 0, g: 0, b: 0 },
        Rgb8 { r: 255, g: 255, b: 255 },
        Rgb8 { r: 17, g: 201, b: 96 },
    ];
    for c in samples.iter() {
        let lab = rgb8_to_lab(*c);
        assert_eq!(delta_e_cie76(lab, lab), 0);
    }
    let z = Lab { l: 43_210, a: -1234, b: 9876 };
    assert_eq!(delta_e_cie76(z, z), 0);
}

#[test]
fn delta_e_symmetric_and_exact() {
    let a = Lab { l: 10_000, a: 0, b: 0 };
    let b = Lab { l: 13_000, a: 4000, b: 0 };
    assert_eq!(delta_e_cie76(a, b), delta_e_cie76(b, a));
    assert_eq!(delta_e_cie76(a, b), 5000);
}

#[test]
fn hex_rendering() {
    assert_eq!(rgb_to_hex(Rgb8 { r: 255, g: 0, b: 16 }), "#ff0010");
    assert_eq!(rgb_to_hex(Rgb8 { r: 0, g: 0, b: 0 }), "#000000");
    assert_eq!(rgb_to_hex(Rgb8 { r: 171, g: 205, b: 239 }), "#abcdef");
}

#[test]
fn hsv_of_primaries() {
    let red = rgb8_to_hsv(Rgb8 { r: 255, g: 0, b: 0 });
    assert_eq!(red.h, 0);
    assert_eq!(red.s, 1000);
    assert_eq!(red.v, 1000);
    let green = rgb8_to_hsv(Rgb8 { r: 0, g: 255, b: 0 });
    assert_eq!(green.h, 120_000);
    let blue = rgb8_to_hsv(Rgb8 { r: 0, g: 0, b: 255 });
    assert_eq!(blue.h, 240_000);
    let gray = rgb8_to_hsv(Rgb8 { r: 128, g: 128, b: 128 });
    assert_eq!(gray.h, 0);
    assert_eq!(gray.s, 0);
}

#[test]
fn hsv_round_trip() {
    let samples = [
        Rgb8 { r: 255, g: 0, b: 0 },
        Rgb8 { r: 12, g: 200, b: 100 },
        Rgb8 { r: 240, g: 240, b: 240 },
    ];
    for c in samples.iter() {
        let back = hsv_to_rgb8(rgb8_to_hsv(*c));
        assert!(diff(back.r, c.r) <= 2);
        assert!(diff(back.g, c.g) <= 2);
        assert!(diff(back.b, c.b) <= 2);
    }
}

#[test]
fn hsl_round_trip() {
    let samples = [
        Rgb8 { r: 255, g: 0, b: 0 },
        Rgb8 { r: 12, g: 200, b: 100 },
        Rgb8 { r: 30, g: 30, b: 30 },
    ];
    for c in samples.iter() {
        let (h, s, l) = rgb8_to_hsl(*c);
        let back = hsl_to_rgb8(h, s, l);
        assert!(diff(back.r, c.r) <= 2);
        assert!(diff(back.g, c.g) <= 2);
        assert!(diff(back.b, c.b) <= 2);
    }
}

#[test]
fn working_space_round_trips() {
    let spaces = [
        ColorSpace::Rgb,
        ColorSpace::Hsl,
        ColorSpace::Hsv,
        ColorSpace::Yuv,
        ColorSpace::Lab,
        ColorSpace::Luv,
    ];
    let samples = [
        Rgb8 { r: 0, g: 0, b: 0 },
        Rgb8 { r: 255, g: 255, b: 255 },
        Rgb8 { r: 200, g: 30, b: 30 },
        Rgb8 { r: 64, g: 128, b: 192 },
    ];
    for space in spaces.iter() {
        for c in samples.iter() {
            let p = point_from_rgb8(*space, *c);
            let back = rgb8_from_point(*space, p);
            assert!(
                diff(back.r, c.r) <= 2 && diff(back.g, c.g) <= 2 && diff(back.b, c.b) <= 2,
                "space {:?} color {:?} -> {:?}",
                space,
                c,
                back
            );
        }
    }
}

#[test]
fn lab_exact_reference_values() {
    let gray = rgb8_to_lab(Rgb8 { r: 240, g: 240, b: 240 });
    assert_eq!((gray.l, gray.a, gray.b), (94_796, -7, 0));
    let red = rgb8_to_lab(Rgb8 { r: 200, g: 30, b: 30 });
    assert_eq!((red.l, red.a, red.b), (43_219, 63_034, 45_217));
    let white = rgb8_to_lab(Rgb8 { r: 255, g: 255, b: 255 });
    assert_eq!(white.l, 100_000);
    let black = rgb8_to_lab(Rgb8 { r: 0, g: 0, b: 0 });
    assert_eq!((black.l, black.a, black.b), (0, 0, 0));
}
