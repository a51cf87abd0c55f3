use color_operations::api::convert_arr;
use color_operations::colorspace::{conversion_path, convert, ColorSpace, Edge};
use color_operations::raster::{Raster, ShapeError};
use color_operations::saturation::{saturate_rgb, saturate_single_rgb};

const BINTERCEPT: f64 = 4.0 / 29.0;
const DELTA: f64 = 6.0 / 29.0;
const T0: f64 = DELTA * DELTA * DELTA;
const ALPHA: f64 = 1.0 / (DELTA * DELTA) / 3.0;
const KAPPA: f64 = (29.0 / 3.0) * (29.0 / 3.0) * (29.0 / 3.0);
const THIRD: f64 = 1.0 / 3.0;
const XN: f64 = 0.95047;
const YN: f64 = 1.0;
const ZN: f64 = 1.08883;
const DENOM_N: f64 = XN + (15.0 * YN) + (3.0 * ZN);
const UPRIME_N: f64 = (4.0 * XN) / DENOM_N;
const VPRIME_N: f64 = (9.0 * YN) / DENOM_N;

type Triple = (f64, f64, f64);

fn linearize(c: f64) -> f64 {
    if c <= 0.04045 {
        c / 12.92
    } else {
        ((c + 0.055) / 1.055).powf(2.4)
    }
}

fn compand(c: f64) -> f64 {
    if c <= 0.0031308 {
        12.92 * c
    } else {
        (1.055 * c.powf(1.0 / 2.4)) - 0.055
    }
}

fn lab_f(t: f64) -> f64 {
    if t > T0 {
        t.powf(THIRD)
    } else {
        (ALPHA * t) + BINTERCEPT
    }
}

fn lab_f_inv(t: f64) -> f64 {
    if t > DELTA {
        t.powi(3)
    } else {
        3.0 * DELTA * DELTA * (t - BINTERCEPT)
    }
}

/// The f64 formula of each edge of the conversion graph.
fn edge(e: Edge, v: Triple) -> Triple {
    match e {
        Edge::RgbToXyz => {
            let (rl, gl, bl) = (linearize(v.0), linearize(v.1), linearize(v.2));
            let x = ((rl * 0.4124564) + (gl * 0.3575761) + (bl * 0.1804375)) / XN;
            let y = (rl * 0.2126729) + (gl * 0.7151522) + (bl * 0.0721750);
            let z = ((rl * 0.0193339) + (gl * 0.1191920) + (bl * 0.9503041)) / ZN;
            (x, y, z)
        }
        Edge::XyzToRgb => {
            let x = v.0 * XN;
            let y = v.1;
            let z = v.2 * ZN;
            let rlin = (x * 3.2404542) + (y * -1.5371385) + (z * -0.4985314);
            let glin = (x * -0.9692660) + (y * 1.8760108) + (z * 0.0415560);
            let blin = (x * 0.0556434) + (y * -0.2040259) + (z * 1.0572252);
            (
                compand(rlin).clamp(0.0, 1.0),
                compand(glin).clamp(0.0, 1.0),
                compand(blin).clamp(0.0, 1.0),
            )
        }
        Edge::XyzToLab => {
            let (fx, fy, fz) = (lab_f(v.0), lab_f(v.1), lab_f(v.2));
            ((116.0 * fy) - 16.0, 500.0 * (fx - fy), 200.0 * (fy - fz))
        }
        Edge::LabToXyz => {
            let (l, a, b) = v;
            let ty = (l + 16.0) / 116.0;
            (lab_f_inv(ty + (a / 500.0)), lab_f_inv(ty), lab_f_inv(ty - (b / 200.0)))
        }
        Edge::LabToLch => {
            let (l, a, b) = v;
            (l, ((a * a) + (b * b)).powf(0.5), b.atan2(a))
        }
        Edge::LchToLab => {
            let (l, c, h) = v;
            (l, c * h.cos(), c * h.sin())
        }
        Edge::XyzToLuv => {
            let (x, y, z) = v;
            let denom = x + (15.0 * y) + (3.0 * z);
            let uprime = (4.0 * x) / denom;
            let vprime = (9.0 * y) / denom;
            let y = y / YN;
            let l = if y <= T0 { KAPPA * y } else { (116.0 * y.powf(THIRD)) - 16.0 };
            (l, 13.0 * l * (uprime - UPRIME_N), 13.0 * l * (vprime - VPRIME_N))
        }
        Edge::LuvToXyz => {
            let (l, u, v) = v;
            if l == 0.0 {
                return (0.0, 0.0, 0.0);
            }
            let uprime = (u / (13.0 * l)) + UPRIME_N;
            let vprime = (v / (13.0 * l)) + VPRIME_N;
            let y = if l <= 8.0 { l / KAPPA } else { ((l + 16.0) / 116.0).powf(3.0) };
            let x = y * ((9.0 * uprime) / (4.0 * vprime));
            let z = y * ((12.0 - (3.0 * uprime) - (20.0 * vprime)) / (4.0 * vprime));
            (x, y, z)
        }
    }
}

fn times(c: f64, m: f64) -> f64 {
    c * m
}

fn near(a: Triple, b: Triple, tol: Triple) -> bool {
    (a.0 - b.0).abs() <= tol.0 && (a.1 - b.1).abs() <= tol.1 && (a.2 - b.2).abs() <= tol.2
}

const SPACES: [ColorSpace; 5] =
    [ColorSpace::rgb, ColorSpace::xyz, ColorSpace::lab, ColorSpace::lch, ColorSpace::luv];

fn known_pairs() -> Vec<(Triple, Triple)> {
    vec![
        ((0., 0., 0.), (0., 0., 0.)),
        ((1.0, 0., 0.), (53.2, 104.6, 0.7)),
        ((0.392156, 0.776470, 0.164705), (71.7, 83.5, 2.3)),
        ((0.0392, 0.1960, 0.3529), (20.3517, 27.8757, -1.4612)),
        ((0.0456, 0.1929, 0.3941), (20.8945, 34.9429, -1.3244)),
        ((1.0, 1.0, 1.0), (100., 0., 2.8)),
    ]
}

#[test]
fn test_lch_to_rgb() {
    for (rgb, lch) in known_pairs() {
        let argb = convert(lch, ColorSpace::lch, ColorSpace::rgb, &edge);
        assert!(near(argb, rgb, (1.0, 1.0, 0.1)));
    }
}

#[test]
fn test_saturate_rgb() {
    let rgb = (0.392156, 0.776470, 0.164705);
    let out_rgb = saturate_single_rgb(rgb, 0.0, &edge, &times);
    assert!((out_rgb.0 - out_rgb.1).abs() <= 0.1);
    assert!((out_rgb.1 - out_rgb.2).abs() <= 0.1);
}

#[test]
fn rgb_to_lch_known_values() {
    let cases: [(Triple, Triple, Triple); 3] = [
        ((0., 0., 0.), (0., 0., 0.), (1.0, 1.0, 0.1)),
        ((1.0, 0., 0.), (53.2, 104.6, 0.7), (1.0, 1.0, 0.1)),
        ((0.392156, 0.776470, 0.164705), (71.7, 83.5, 2.3), (1.0, 1.0, 0.1)),
    ];
    for (rgb, lch, tol) in cases {
        let got = convert(rgb, ColorSpace::rgb, ColorSpace::lch, &edge);
        assert!(near(got, lch, tol), "{:?} gave {:?}", rgb, got);
    }
    let white = convert((1.0, 1.0, 1.0), ColorSpace::rgb, ColorSpace::lch, &edge);
    assert!((white.0 - 100.0).abs() <= 1.0);
    assert!(white.1.abs() <= 1.0);
}

#[test]
fn identity_returns_input_unchanged() {
    let v = (0.123456789, -42.5, 1.0e9);
    for s in SPACES {
        assert_eq!(convert(v, s, s, &edge), v);
        assert!(conversion_path(s, s).is_empty());
    }
}

#[test]
fn round_trip_from_rgb() {
    let samples: [Triple; 4] = [(0.2, 0.4, 0.6), (0.9, 0.1, 0.5), (0.5, 0.5, 0.5), (0.05, 0.8, 0.3)];
    for v in samples {
        for s in SPACES {
            let there = convert(v, ColorSpace::rgb, s, &edge);
            let back = convert(there, s, ColorSpace::rgb, &edge);
            assert!(near(back, v, (1e-6, 1e-6, 1e-6)), "{:?} via {:?} gave {:?}", v, s, back);
        }
    }
}

#[test]
fn paths_follow_the_graph() {
    assert_eq!(conversion_path(ColorSpace::rgb, ColorSpace::lch), vec![Edge::RgbToXyz, Edge::XyzToLab, Edge::LabToLch]);
    assert_eq!(conversion_path(ColorSpace::lab, ColorSpace::luv), vec![Edge::LabToXyz, Edge::XyzToLuv]);
    assert_eq!(conversion_path(ColorSpace::luv, ColorSpace::lch), vec![Edge::LuvToXyz, Edge::XyzToLab, Edge::LabToLch]);
    assert_eq!(conversion_path(ColorSpace::lch, ColorSpace::rgb), vec![Edge::LchToLab, Edge::LabToXyz, Edge::XyzToRgb]);
    assert_eq!(conversion_path(ColorSpace::xyz, ColorSpace::rgb), vec![Edge::XyzToRgb]);
}

#[test]
fn dispatch_applies_edges_in_order() {
    // Each edge appends its own digit, so the result spells out the path taken.
    let code = |e: Edge, v: (u64, u64, u64)| {
        let d: u64 = match e {
            Edge::RgbToXyz => 1,
            Edge::XyzToRgb => 2,
            Edge::XyzToLab => 3,
            Edge::LabToXyz => 4,
            Edge::LabToLch => 5,
            Edge::LchToLab => 6,
            Edge::XyzToLuv => 7,
            Edge::LuvToXyz => 8,
        };
        (v.0 * 10 + d, v.1, v.2)
    };
    assert_eq!(convert((0, 7, 9), ColorSpace::rgb, ColorSpace::lch, &code), (135, 7, 9));
    assert_eq!(convert((0, 7, 9), ColorSpace::lch, ColorSpace::luv, &code), (647, 7, 9));
    assert_eq!(convert((0, 7, 9), ColorSpace::luv, ColorSpace::rgb, &code), (82, 7, 9));
}

#[test]
fn luv_zero_lightness_maps_to_black() {
    let xyz = convert((0.0, 12.0, -3.0), ColorSpace::luv, ColorSpace::xyz, &edge);
    assert_eq!(xyz, (0.0, 0.0, 0.0));
}

#[test]
fn conversion_to_rgb_is_clamped() {
    let rgb = convert((2.0, 2.0, 2.0), ColorSpace::xyz, ColorSpace::rgb, &edge);
    assert!(rgb.0 <= 1.0 && rgb.1 <= 1.0 && rgb.2 <= 1.0);
    let rgb = convert((0.0, -1.0, 0.0), ColorSpace::xyz, ColorSpace::rgb, &edge);
    assert!(rgb.0 >= 0.0 && rgb.1 >= 0.0 && rgb.2 >= 0.0);
}

fn raster_2x2() -> Raster<f64> {
    let data = vec![
        0.2, 0.9, 0.5, 0.05, // red band
        0.4, 0.1, 0.5, 0.8, // green band
        0.6, 0.5, 0.5, 0.3, // blue band
    ];
    Raster::new(3, 2, 2, data).unwrap()
}

#[test]
fn raster_new_checks_length() {
    assert!(Raster::new(3, 2, 2, vec![0.0f64; 12]).is_some());
    assert!(Raster::new(3, 2, 2, vec![0.0f64; 11]).is_none());
    assert!(Raster::new(3, 0, 5, Vec::<f64>::new()).is_some());
    assert!(Raster::new(usize::MAX, 2, 0, Vec::<f64>::new()).is_some());
    assert!(Raster::new(usize::MAX, 2, 1, Vec::<f64>::new()).is_none());
}

#[test]
fn convert_arr_matches_single_conversion() {
    let arr = raster_2x2();
    let out = convert_arr(&arr, ColorSpace::rgb, ColorSpace::lab, &edge).unwrap();
    assert_eq!((out.bands(), out.height(), out.width()), (3, 2, 2));
    let a = arr.as_slice();
    let o = out.as_slice();
    for p in 0..4 {
        let want = convert((a[p], a[4 + p], a[8 + p]), ColorSpace::rgb, ColorSpace::lab, &edge);
        assert_eq!((o[p], o[4 + p], o[8 + p]), want);
    }
}

#[test]
fn convert_arr_same_space_copies() {
    let arr = raster_2x2();
    let out = convert_arr(&arr, ColorSpace::xyz, ColorSpace::xyz, &edge).unwrap();
    assert_eq!(out.as_slice(), arr.as_slice());
}

#[test]
fn bulk_rejects_four_bands() {
    let arr = Raster::new(4, 2, 3, vec![0.5f64; 24]).unwrap();
    assert_eq!(convert_arr(&arr, ColorSpace::rgb, ColorSpace::lch, &edge).err(), Some(ShapeError::InvalidShape));
    assert_eq!(saturate_rgb(&arr, 1.5, &edge, &times).err(), Some(ShapeError::InvalidShape));
    let arr = Raster::new(1, 2, 3, vec![0.5f64; 6]).unwrap();
    assert!(convert_arr(&arr, ColorSpace::rgb, ColorSpace::lch, &edge).is_err());
}

#[test]
fn bulk_keeps_shape() {
    for (h, w) in [(0usize, 0usize), (1, 7), (5, 3), (0, 4)] {
        let arr = Raster::new(3, h, w, vec![0.25f64; 3 * h * w]).unwrap();
        let out = convert_arr(&arr, ColorSpace::rgb, ColorSpace::luv, &edge).unwrap();
        assert_eq!((out.bands(), out.height(), out.width(), out.as_slice().len()), (3, h, w, 3 * h * w));
        let out = saturate_rgb(&arr, 2.0, &edge, &times).unwrap();
        assert_eq!((out.bands(), out.height(), out.width(), out.into_vec().len()), (3, h, w, 3 * h * w));
    }
}

#[test]
fn saturation_one_keeps_pixels() {
    let arr = raster_2x2();
    let out = saturate_rgb(&arr, 1.0, &edge, &times).unwrap();
    for (a, b) in arr.as_slice().iter().zip(out.as_slice()) {
        assert!((a - b).abs() <= 1e-6);
    }
}

#[test]
fn saturation_zero_gives_gray() {
    let arr = raster_2x2();
    let out = saturate_rgb(&arr, 0.0, &edge, &times).unwrap();
    let o = out.as_slice();
    for p in 0..4 {
        assert!((o[p] - o[4 + p]).abs() <= 0.1);
        assert!((o[4 + p] - o[8 + p]).abs() <= 0.1);
    }
}

#[test]
fn saturation_boost_stays_in_gamut() {
    let out = saturate_single_rgb((0.392156, 0.776470, 0.164705), 3.0, &edge, &times);
    for c in [out.0, out.1, out.2] {
        assert!((0.0..=1.0).contains(&c));
    }
    let lch_in = convert((0.392156, 0.776470, 0.164705), ColorSpace::rgb, ColorSpace::lch, &edge);
    let lch_out = convert(out, ColorSpace::rgb, ColorSpace::lch, &edge);
    assert!(lch_out.1 > lch_in.1);
}

#[test]
fn space_codes() {
    assert_eq!(ColorSpace::from_code(0), Some(ColorSpace::rgb));
    assert_eq!(ColorSpace::from_code(1), Some(ColorSpace::xyz));
    assert_eq!(ColorSpace::from_code(2), Some(ColorSpace::lab));
    assert_eq!(ColorSpace::from_code(3), Some(ColorSpace::lch));
    assert_eq!(ColorSpace::from_code(4), Some(ColorSpace::luv));
    assert_eq!(ColorSpace::from_code(5), None);
    assert_eq!(ColorSpace::from_code(-1), None);
}
