use rawproc::cfa::{Cfa, CfaColor};
use rawproc::debayer::pick_color;
use rawproc::image::{Image, Metadata, WbCoefficient, WbCoefficients};
use rawproc::profiler::{Profile, Profiler};
use rawproc::random::RollingRandom;

fn rggb() -> Cfa {
    Cfa::new(
        2,
        2,
        vec![CfaColor::Red, CfaColor::Green, CfaColor::Green, CfaColor::Blue],
        0,
        0,
    )
    .unwrap()
}

#[test]
fn rgb_index_maps_channels() {
    assert_eq!(CfaColor::Red.rgb_index(), 0);
    assert_eq!(CfaColor::Green.rgb_index(), 1);
    assert_eq!(CfaColor::Blue.rgb_index(), 2);
}

#[test]
fn rggb_tile_layout() {
    let cfa = rggb();
    // red at even-even, green at even-odd and odd-even, blue at odd-odd
    for x in 0..6usize {
        for y in 0..6usize {
            let expect = match (x % 2, y % 2) {
                (0, 0) => CfaColor::Red,
                (1, 1) => CfaColor::Blue,
                _ => CfaColor::Green,
            };
            assert_eq!(cfa.color_at(x, y), expect);
        }
    }
}

#[test]
fn cfa_shift_moves_origin() {
    let base = rggb();
    let mut shifted = rggb();
    shifted.shift_by(1, 1);
    for x in 0..4usize {
        for y in 0..4usize {
            assert_eq!(shifted.color_at(x, y), base.color_at(x + 1, y + 1));
        }
    }
}

#[test]
fn cfa_new_rejects_bad_tiles() {
    assert!(Cfa::new(0, 2, vec![CfaColor::Red, CfaColor::Green], 0, 0).is_none());
    assert!(Cfa::new(2, 0, vec![CfaColor::Red, CfaColor::Green], 0, 0).is_none());
    assert!(Cfa::new(2, 2, vec![CfaColor::Red, CfaColor::Green], 0, 0).is_none());
}

#[test]
fn cfa_new_reduces_shift() {
    let cfa = Cfa::new(
        2,
        2,
        vec![CfaColor::Red, CfaColor::Green, CfaColor::Green, CfaColor::Blue],
        5,
        4,
    )
    .unwrap();
    assert_eq!(cfa.shift_x, 1);
    assert_eq!(cfa.shift_y, 0);
}

#[test]
fn from_raw_parts_rejects_wrong_length() {
    let md = Metadata {
        crop: None,
        whitebalance: WbCoefficients {
            red: WbCoefficient { num: 1, den: 1 },
            green: WbCoefficient { num: 1, den: 1 },
            blue: WbCoefficient { num: 1, den: 1 },
        },
        whitelevels: [255, 255, 255],
        cfa: rggb(),
    };
    let data: Vec<u16> = vec![0; 15];
    assert!(Image::from_raw_parts(4, 4, md, data).is_none());
}

#[test]
fn from_raw_parts_rejects_zero_denominator() {
    let md = Metadata {
        crop: None,
        whitebalance: WbCoefficients {
            red: WbCoefficient { num: 1, den: 0 },
            green: WbCoefficient { num: 1, den: 1 },
            blue: WbCoefficient { num: 1, den: 1 },
        },
        whitelevels: [255, 255, 255],
        cfa: rggb(),
    };
    let data: Vec<u16> = vec![0; 16];
    assert!(Image::from_raw_parts(4, 4, md, data).is_none());
}

#[test]
fn sampler_is_deterministic_per_seed() {
    let mut a = RollingRandom::with_seed(7);
    let mut b = RollingRandom::with_seed(7);
    for _ in 0..32 {
        assert_eq!(a.random_u8(), b.random_u8());
    }
}

#[test]
fn sampler_zero_seed_matches_default() {
    let mut a = RollingRandom::with_seed(0);
    let mut b = RollingRandom::new();
    for _ in 0..8 {
        assert_eq!(a.random_u8(), b.random_u8());
    }
}

#[test]
fn pick_color_returns_matching_option() {
    let options: Vec<(CfaColor, usize, usize)> = vec![
        (CfaColor::Red, 5, 5),
        (CfaColor::Green, 6, 6),
        (CfaColor::Blue, 7, 7),
        (CfaColor::Green, 8, 8),
    ];
    let mut rr = RollingRandom::with_seed(42);
    for _ in 0..16 {
        let picked = pick_color(&mut rr, &options, CfaColor::Green);
        assert!(picked == (6, 6) || picked == (8, 8));
    }
}

#[test]
fn profiler_reports_started_stages() {
    let mut p = Profiler::new();
    assert!(p.elapsed(Profile::Crop).is_none());
    assert!(p.elapsed_ms(Profile::Crop).is_none());
    p.start(Profile::Crop);
    assert!(p.elapsed(Profile::Crop).is_some());
    assert!(p.elapsed(Profile::Decode).is_none());
    p.end(Profile::Crop);
    assert!(p.elapsed(Profile::Crop).is_some());
    assert!(p.elapsed_ms(Profile::Crop).is_some());
    p.start(Profile::Debayer);
    p.end(Profile::Debayer);
    assert!(p.elapsed_ms(Profile::Debayer).is_some());
}
