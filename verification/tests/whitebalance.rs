use rawproc::cfa::{Cfa, CfaColor};
use rawproc::image::{Image, Metadata, WbCoefficient, WbCoefficients};
use rawproc::Error;

fn rggb() -> Cfa {
    Cfa::new(
        2,
        2,
        vec![CfaColor::Red, CfaColor::Green, CfaColor::Green, CfaColor::Blue],
        0,
        0,
    )
    .unwrap()
}

fn meta_with(wb: WbCoefficients, cfa: Cfa) -> Metadata {
    Metadata {
        crop: None,
        whitebalance: wb,
        whitelevels: [65535, 65535, 65535],
        cfa,
    }
}

fn wb(rn: u32, rd: u32, gn: u32, gd: u32, bn: u32, bd: u32) -> WbCoefficients {
    WbCoefficients {
        red: WbCoefficient { num: rn, den: rd },
        green: WbCoefficient { num: gn, den: gd },
        blue: WbCoefficient { num: bn, den: bd },
    }
}

#[test]
fn whitebalance_exact_u16() {
    let data: Vec<u16> = vec![100, 200, 300, 400];
    let mut img =
        Image::from_raw_parts(2, 2, meta_with(wb(2, 1, 3, 2, 1, 2), rggb()), data).unwrap();
    assert_eq!(img.whitebalance(), Ok(()));
    // (0,0) red 100*2; (1,0) green 200*3/2; (0,1) green 300*3/2; (1,1) blue 400/2
    assert_eq!(img.data, vec![200u16, 300, 450, 200]);
}

#[test]
fn whitebalance_truncates_toward_zero() {
    let data: Vec<u16> = vec![101, 0, 0, 0];
    let mut img =
        Image::from_raw_parts(2, 2, meta_with(wb(1, 2, 1, 1, 1, 1), rggb()), data).unwrap();
    assert_eq!(img.whitebalance(), Ok(()));
    // 101 / 2 == 50.5 truncates to 50
    assert_eq!(img.data[0], 50);
}

#[test]
fn whitebalance_clamps_u16() {
    let data: Vec<u16> = vec![60000, 1, 1, 1];
    let mut img =
        Image::from_raw_parts(2, 2, meta_with(wb(2, 1, 1, 1, 1, 1), rggb()), data).unwrap();
    assert_eq!(img.whitebalance(), Ok(()));
    assert_eq!(img.data[0], u16::MAX);
}

#[test]
fn whitebalance_twice_squares_u16() {
    let data: Vec<u16> = vec![5, 7, 9, 11];
    let doubler = wb(2, 1, 2, 1, 2, 1);
    let mut img = Image::from_raw_parts(2, 2, meta_with(doubler, rggb()), data.clone()).unwrap();
    assert_eq!(img.whitebalance(), Ok(()));
    assert_eq!(img.whitebalance(), Ok(()));
    // two applications scale by 2 * 2 == 4, not by 2
    for (got, orig) in img.data.iter().zip(data.iter()) {
        assert_eq!(*got, orig * 4);
        assert_ne!(*got, orig * 2);
    }
}

#[test]
fn whitebalance_exact_u8() {
    let data: Vec<u8> = vec![10, 20, 30, 40];
    let mut img =
        Image::from_raw_parts(2, 2, meta_with(wb(3, 1, 1, 2, 5, 4), rggb()), data).unwrap();
    assert_eq!(img.whitebalance(), Ok(()));
    // 10*3; 20/2; 30/2; 40*5/4
    assert_eq!(img.data, vec![30u8, 10, 15, 50]);
}

#[test]
fn whitebalance_clamps_u8() {
    let data: Vec<u8> = vec![200, 1, 1, 1];
    let mut img =
        Image::from_raw_parts(2, 2, meta_with(wb(2, 1, 1, 1, 1, 1), rggb()), data).unwrap();
    assert_eq!(img.whitebalance(), Ok(()));
    assert_eq!(img.data[0], u8::MAX);
}

#[test]
fn whitebalance_emerald_fails_unchanged() {
    let four_color = Cfa::new(
        2,
        2,
        vec![
            CfaColor::Red,
            CfaColor::Green,
            CfaColor::Green,
            CfaColor::Emerald,
        ],
        0,
        0,
    )
    .unwrap();
    let data: Vec<u16> = vec![1, 2, 3, 4];
    let mut img =
        Image::from_raw_parts(2, 2, meta_with(wb(2, 1, 2, 1, 2, 1), four_color), data).unwrap();
    assert_eq!(img.whitebalance(), Err(Error::UnsupportedFilterColor));
    assert_eq!(img.data, vec![1u16, 2, 3, 4]);
}
