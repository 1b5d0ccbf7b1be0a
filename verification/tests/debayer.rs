use rawproc::cfa::{Cfa, CfaColor};
use rawproc::image::{Image, Metadata, WbCoefficient, WbCoefficients};
use rawproc::Error;

fn rggb() -> Cfa {
    Cfa::new(
        2,
        2,
        vec![CfaColor::Red, CfaColor::Green, CfaColor::Green, CfaColor::Blue],
        0,
        0,
    )
    .unwrap()
}

fn unit_wb() -> WbCoefficients {
    WbCoefficients {
        red: WbCoefficient { num: 1, den: 1 },
        green: WbCoefficient { num: 1, den: 1 },
        blue: WbCoefficient { num: 1, den: 1 },
    }
}

fn meta(cfa: Cfa) -> Metadata {
    Metadata {
        crop: None,
        whitebalance: unit_wb(),
        whitelevels: [65535, 65535, 65535],
        cfa,
    }
}

fn channel_index(c: CfaColor) -> usize {
    match c {
        CfaColor::Red => 0,
        CfaColor::Green => 1,
        CfaColor::Blue => 2,
        CfaColor::Emerald => panic!("no channel"),
    }
}

#[test]
fn debayer_native_channel_passthrough() {
    let data: Vec<u16> = (10u16..26).collect();
    let img = Image::from_raw_parts(4, 4, meta(rggb()), data.clone()).unwrap();
    let cfa = rggb();
    let out = img.debayer().unwrap();
    for x in 1..3usize {
        for y in 1..3usize {
            let native = cfa.color_at(x, y);
            let raw = data[y * 4 + x];
            assert_eq!(out.data[(y * 4 + x) * 3 + channel_index(native)], raw);
        }
    }
}

#[test]
fn debayer_non_native_channels_come_from_matching_neighbors() {
    let data: Vec<u16> = (10u16..26).collect();
    let img = Image::from_raw_parts(4, 4, meta(rggb()), data.clone()).unwrap();
    let cfa = rggb();
    let out = img.debayer().unwrap();
    let offsets: [(isize, isize); 8] = [
        (-1, -1),
        (0, -1),
        (1, -1),
        (-1, 0),
        (1, 0),
        (-1, 1),
        (0, 1),
        (1, 1),
    ];
    for x in 1..3usize {
        for y in 1..3usize {
            let native = cfa.color_at(x, y);
            for ch in 0..3usize {
                if ch == channel_index(native) {
                    continue;
                }
                let got = out.data[(y * 4 + x) * 3 + ch];
                let mut candidates: Vec<u16> = Vec::new();
                for (dx, dy) in offsets.iter() {
                    let nx = (x as isize + dx) as usize;
                    let ny = (y as isize + dy) as usize;
                    if channel_index(cfa.color_at(nx, ny)) == ch {
                        candidates.push(data[ny * 4 + nx]);
                    }
                }
                assert!(
                    candidates.contains(&got),
                    "channel value must come from a matching neighbor"
                );
            }
        }
    }
}

#[test]
fn debayer_flat_scene_round_trips() {
    let data: Vec<u16> = vec![100; 16];
    let mut img = Image::from_raw_parts(4, 4, meta(rggb()), data).unwrap();
    assert_eq!(img.whitebalance(), Ok(()));
    let out = img.debayer().unwrap();
    for x in 1..3usize {
        for y in 1..3usize {
            for ch in 0..3usize {
                assert_eq!(out.data[(y * 4 + x) * 3 + ch], 100);
            }
        }
    }
}

#[test]
fn debayer_border_keeps_sentinel() {
    let data: Vec<u16> = (10u16..26).collect();
    let img = Image::from_raw_parts(4, 4, meta(rggb()), data.clone()).unwrap();
    let out = img.debayer().unwrap();
    let sentinel = data[0];
    for x in 0..4usize {
        for y in 0..4usize {
            let interior = (1..3).contains(&x) && (1..3).contains(&y);
            if !interior {
                for ch in 0..3usize {
                    assert_eq!(out.data[(y * 4 + x) * 3 + ch], sentinel);
                }
            }
        }
    }
}

#[test]
fn debayer_keeps_dimensions_and_metadata() {
    let data: Vec<u16> = (0u16..16).collect();
    let img = Image::from_raw_parts(4, 4, meta(rggb()), data).unwrap();
    let out = img.debayer().unwrap();
    assert_eq!(out.width, 4);
    assert_eq!(out.height, 4);
    assert_eq!(out.data.len(), 4 * 4 * 3);
    assert_eq!(out.metadata.whitelevels, [65535, 65535, 65535]);
}

#[test]
fn debayer_emerald_interior_fails() {
    let four_color = Cfa::new(
        2,
        2,
        vec![
            CfaColor::Red,
            CfaColor::Green,
            CfaColor::Green,
            CfaColor::Emerald,
        ],
        0,
        0,
    )
    .unwrap();
    let data: Vec<u16> = (0u16..16).collect();
    let img = Image::from_raw_parts(4, 4, meta(four_color), data).unwrap();
    assert_eq!(img.debayer().unwrap_err(), Error::UnsupportedFilterColor);
}

#[test]
fn debayer_missing_neighbor_color_fails() {
    // A tile with no blue anywhere: the blue channel of every interior
    // pixel has no matching neighbor to copy from.
    let no_blue = Cfa::new(
        2,
        2,
        vec![
            CfaColor::Red,
            CfaColor::Green,
            CfaColor::Green,
            CfaColor::Red,
        ],
        0,
        0,
    )
    .unwrap();
    let data: Vec<u16> = (0u16..16).collect();
    let img = Image::from_raw_parts(4, 4, meta(no_blue), data).unwrap();
    assert_eq!(img.debayer().unwrap_err(), Error::UnsupportedFilterColor);
}

#[test]
fn debayer_tiny_image_is_all_sentinel() {
    let data: Vec<u16> = vec![7, 8, 9, 10];
    let img = Image::from_raw_parts(2, 2, meta(rggb()), data).unwrap();
    let out = img.debayer().unwrap();
    assert_eq!(out.data, vec![7u16; 12]);
}

#[test]
fn rgb_handoff_preserves_samples() {
    let data: Vec<u16> = (0u16..16).collect();
    let img = Image::from_raw_parts(4, 4, meta(rggb()), data).unwrap();
    let out = img.debayer().unwrap();
    let expected = out.data.clone();
    let (w, h, md, samples) = out.into_raw_parts();
    assert_eq!(w, 4);
    assert_eq!(h, 4);
    assert_eq!(md.whitelevels, [65535, 65535, 65535]);
    assert_eq!(samples, expected);
}
