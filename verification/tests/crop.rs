use rawproc::cfa::{Cfa, CfaColor};
use rawproc::image::{Crop, Image, Metadata, WbCoefficient, WbCoefficients};
use rawproc::Error;

fn rggb() -> Cfa {
    Cfa::new(
        2,
        2,
        vec![CfaColor::Red, CfaColor::Green, CfaColor::Green, CfaColor::Blue],
        0,
        0,
    )
    .unwrap()
}

fn unit_wb() -> WbCoefficients {
    WbCoefficients {
        red: WbCoefficient { num: 1, den: 1 },
        green: WbCoefficient { num: 1, den: 1 },
        blue: WbCoefficient { num: 1, den: 1 },
    }
}

fn meta(crop: Option<Crop>) -> Metadata {
    Metadata {
        crop,
        whitebalance: unit_wb(),
        whitelevels: [65535, 65535, 65535],
        cfa: rggb(),
    }
}

fn image_4x4(crop: Option<Crop>) -> Image<u16> {
    let data: Vec<u16> = (0u16..16).collect();
    Image::from_raw_parts(4, 4, meta(crop), data).unwrap()
}

#[test]
fn crop_reduces_dimensions_and_consumes_rect() {
    let mut img = image_4x4(Some(Crop { left: 1, right: 1, top: 1, bottom: 1 }));
    assert_eq!(img.crop(), Ok(()));
    assert_eq!(img.width, 2);
    assert_eq!(img.height, 2);
    assert!(img.metadata.crop.is_none());
    assert_eq!(img.data, vec![5u16, 6, 9, 10]);
}

#[test]
fn crop_again_is_noop() {
    let mut img = image_4x4(Some(Crop { left: 1, right: 0, top: 0, bottom: 2 }));
    assert_eq!(img.crop(), Ok(()));
    let width = img.width;
    let height = img.height;
    let data = img.data.clone();
    assert_eq!(img.crop(), Ok(()));
    assert_eq!(img.width, width);
    assert_eq!(img.height, height);
    assert_eq!(img.data, data);
    assert!(img.metadata.crop.is_none());
}

#[test]
fn crop_without_rect_is_noop() {
    let mut img = image_4x4(None);
    assert_eq!(img.crop(), Ok(()));
    assert_eq!(img.width, 4);
    assert_eq!(img.height, 4);
    assert_eq!(img.data, (0u16..16).collect::<Vec<u16>>());
}

#[test]
fn crop_invalid_rect_fails_unchanged() {
    let mut img = image_4x4(Some(Crop { left: 2, right: 2, top: 0, bottom: 0 }));
    assert_eq!(img.crop(), Err(Error::InvalidCropRect));
    assert_eq!(img.width, 4);
    assert_eq!(img.height, 4);
    assert_eq!(img.data, (0u16..16).collect::<Vec<u16>>());
    assert_eq!(
        img.metadata.crop,
        Some(Crop { left: 2, right: 2, top: 0, bottom: 0 })
    );
}

#[test]
fn crop_invalid_vertical_rect_fails_unchanged() {
    let mut img = image_4x4(Some(Crop { left: 0, right: 0, top: 3, bottom: 1 }));
    assert_eq!(img.crop(), Err(Error::InvalidCropRect));
    assert_eq!(img.width, 4);
    assert_eq!(img.height, 4);
    assert_eq!(img.data, (0u16..16).collect::<Vec<u16>>());
}

#[test]
fn crop_shifts_cfa_resolver() {
    let before = rggb();
    let mut img = image_4x4(Some(Crop { left: 1, right: 0, top: 1, bottom: 0 }));
    assert_eq!(img.crop(), Ok(()));
    for x in 0..img.width {
        for y in 0..img.height {
            assert_eq!(
                img.metadata.cfa.color_at(x, y),
                before.color_at(x + 1, y + 1)
            );
        }
    }
}
