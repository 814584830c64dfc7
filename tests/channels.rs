use gbt::builder::compose_unit;
use gbt::error::BuildError;
use gbt::raster::{compose, decompose, make_opaque, replace_alpha, GrayImage, RgbaImage};

fn sample_image() -> RgbaImage {
    let data: Vec<u8> = (0u8..24).map(|v| v.wrapping_mul(11)).collect();
    RgbaImage::from_raw(3, 2, data).unwrap()
}

#[test]
fn compose_after_decompose_restores_image() {
    let img = sample_image();
    let channels = decompose(&img);
    let mut target = RgbaImage::from_raw(3, 2, vec![0; 24]).unwrap();
    assert_eq!(compose(&mut target, channels), Ok(()));
    assert_eq!(target, img);
}

#[test]
fn decompose_yields_one_plane_per_channel() {
    let img = RgbaImage::from_raw(2, 1, vec![1, 2, 3, 4, 5, 6, 7, 8]).unwrap();
    let ch = decompose(&img);
    assert_eq!(ch.red.data, vec![1, 5]);
    assert_eq!(ch.green.data, vec![2, 6]);
    assert_eq!(ch.blue.data, vec![3, 7]);
    assert_eq!(ch.alpha.data, vec![4, 8]);
    assert_eq!((ch.alpha.width, ch.alpha.height), (2, 1));
}

#[test]
fn compose_rejects_mismatched_planes() {
    let img = sample_image();
    let mut channels = decompose(&img);
    channels.blue = GrayImage::from_raw(2, 3, vec![0; 6]).unwrap();
    let mut target = img.clone();
    assert_eq!(compose(&mut target, channels), Err(BuildError::DimensionMismatch));
    assert_eq!(target, img);
}

#[test]
fn forcing_alpha_opaque_keeps_colour() {
    // 2x2 image with distinct colours and assorted alpha values.
    let data = vec![
        10, 20, 30, 0, 40, 50, 60, 77, 70, 80, 90, 128, 100, 110, 120, 254,
    ];
    let img = RgbaImage::from_raw(2, 2, data).unwrap();
    let flat = make_opaque(img.clone());
    for y in 0..2 {
        for x in 0..2 {
            let (r, g, b, _) = img.pixel(x, y);
            assert_eq!(flat.pixel(x, y), (r, g, b, 255));
        }
    }
    assert_eq!((flat.width, flat.height), (2, 2));
}

#[test]
fn replacing_alpha_takes_the_gray_plane() {
    let img = RgbaImage::from_raw(2, 1, vec![1, 2, 3, 255, 5, 6, 7, 255]).unwrap();
    let alpha = GrayImage::from_raw(2, 1, vec![9, 200]).unwrap();
    let out = replace_alpha(img, alpha).unwrap();
    assert_eq!(out.data, vec![1, 2, 3, 9, 5, 6, 7, 200]);
}

#[test]
fn replacing_alpha_of_another_size_fails() {
    let img = RgbaImage::from_raw(2, 1, vec![0; 8]).unwrap();
    let alpha = GrayImage::from_raw(1, 2, vec![0; 2]).unwrap();
    assert_eq!(replace_alpha(img, alpha), Err(BuildError::DimensionMismatch));
}

#[test]
fn unit_without_alpha_keeps_its_composite() {
    let img = sample_image();
    assert_eq!(compose_unit(img.clone(), None), Ok(img));
}

#[test]
fn raw_buffers_must_fit_the_size() {
    assert!(RgbaImage::from_raw(2, 2, vec![0; 15]).is_none());
    assert!(RgbaImage::from_raw(0, 5, vec![]).is_some());
    assert!(GrayImage::from_raw(2, 2, vec![0; 4]).is_some());
    assert!(GrayImage::from_raw(2, 2, vec![0; 5]).is_none());
}
