use chromabridge::noise::{NoiseError, NoiseTexture};
use std::io::Cursor;

fn checker(width: u32, height: u32) -> NoiseTexture {
    let mut luma = Vec::new();
    for y in 0..height {
        for x in 0..width {
            luma.push(if (x + y) % 2 == 0 { 255 } else { 0 });
        }
    }
    NoiseTexture::from_luma(width, height, luma).unwrap()
}

fn png_of(width: u32, height: u32, luma: Vec<u8>) -> Vec<u8> {
    let img = image::GrayImage::from_raw(width, height, luma).unwrap();
    let mut out = Cursor::new(Vec::new());
    img.write_to(&mut out, image::ImageFormat::Png).unwrap();
    out.into_inner()
}

#[test]
fn from_luma_thresholds_above_mid_grey() {
    let mask = NoiseTexture::from_luma(4, 1, vec![0, 128, 129, 255]).unwrap();
    assert_eq!(mask.width(), 4);
    assert_eq!(mask.height(), 1);
    assert!(!mask.sample(0, 0, 4, 1));
    assert!(!mask.sample(1, 0, 4, 1));
    assert!(mask.sample(2, 0, 4, 1));
    assert!(mask.sample(3, 0, 4, 1));
}

#[test]
fn from_luma_refuses_a_wrong_size() {
    assert_eq!(NoiseTexture::from_luma(2, 2, vec![0, 0, 0]).err(), Some(NoiseError::SizeMismatch));
    assert_eq!(NoiseTexture::from_luma(0, 5, vec![1]).err(), Some(NoiseError::SizeMismatch));
    assert!(NoiseTexture::from_luma(0, 5, vec![]).is_ok());
}

#[test]
fn load_from_file_decodes_a_png() {
    let bytes = png_of(3, 2, vec![0, 200, 128, 129, 10, 255]);
    let mask = NoiseTexture::load_from_file(&bytes).unwrap();
    assert_eq!((mask.width(), mask.height()), (3, 2));
    assert_eq!(mask.texture_bytes(), vec![0, 255, 0, 255, 0, 255]);
}

#[test]
fn load_from_file_converts_color_to_luma() {
    let img = image::RgbImage::from_raw(2, 1, vec![255, 255, 255, 0, 0, 0]).unwrap();
    let mut out = Cursor::new(Vec::new());
    img.write_to(&mut out, image::ImageFormat::Png).unwrap();
    let mask = NoiseTexture::load_from_file(&out.into_inner()).unwrap();
    assert_eq!(mask.texture_bytes(), vec![255, 0]);
}

#[test]
fn load_from_file_refuses_what_is_no_png() {
    assert_eq!(NoiseTexture::load_from_file(b"not an image").err(), Some(NoiseError::Decode));
    assert_eq!(NoiseTexture::load_from_file(&[]).err(), Some(NoiseError::Decode));
    let mut bytes = png_of(2, 2, vec![1, 2, 3, 4]);
    bytes.truncate(20);
    assert_eq!(NoiseTexture::load_from_file(&bytes).err(), Some(NoiseError::Decode));
}

#[test]
fn native_resolution_shows_every_cell() {
    let mask = checker(5, 3);
    for y in 0..3 {
        for x in 0..5 {
            assert_eq!(mask.sample(x, y, 5, 3), (x + y) % 2 == 0);
        }
    }
}

#[test]
fn wider_mask_is_centered_vertically() {
    // A mask of 4 by 1 cells on a display of 8 by 8: scaled to 8 by 2, rows 3 and 4.
    let mask = NoiseTexture::from_luma(4, 1, vec![255, 0, 255, 255]).unwrap();
    for x in 0..8 {
        assert!(!mask.sample(x, 2, 8, 8));
        assert!(!mask.sample(x, 5, 8, 8));
        assert!(!mask.sample(x, 0, 8, 8));
        assert!(!mask.sample(x, 7, 8, 8));
    }
    assert!(mask.sample(0, 3, 8, 8));
    assert!(mask.sample(1, 4, 8, 8));
    assert!(!mask.sample(2, 3, 8, 8));
    assert!(!mask.sample(3, 4, 8, 8));
    assert!(mask.sample(4, 3, 8, 8));
    assert!(mask.sample(7, 4, 8, 8));
}

#[test]
fn taller_mask_is_centered_horizontally() {
    // A mask of 1 by 2 cells on a display of 6 by 4: scaled to 2 by 4, columns 2 and 3.
    let mask = NoiseTexture::from_luma(1, 2, vec![255, 0]).unwrap();
    for y in 0..4 {
        assert!(!mask.sample(0, y, 6, 4));
        assert!(!mask.sample(1, y, 6, 4));
        assert!(!mask.sample(4, y, 6, 4));
        assert!(!mask.sample(5, y, 6, 4));
    }
    assert!(mask.sample(2, 0, 6, 4));
    assert!(mask.sample(3, 1, 6, 4));
    assert!(!mask.sample(2, 2, 6, 4));
    assert!(!mask.sample(3, 3, 6, 4));
}

#[test]
fn outside_the_display_is_clear() {
    let mask = NoiseTexture::from_luma(2, 2, vec![255, 255, 255, 255]).unwrap();
    assert!(mask.sample(3, 3, 4, 4));
    assert!(!mask.sample(4, 0, 4, 4));
    assert!(!mask.sample(0, 4, 4, 4));
    assert!(!mask.sample(u32::MAX, u32::MAX, 4, 4));
}

#[test]
fn same_cell_shows_the_same_at_any_resolution() {
    let mask = checker(4, 4);
    // Cell (1, 2) under displays of 8x8, 16x16 and 400x400.
    let expected = (1 + 2) % 2 == 0;
    assert_eq!(mask.sample(2, 4, 8, 8), expected);
    assert_eq!(mask.sample(3, 5, 8, 8), expected);
    assert_eq!(mask.sample(4, 8, 16, 16), expected);
    assert_eq!(mask.sample(7, 11, 16, 16), expected);
    assert_eq!(mask.sample(100, 200, 400, 400), expected);
    assert_eq!(mask.sample(199, 299, 400, 400), expected);
}

#[test]
fn degenerate_sizes_are_clear() {
    let mask = NoiseTexture::from_luma(2, 2, vec![255, 255, 255, 255]).unwrap();
    assert!(!mask.sample(0, 0, 0, 4));
    assert!(!mask.sample(0, 0, 4, 0));
    let empty = NoiseTexture::from_luma(0, 0, vec![]).unwrap();
    assert!(!empty.sample(0, 0, 4, 4));
    assert_eq!(empty.texture_bytes(), Vec::<u8>::new());
}

#[test]
fn large_displays_do_not_overflow() {
    let mask = checker(3, 3);
    assert!(!mask.sample(0, 0, u32::MAX, 1));
    assert!(mask.sample(u32::MAX / 2, 0, u32::MAX, 1) || !mask.sample(u32::MAX / 2, 0, u32::MAX, 1));
    assert_eq!(mask.sample(u32::MAX - 1, u32::MAX - 1, u32::MAX, u32::MAX), true);
    assert_eq!(mask.sample(0, 0, u32::MAX, u32::MAX), true);
}
