use autocrop::raster::same_dimensions;
use autocrop::{Raster, Rgba};

const CLEAR: Rgba = Rgba { r: 0, g: 0, b: 0, a: 0 };

/// A raster whose pixel at (x, y) tells its own coordinate.
fn numbered(width: u32, height: u32) -> Raster {
    let mut pixels = Vec::new();
    for y in 0..height {
        for x in 0..width {
            pixels.push(Rgba::new(x as u8, y as u8, (x + y) as u8, 255));
        }
    }
    Raster::from_pixels(width, height, pixels).unwrap()
}

fn as_image(raster: &Raster) -> image::RgbaImage {
    image::RgbaImage::from_raw(raster.width(), raster.height(), raster.to_bytes()).unwrap()
}

#[test]
fn new_raster_is_transparent() {
    let raster = Raster::new(3, 2);
    assert_eq!(raster.width(), 3);
    assert_eq!(raster.height(), 2);
    for y in 0..2 {
        for x in 0..3 {
            assert_eq!(raster.get_pixel(x, y), CLEAR);
        }
    }
    assert_eq!(raster.to_bytes(), vec![0u8; 24]);
}

#[test]
fn new_raster_may_have_no_pixels() {
    let flat = Raster::new(5, 0);
    assert_eq!((flat.width(), flat.height()), (5, 0));
    assert_eq!(flat.to_bytes().len(), 0);
    let thin = Raster::new(0, 5);
    assert_eq!((thin.width(), thin.height()), (0, 5));
    assert_eq!(thin.to_bytes().len(), 0);
}

#[test]
fn from_pixels_wants_one_pixel_for_each_coordinate() {
    let p = Rgba::new(1, 2, 3, 4);
    assert!(Raster::from_pixels(2, 2, vec![p; 4]).is_some());
    assert!(Raster::from_pixels(2, 2, vec![p; 3]).is_none());
    assert!(Raster::from_pixels(2, 2, vec![p; 5]).is_none());
    assert!(Raster::from_pixels(0, 7, vec![]).is_some());
    assert!(Raster::from_pixels(0, 7, vec![p]).is_none());
    assert!(Raster::from_pixels(u32::MAX, u32::MAX, vec![p]).is_none());
}

#[test]
fn from_pixels_reads_rows_from_the_top() {
    let raster = numbered(3, 2);
    assert_eq!(raster.get_pixel(0, 0), Rgba::new(0, 0, 0, 255));
    assert_eq!(raster.get_pixel(2, 0), Rgba::new(2, 0, 2, 255));
    assert_eq!(raster.get_pixel(0, 1), Rgba::new(0, 1, 1, 255));
    assert_eq!(raster.get_pixel(2, 1), Rgba::new(2, 1, 3, 255));
}

#[test]
fn put_pixel_changes_one_pixel() {
    let mut raster = numbered(4, 3);
    let before = raster.clone();
    let white = Rgba::new(255, 255, 255, 255);
    raster.put_pixel(2, 1, white);
    for y in 0..3 {
        for x in 0..4 {
            if (x, y) == (2, 1) {
                assert_eq!(raster.get_pixel(x, y), white);
            } else {
                assert_eq!(raster.get_pixel(x, y), before.get_pixel(x, y));
            }
        }
    }
    assert!(raster != before);
}

#[test]
fn copies_are_equal_and_independent() {
    let raster = numbered(4, 3);
    let mut copy = raster.copy();
    assert!(copy == raster);
    assert_eq!(copy, raster.clone());
    copy.put_pixel(0, 0, Rgba::new(9, 9, 9, 9));
    assert!(copy != raster);
    assert_eq!(raster.get_pixel(0, 0), Rgba::new(0, 0, 0, 255));
}

#[test]
fn rasters_of_different_shape_are_not_equal() {
    assert!(Raster::new(2, 3) != Raster::new(3, 2));
    assert!(Raster::new(0, 3) != Raster::new(3, 0));
    assert!(Raster::new(2, 3) == Raster::new(2, 3));
}

#[test]
fn to_bytes_writes_four_bytes_for_each_pixel() {
    let raster = Raster::from_pixels(
        2,
        1,
        vec![Rgba::new(1, 2, 3, 4), Rgba::new(5, 6, 7, 8)],
    )
    .unwrap();
    assert_eq!(raster.to_bytes(), vec![1, 2, 3, 4, 5, 6, 7, 8]);
}

#[test]
fn from_bytes_reads_what_to_bytes_wrote() {
    let raster = numbered(5, 4);
    let bytes = raster.to_bytes();
    assert_eq!(bytes.len(), 80);
    let back = Raster::from_bytes(5, 4, &bytes).unwrap();
    assert_eq!(back, raster);
    assert_eq!(back.to_bytes(), bytes);
}

#[test]
fn from_bytes_wants_four_bytes_for_each_coordinate() {
    assert!(Raster::from_bytes(2, 2, &vec![0u8; 16]).is_some());
    assert!(Raster::from_bytes(2, 2, &vec![0u8; 15]).is_none());
    assert!(Raster::from_bytes(2, 2, &vec![0u8; 17]).is_none());
    assert!(Raster::from_bytes(2, 2, &vec![0u8; 4]).is_none());
    assert!(Raster::from_bytes(1, 1, &vec![0u8; 5]).is_none());
    assert!(Raster::from_bytes(0, 0, &vec![]).is_some());
}

#[test]
fn from_bytes_agrees_with_the_image_crate() {
    let mut image = image::RgbaImage::new(3, 2);
    image.put_pixel(1, 0, image::Rgba([10, 20, 30, 40]));
    image.put_pixel(2, 1, image::Rgba([50, 60, 70, 80]));
    let raster = Raster::from_bytes(3, 2, &image.clone().into_raw()).unwrap();
    for y in 0..2 {
        for x in 0..3 {
            let p = image.get_pixel(x, y);
            assert_eq!(raster.get_pixel(x, y), Rgba::new(p[0], p[1], p[2], p[3]));
        }
    }
}

#[test]
fn crop_cuts_a_window_out() {
    let raster = numbered(6, 5);
    let window = raster.crop(2, 1, 3, 2);
    assert_eq!((window.width(), window.height()), (3, 2));
    for j in 0..2 {
        for i in 0..3 {
            assert_eq!(window.get_pixel(i, j), raster.get_pixel(2 + i, 1 + j));
        }
    }
}

#[test]
fn crop_cuts_the_window_down_to_the_raster() {
    let raster = numbered(6, 5);
    let window = raster.crop(4, 3, 10, 10);
    assert_eq!((window.width(), window.height()), (2, 2));
    assert_eq!(window.get_pixel(0, 0), raster.get_pixel(4, 3));
    assert_eq!(window.get_pixel(1, 1), raster.get_pixel(5, 4));
    let whole = raster.crop(0, 0, u32::MAX, u32::MAX);
    assert_eq!(whole, raster);
}

#[test]
fn crop_beyond_the_raster_is_empty() {
    let raster = numbered(6, 5);
    let window = raster.crop(6, 0, 3, 3);
    assert_eq!((window.width(), window.height()), (0, 3));
    let window = raster.crop(0, 5, 3, 3);
    assert_eq!((window.width(), window.height()), (3, 0));
    let window = raster.crop(u32::MAX, u32::MAX, 0, 0);
    assert_eq!((window.width(), window.height()), (0, 0));
    let window = raster.crop(u32::MAX, u32::MAX, u32::MAX, u32::MAX);
    assert_eq!((window.width(), window.height()), (0, 0));
    let window = raster.crop(1, 1, 0, 0);
    assert_eq!((window.width(), window.height()), (0, 0));
}

#[test]
fn crop_agrees_with_the_image_crate() {
    let raster = numbered(7, 6);
    let image = as_image(&raster);
    let windows = [
        (0, 0, 7, 6),
        (2, 1, 3, 2),
        (5, 4, 9, 9),
        (7, 6, 1, 1),
        (8, 8, 2, 2),
        (3, 0, 0, 4),
        (0, 5, 7, 1),
        (u32::MAX, u32::MAX, 0, 0),
        (u32::MAX, 2, 5, 5),
    ];
    for (x, y, w, h) in windows {
        let ours = raster.crop(x, y, w, h);
        let theirs = image::imageops::crop_imm(&image, x, y, w, h).to_image();
        assert_eq!((ours.width(), ours.height()), (theirs.width(), theirs.height()));
        assert_eq!(ours.to_bytes(), theirs.into_raw());
    }
}

#[test]
fn same_dimensions_compares_every_raster_with_the_first() {
    assert!(same_dimensions(&vec![]));
    assert!(same_dimensions(&vec![Raster::new(2, 3)]));
    assert!(same_dimensions(&vec![Raster::new(2, 3), Raster::new(2, 3), Raster::new(2, 3)]));
    assert!(!same_dimensions(&vec![Raster::new(2, 3), Raster::new(3, 2)]));
    assert!(!same_dimensions(&vec![Raster::new(2, 3), Raster::new(2, 3), Raster::new(2, 4)]));
    assert!(!same_dimensions(&vec![Raster::new(2, 3), Raster::new(1, 3), Raster::new(2, 3)]));
}
