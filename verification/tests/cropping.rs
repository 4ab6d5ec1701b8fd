use autocrop::{
    apply, crop, scan, Config, CropError, CropType, FileName, Leniency, NameType, Pos2, Raster,
    RectangleRange, Rgba, ScanResult, SourceName,
};

const CLEAR: Rgba = Rgba { r: 0, g: 0, b: 0, a: 0 };
const BLACK: Rgba = Rgba { r: 0, g: 0, b: 0, a: 255 };
const WHITE: Rgba = Rgba { r: 255, g: 255, b: 255, a: 255 };
const RED: Rgba = Rgba { r: 255, g: 0, b: 0, a: 255 };

fn filled(width: u32, height: u32, colour: Rgba) -> Raster {
    Raster::from_pixels(width, height, vec![colour; (width * height) as usize]).unwrap()
}

fn with_pixels(base: &Raster, changes: &[(u32, u32, Rgba)]) -> Raster {
    let mut raster = base.copy();
    for (x, y, colour) in changes {
        raster.put_pixel(*x, *y, *colour);
    }
    raster
}

/// A raster whose pixel at (x, y) tells its own coordinate.
fn numbered(width: u32, height: u32) -> Raster {
    let mut pixels = Vec::new();
    for y in 0..height {
        for x in 0..width {
            pixels.push(Rgba::new(x as u8, y as u8, 100, 255));
        }
    }
    Raster::from_pixels(width, height, pixels).unwrap()
}

fn custom(name: &str) -> FileName {
    FileName { name_type: NameType::Custom, name: name.to_string() }
}

fn settings(crop_type: CropType, resize_output: bool) -> Config {
    Config {
        leniency: Leniency::new(0),
        resize_output,
        crop_type,
        bg_name: custom("bg"),
        file_name: custom("shot"),
    }
}

fn source(stem: &str) -> SourceName {
    SourceName { stem: Some(stem.to_string()), file_name: Some(format!("{}.png", stem)) }
}

fn no_sources() -> Vec<SourceName> {
    Vec::new()
}

#[test]
fn exact_crop_keeps_the_one_white_pixel() {
    let background = filled(4, 4, BLACK);
    let image = with_pixels(&background, &[(2, 1, WHITE)]);
    let images = vec![background, image];
    let out = crop(&images, &no_sources(), &settings(CropType::Exact, false));
    assert_eq!(out.failure, None);
    assert_eq!(out.range.min, Pos2::new(2, 1));
    assert_eq!(out.range.max, Pos2::new(2, 1));
    assert_eq!(out.range.width(), 0);
    assert_eq!(out.range.height(), 0);
    assert_eq!(out.files.len(), 2);
    let cut = &out.files[1].image;
    assert_eq!((cut.width(), cut.height()), (4, 4));
    for y in 0..4 {
        for x in 0..4 {
            let expected = if (x, y) == (2, 1) { WHITE } else { CLEAR };
            assert_eq!(cut.get_pixel(x, y), expected);
        }
    }
}

#[test]
fn background_comes_back_unchanged() {
    let background = numbered(5, 4);
    let image = with_pixels(&background, &[(1, 1, WHITE), (3, 2, RED)]);
    let images = vec![background.copy(), image];
    for crop_type in [CropType::Exact, CropType::Rectangle] {
        for resize_output in [false, true] {
            let out = crop(&images, &no_sources(), &settings(crop_type, resize_output));
            assert_eq!(out.failure, None);
            assert_eq!(out.files[0].image, background);
        }
    }
}

#[test]
fn nothing_differs_so_everything_is_transparent() {
    let background = numbered(5, 4);
    let images = vec![background.copy(), background.copy(), background.copy()];
    for crop_type in [CropType::Exact, CropType::Rectangle] {
        let out = crop(&images, &no_sources(), &settings(crop_type, false));
        assert_eq!(out.failure, None);
        assert_eq!(out.range, RectangleRange::new());
        assert_eq!(out.files.len(), 3);
        assert_eq!(out.files[0].image, background);
        assert_eq!(out.files[1].image, Raster::new(5, 4));
        assert_eq!(out.files[2].image, Raster::new(5, 4));
    }
}

#[test]
fn nothing_differs_and_resized_gives_images_without_pixels() {
    let background = numbered(5, 4);
    let images = vec![background.copy(), background.copy()];
    for crop_type in [CropType::Exact, CropType::Rectangle] {
        let out = crop(&images, &no_sources(), &settings(crop_type, true));
        assert_eq!(out.failure, None);
        assert_eq!(out.range, RectangleRange::new());
        assert_eq!(out.files[0].image, background);
        assert_eq!(out.files[1].image, Raster::new(0, 0));
    }
}

#[test]
fn rectangle_crop_masks_what_lies_outside_the_range() {
    let background = numbered(6, 5);
    let first = with_pixels(&background, &[(1, 1, WHITE), (3, 2, RED)]);
    let second = with_pixels(&background, &[(4, 3, WHITE)]);
    let images = vec![background, first.copy(), second.copy()];
    let out = crop(&images, &no_sources(), &settings(CropType::Rectangle, false));
    assert_eq!(out.failure, None);
    assert_eq!((out.range.min, out.range.max), (Pos2::new(1, 1), Pos2::new(4, 3)));
    for (file, input) in [(&out.files[1], &first), (&out.files[2], &second)] {
        assert_eq!((file.image.width(), file.image.height()), (6, 5));
        for y in 0..5 {
            for x in 0..6 {
                let inside = 1 <= x && x <= 4 && 1 <= y && y <= 3;
                let expected = if inside { input.get_pixel(x, y) } else { CLEAR };
                assert_eq!(file.image.get_pixel(x, y), expected);
            }
        }
    }
}

#[test]
fn rectangle_crop_resized_cuts_down_to_the_range() {
    let background = numbered(6, 5);
    let first = with_pixels(&background, &[(1, 1, WHITE), (3, 2, RED)]);
    let second = with_pixels(&background, &[(4, 3, WHITE)]);
    let images = vec![background, first.copy(), second.copy()];
    let out = crop(&images, &no_sources(), &settings(CropType::Rectangle, true));
    assert_eq!(out.failure, None);
    assert_eq!((out.range.min, out.range.max), (Pos2::new(1, 1), Pos2::new(4, 3)));
    assert_eq!((out.range.width(), out.range.height()), (3, 2));
    for (file, input) in [(&out.files[1], &first), (&out.files[2], &second)] {
        assert_eq!((file.image.width(), file.image.height()), (3, 2));
        for j in 0..2 {
            for i in 0..3 {
                assert_eq!(file.image.get_pixel(i, j), input.get_pixel(1 + i, 1 + j));
            }
        }
    }
}

#[test]
fn rectangle_crop_agrees_with_the_image_crate() {
    let background = numbered(6, 5);
    let first = with_pixels(&background, &[(1, 1, WHITE), (3, 2, RED)]);
    let images = vec![background, first.copy()];
    let out = crop(&images, &no_sources(), &settings(CropType::Rectangle, true));
    let source = image::RgbaImage::from_raw(6, 5, first.to_bytes()).unwrap();
    let mut dynamic = image::DynamicImage::ImageRgba8(source);
    let theirs = dynamic
        .crop(out.range.min.x, out.range.min.y, out.range.width(), out.range.height())
        .to_rgba8();
    assert_eq!(out.files[1].image.width(), theirs.width());
    assert_eq!(out.files[1].image.height(), theirs.height());
    assert_eq!(out.files[1].image.to_bytes(), theirs.into_raw());
}

#[test]
fn exact_crop_keeps_each_image_its_own_pixels() {
    let background = numbered(6, 5);
    let first = with_pixels(&background, &[(1, 1, WHITE), (3, 2, RED)]);
    let second = with_pixels(&background, &[(4, 3, WHITE)]);
    let images = vec![background, first, second];
    let out = crop(&images, &no_sources(), &settings(CropType::Exact, false));
    assert_eq!(out.failure, None);
    assert_eq!((out.range.min, out.range.max), (Pos2::new(1, 1), Pos2::new(4, 3)));
    let expected_first = with_pixels(&Raster::new(6, 5), &[(1, 1, WHITE), (3, 2, RED)]);
    let expected_second = with_pixels(&Raster::new(6, 5), &[(4, 3, WHITE)]);
    assert_eq!(out.files[1].image, expected_first);
    assert_eq!(out.files[2].image, expected_second);
}

#[test]
fn exact_crop_resized_cuts_the_canvas_down_to_the_range() {
    let background = numbered(6, 5);
    let first = with_pixels(&background, &[(1, 1, WHITE), (3, 2, RED)]);
    let second = with_pixels(&background, &[(4, 3, WHITE), (2, 2, RED)]);
    let images = vec![background, first, second];
    let out = crop(&images, &no_sources(), &settings(CropType::Exact, true));
    assert_eq!(out.failure, None);
    assert_eq!((out.range.min, out.range.max), (Pos2::new(1, 1), Pos2::new(4, 3)));
    // the window starts at (1, 1) and is 3 wide and 2 high
    let expected_first = with_pixels(&Raster::new(3, 2), &[(0, 0, WHITE), (2, 1, RED)]);
    let expected_second = with_pixels(&Raster::new(3, 2), &[(1, 1, RED)]);
    assert_eq!(out.files[1].image, expected_first);
    assert_eq!(out.files[2].image, expected_second);
}

#[test]
fn single_difference_resized_leaves_no_pixels() {
    let background = filled(4, 4, BLACK);
    let image = with_pixels(&background, &[(2, 1, WHITE)]);
    let images = vec![background, image];
    for crop_type in [CropType::Exact, CropType::Rectangle] {
        let out = crop(&images, &no_sources(), &settings(crop_type, true));
        assert_eq!(out.failure, None);
        assert_eq!((out.range.width(), out.range.height()), (0, 0));
        assert_eq!(out.files[1].image, Raster::new(0, 0));
    }
}

#[test]
fn custom_names_number_the_images_after_the_background() {
    let background = filled(2, 2, BLACK);
    let images = vec![background.copy(), background.copy(), background.copy()];
    let sources = vec![source("a"), source("b"), source("c")];
    let out = crop(&images, &sources, &settings(CropType::Exact, false));
    assert_eq!(out.failure, None);
    let names: Vec<&str> = out.files.iter().map(|file| file.name.as_str()).collect();
    assert_eq!(names, vec!["bg.png", "shot1.png", "shot2.png"]);
}

#[test]
fn original_names_come_from_the_sources() {
    let background = filled(2, 2, BLACK);
    let images = vec![background.copy(), background.copy(), background.copy()];
    let sources = vec![
        source("back"),
        SourceName { stem: None, file_name: Some(".hidden".to_string()) },
        source("third"),
    ];
    let mut config = settings(CropType::Rectangle, false);
    config.bg_name.name_type = NameType::Original;
    config.file_name.name_type = NameType::Original;
    let out = crop(&images, &sources, &config);
    assert_eq!(out.failure, None);
    let names: Vec<&str> = out.files.iter().map(|file| file.name.as_str()).collect();
    assert_eq!(names, vec!["back.png", ".hidden.png", "third.png"]);
}

#[test]
fn empty_batch_is_refused() {
    let out = crop(&Vec::new(), &no_sources(), &settings(CropType::Exact, false));
    assert_eq!(out.failure, Some(CropError::Input));
    assert!(out.files.is_empty());
    assert_eq!(out.range, RectangleRange::new());
}

#[test]
fn batch_of_one_is_refused() {
    let out = crop(&vec![filled(2, 2, BLACK)], &vec![source("a")], &settings(CropType::Rectangle, true));
    assert_eq!(out.failure, Some(CropError::Input));
    assert!(out.files.is_empty());
    assert_eq!(out.range, RectangleRange::new());
}

#[test]
fn crop_stops_at_the_first_image_without_a_name() {
    let background = filled(3, 3, BLACK);
    let changed = with_pixels(&background, &[(1, 1, WHITE)]);
    let images = vec![background.copy(), changed.copy(), changed.copy(), changed.copy()];
    let sources = vec![
        source("back"),
        source("one"),
        SourceName { stem: None, file_name: None },
        source("three"),
    ];
    let mut config = settings(CropType::Exact, false);
    config.file_name.name_type = NameType::Original;
    let out = crop(&images, &sources, &config);
    assert_eq!(out.failure, Some(CropError::Naming));
    assert_eq!((out.range.min, out.range.max), (Pos2::new(1, 1), Pos2::new(1, 1)));
    let names: Vec<&str> = out.files.iter().map(|file| file.name.as_str()).collect();
    assert_eq!(names, vec!["bg.png", "one.png"]);
    assert_eq!(out.files[0].image, background);
    assert_eq!(out.files[1].image, with_pixels(&Raster::new(3, 3), &[(1, 1, WHITE)]));
}

#[test]
fn image_without_a_source_has_no_original_name() {
    let background = filled(3, 3, BLACK);
    let images = vec![background.copy(), background.copy()];
    let mut config = settings(CropType::Exact, false);
    config.file_name.name_type = NameType::Original;
    let out = crop(&images, &vec![source("back")], &config);
    assert_eq!(out.failure, Some(CropError::Naming));
    assert_eq!(out.files.len(), 1);
    assert_eq!(out.files[0].name, "bg.png");

    config.bg_name.name_type = NameType::Original;
    let out = crop(&images, &no_sources(), &config);
    assert_eq!(out.failure, Some(CropError::Naming));
    assert!(out.files.is_empty());
}

#[test]
fn apply_copies_the_background() {
    let image = numbered(4, 3);
    let found = ScanResult {
        range: RectangleRange { min: Pos2::new(1, 1), max: Pos2::new(2, 2) },
        different_pixels: vec![vec![Pos2::new(1, 1)]],
    };
    for crop_type in [CropType::Exact, CropType::Rectangle] {
        for resize_output in [false, true] {
            assert_eq!(apply(&settings(crop_type, resize_output), &image, 0, &found), image);
        }
    }
}

#[test]
fn apply_picks_the_listed_pixels() {
    let image = numbered(4, 3);
    let found = ScanResult {
        range: RectangleRange { min: Pos2::new(1, 0), max: Pos2::new(3, 2) },
        different_pixels: vec![
            vec![Pos2::new(1, 1)],
            vec![Pos2::new(3, 0), Pos2::new(1, 2), Pos2::new(3, 0)],
        ],
    };
    let config = settings(CropType::Exact, false);
    let first = apply(&config, &image, 1, &found);
    assert_eq!(first, with_pixels(&Raster::new(4, 3), &[(1, 1, image.get_pixel(1, 1))]));
    let second = apply(&config, &image, 2, &found);
    assert_eq!(
        second,
        with_pixels(
            &Raster::new(4, 3),
            &[(3, 0, image.get_pixel(3, 0)), (1, 2, image.get_pixel(1, 2))]
        )
    );
    let resized = apply(&settings(CropType::Exact, true), &image, 2, &found);
    assert_eq!(resized, with_pixels(&Raster::new(2, 2), &[]));
}

#[test]
fn apply_passes_over_what_is_not_there() {
    let image = numbered(4, 3);
    let found = ScanResult {
        range: RectangleRange { min: Pos2::new(0, 0), max: Pos2::new(3, 2) },
        different_pixels: vec![vec![Pos2::new(4, 0), Pos2::new(0, 3), Pos2::new(2, 2)]],
    };
    let config = settings(CropType::Exact, false);
    // coordinates outside the image are passed over
    assert_eq!(
        apply(&config, &image, 1, &found),
        with_pixels(&Raster::new(4, 3), &[(2, 2, image.get_pixel(2, 2))])
    );
    // an image for which nothing is listed keeps nothing
    assert_eq!(apply(&config, &image, 2, &found), Raster::new(4, 3));
    assert_eq!(apply(&config, &image, 7, &found), Raster::new(4, 3));
}

#[test]
fn apply_follows_what_scan_found() {
    let background = numbered(6, 5);
    let first = with_pixels(&background, &[(1, 1, WHITE), (3, 2, RED)]);
    let images = vec![background, first];
    for crop_type in [CropType::Exact, CropType::Rectangle] {
        for resize_output in [false, true] {
            let config = settings(crop_type, resize_output);
            let found = scan(&images, &config);
            let out = crop(&images, &no_sources(), &config);
            assert_eq!(out.range, found.range);
            for index in 0..images.len() {
                assert_eq!(apply(&config, &images[index], index, &found), out.files[index].image);
            }
        }
    }
}

#[test]
fn leniency_decides_what_is_kept() {
    let background = filled(4, 4, BLACK);
    // distance 3 * 100 * 100 = 30000, which is 15.38 % of the scale
    let grey = Rgba::new(100, 100, 100, 255);
    let image = with_pixels(&background, &[(0, 0, grey), (3, 3, WHITE)]);
    let images = vec![background, image];
    let mut config = settings(CropType::Exact, false);
    config.leniency = Leniency::from_ratio(15, 100).unwrap();
    let out = crop(&images, &no_sources(), &config);
    assert_eq!(out.files[1].image, with_pixels(&Raster::new(4, 4), &[(0, 0, grey), (3, 3, WHITE)]));
    config.leniency = Leniency::from_ratio(16, 100).unwrap();
    let out = crop(&images, &no_sources(), &config);
    assert_eq!((out.range.min, out.range.max), (Pos2::new(3, 3), Pos2::new(3, 3)));
    assert_eq!(out.files[1].image, with_pixels(&Raster::new(4, 4), &[(3, 3, WHITE)]));
}
