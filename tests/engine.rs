use amethyst_colorizer::color::{from_hsva, to_hsva, Hsva, Rgba};
use amethyst_colorizer::config::{
    Config, DyeColor, DyeColorConfig, Filter, FilterOperation, FilterTarget, FilterType,
};
use amethyst_colorizer::raster::RgbaImage;
use amethyst_colorizer::engine::walk_pixels;
use amethyst_colorizer::{apply_image_filter, apply_pixel_filter, transform_image, Error};

fn filter(kind: FilterType, target: FilterTarget, operation: FilterOperation, value: i32) -> Filter {
    Filter { kind, target, operation, value }
}

fn dye(rgb: [u8; 3], filters: Vec<Filter>) -> DyeColorConfig {
    DyeColorConfig { rgb, allow_alpha: true, filters }
}

fn image_of(width: u32, height: u32, data: Vec<u8>) -> RgbaImage {
    RgbaImage::from_raw(width, height, data).expect("buffer of the right size")
}

#[test]
fn round_trip_is_exact_on_a_grid() {
    for r in (0..=255u32).step_by(5) {
        for g in (0..=255u32).step_by(3) {
            for b in (0..=255u32).step_by(17) {
                let p = Rgba { r: r as u8, g: g as u8, b: b as u8, a: (r ^ g) as u8 };
                assert_eq!(from_hsva(to_hsva(p)), p);
            }
        }
    }
}

#[test]
fn to_hsva_of_primary_colors() {
    let red = to_hsva(Rgba { r: 255, g: 0, b: 0, a: 255 });
    assert_eq!(red, Hsva { hue: 0, saturation: 1_000_000, value: 1_000_000, alpha: 1_000_000 });
    let green = to_hsva(Rgba { r: 0, g: 255, b: 0, a: 0 });
    assert_eq!(green.hue, 120_000_000);
    assert_eq!(green.alpha, 0);
    let blue = to_hsva(Rgba { r: 0, g: 0, b: 255, a: 255 });
    assert_eq!(blue.hue, 240_000_000);
    let magenta_ish = to_hsva(Rgba { r: 255, g: 0, b: 128, a: 255 });
    assert!(magenta_ish.hue > 300_000_000 && magenta_ish.hue < 360_000_000);
}

#[test]
fn white_pixel_stays_white_under_red_dye() {
    let mut img = image_of(1, 1, vec![255, 255, 255, 255]);
    let cfg = dye([255, 0, 0], vec![]);
    assert_eq!(transform_image(&cfg, &mut img), Ok(()));
    assert_eq!(img.data, vec![255, 255, 255, 255]);
}

#[test]
fn gray_pixel_saturated_becomes_red() {
    let mut img = image_of(1, 1, vec![128, 128, 128, 255]);
    let cfg = dye(
        [255, 0, 0],
        vec![filter(FilterType::Pixel, FilterTarget::Saturation, FilterOperation::Replace, 1_000_000)],
    );
    assert_eq!(transform_image(&cfg, &mut img), Ok(()));
    assert_eq!(img.data, vec![128, 0, 0, 255]);
}

fn contrast_oracle(data: &[u8], width: u32, height: u32, contrast: f32) -> Vec<u8> {
    let mut img = image::RgbaImage::from_raw(width, height, data.to_vec()).unwrap();
    image::imageops::colorops::contrast_in_place(&mut img, contrast);
    img.into_raw()
}

#[test]
fn brightness_then_contrast_chain_on_two_by_two() {
    let data = vec![100, 100, 100, 255, 0, 0, 0, 255, 200, 200, 200, 128, 250, 250, 250, 0];
    let mut img = image_of(2, 2, data.clone());
    let cfg = dye(
        [255, 0, 0],
        vec![
            filter(FilterType::Image, FilterTarget::Brightness, FilterOperation::Add, 10_000_000),
            filter(FilterType::Image, FilterTarget::Contrast, FilterOperation::Add, 200_000),
        ],
    );
    assert_eq!(transform_image(&cfg, &mut img), Ok(()));
    let brightened: Vec<u8> =
        vec![110, 110, 110, 255, 10, 10, 10, 255, 210, 210, 210, 128, 255, 255, 255, 0];
    assert_eq!(img.data, contrast_oracle(&brightened, 2, 2, 0.2));
    assert_eq!(img.data, vec![109, 109, 109, 255, 9, 9, 9, 255, 210, 210, 210, 128, 255, 255, 255, 0]);
    let mut again = image_of(2, 2, data);
    assert_eq!(transform_image(&cfg, &mut again), Ok(()));
    assert_eq!(again.data, img.data);
}

#[test]
fn contrast_matches_the_image_crate() {
    let data: Vec<u8> = (0..=255u8).collect();
    for (value, as_float) in [(200_000, 0.2f32), (50_000_000, 50.0), (-30_000_000, -30.0)] {
        let mut img = image_of(8, 8, data.clone());
        let f = filter(FilterType::Image, FilterTarget::Contrast, FilterOperation::Add, value);
        assert_eq!(apply_image_filter(f, &mut img), Ok(()));
        assert_eq!(img.data, contrast_oracle(&data, 8, 8, as_float));
    }
    let mut img = image_of(8, 8, data.clone());
    let f = filter(FilterType::Image, FilterTarget::Contrast, FilterOperation::Multiply, 1_500_000);
    assert_eq!(apply_image_filter(f, &mut img), Ok(()));
    assert_eq!(img.data, contrast_oracle(&data, 8, 8, 0.5));
}

#[test]
fn contrast_multiply_by_one_changes_nothing() {
    let data: Vec<u8> = (0..=255u8).collect();
    let mut img = image_of(8, 8, data.clone());
    let f = filter(FilterType::Image, FilterTarget::Contrast, FilterOperation::Multiply, 1_000_000);
    assert_eq!(apply_image_filter(f, &mut img), Ok(()));
    assert_eq!(img.data, data);
}

#[test]
fn saturation_and_brightness_clamp() {
    let start = to_hsva(Rgba { r: 200, g: 100, b: 50, a: 255 });
    for target in [FilterTarget::Saturation, FilterTarget::Brightness] {
        for operation in [FilterOperation::Add, FilterOperation::Multiply, FilterOperation::Replace] {
            let mut up = start;
            assert_eq!(apply_pixel_filter(filter(FilterType::Pixel, target, operation, 1_000_000_000), &mut up), Ok(()));
            let mut down = start;
            assert_eq!(apply_pixel_filter(filter(FilterType::Pixel, target, operation, -1_000_000_000), &mut down), Ok(()));
            let (u, d) = if target == FilterTarget::Saturation {
                (up.saturation, down.saturation)
            } else {
                (up.value, down.value)
            };
            assert_eq!(u, 1_000_000);
            assert_eq!(d, 0);
        }
    }
}

#[test]
fn hue_rotation_by_full_turn_is_none() {
    let start = to_hsva(Rgba { r: 10, g: 200, b: 90, a: 255 });
    let mut full = start;
    let mut none = start;
    assert_eq!(apply_pixel_filter(filter(FilterType::Pixel, FilterTarget::Hue, FilterOperation::Add, 360_000_000), &mut full), Ok(()));
    assert_eq!(apply_pixel_filter(filter(FilterType::Pixel, FilterTarget::Hue, FilterOperation::Add, 0), &mut none), Ok(()));
    assert_eq!(full, none);
    assert_eq!(full, start);
}

#[test]
fn hue_operations() {
    let start = Hsva { hue: 100_000_000, saturation: 500_000, value: 500_000, alpha: 1_000_000 };
    let mut h = start;
    assert_eq!(apply_pixel_filter(filter(FilterType::Pixel, FilterTarget::Hue, FilterOperation::Add, -150_000_000), &mut h), Ok(()));
    assert_eq!(h.hue, 310_000_000);
    let mut h = start;
    assert_eq!(apply_pixel_filter(filter(FilterType::Pixel, FilterTarget::Hue, FilterOperation::Multiply, 5_000_000), &mut h), Ok(()));
    assert_eq!(h.hue, 140_000_000);
    let mut h = start;
    assert_eq!(apply_pixel_filter(filter(FilterType::Pixel, FilterTarget::Hue, FilterOperation::Replace, 30_000_000), &mut h), Ok(()));
    assert_eq!(h, Hsva { hue: 30_000_000, ..start });
}

#[test]
fn set_then_multiply_saturation_in_order() {
    let mut img = image_of(1, 1, vec![90, 60, 30, 255]);
    let cfg = dye(
        [0, 0, 255],
        vec![
            filter(FilterType::Pixel, FilterTarget::Saturation, FilterOperation::Replace, 200_000),
            filter(FilterType::Pixel, FilterTarget::Saturation, FilterOperation::Multiply, 2_000_000),
        ],
    );
    assert_eq!(transform_image(&cfg, &mut img), Ok(()));
    let mut h = to_hsva(Rgba { r: 90, g: 60, b: 30, a: 255 });
    h.hue = 240_000_000;
    h.saturation = 400_000;
    let p = from_hsva(h);
    assert_eq!(img.data, vec![p.r, p.g, p.b, p.a]);

    let mut h = to_hsva(Rgba { r: 90, g: 60, b: 30, a: 255 });
    for f in &cfg.filters {
        assert_eq!(apply_pixel_filter(*f, &mut h), Ok(()));
    }
    assert_eq!(h.saturation, 400_000);
}

#[test]
fn pixel_contrast_is_rejected_and_image_kept() {
    let data = vec![10, 20, 30, 255, 40, 50, 60, 200];
    for operation in [FilterOperation::Add, FilterOperation::Multiply, FilterOperation::Replace] {
        let mut img = image_of(2, 1, data.clone());
        let bad = filter(FilterType::Pixel, FilterTarget::Contrast, operation, 1_000_000);
        let cfg = dye(
            [255, 0, 0],
            vec![filter(FilterType::Pixel, FilterTarget::Saturation, FilterOperation::Replace, 1_000_000), bad],
        );
        assert_eq!(
            transform_image(&cfg, &mut img),
            Err(Error::InvalidFilter(FilterType::Pixel, FilterTarget::Contrast, operation))
        );
        assert_eq!(img.data, data);
        let mut h = to_hsva(Rgba { r: 1, g: 2, b: 3, a: 4 });
        let before = h;
        assert_eq!(apply_pixel_filter(bad, &mut h), Err(Error::invalid_filter(bad)));
        assert_eq!(h, before);
    }
}

#[test]
fn image_filter_combinations_without_meaning_are_rejected() {
    let data = vec![10, 20, 30, 255];
    let bad = [
        (FilterTarget::Contrast, FilterOperation::Replace),
        (FilterTarget::Hue, FilterOperation::Multiply),
        (FilterTarget::Hue, FilterOperation::Replace),
        (FilterTarget::Brightness, FilterOperation::Multiply),
        (FilterTarget::Brightness, FilterOperation::Replace),
    ];
    for (target, operation) in bad {
        let f = filter(FilterType::Image, target, operation, 1_000_000);
        let mut img = image_of(1, 1, data.clone());
        assert_eq!(apply_image_filter(f, &mut img), Err(Error::InvalidFilter(FilterType::Image, target, operation)));
        assert_eq!(img.data, data);
        let mut img = image_of(1, 1, data.clone());
        let cfg = dye([0, 255, 0], vec![f]);
        assert_eq!(transform_image(&cfg, &mut img), Err(Error::invalid_filter(f)));
        assert_eq!(img.data, data);
    }
}

#[test]
fn first_invalid_filter_is_reported() {
    let first = filter(FilterType::Image, FilterTarget::Hue, FilterOperation::Replace, 0);
    let second = filter(FilterType::Pixel, FilterTarget::Contrast, FilterOperation::Add, 0);
    let cfg = dye([1, 2, 3], vec![first, second]);
    let mut img = image_of(0, 0, vec![]);
    assert_eq!(transform_image(&cfg, &mut img), Err(Error::invalid_filter(first)));
}

#[test]
fn image_brightness_rounds_and_keeps_alpha() {
    let mut img = image_of(2, 1, vec![0, 100, 250, 7, 255, 5, 128, 9]);
    let f = filter(FilterType::Image, FilterTarget::Brightness, FilterOperation::Add, 9_500_000);
    assert_eq!(apply_image_filter(f, &mut img), Ok(()));
    assert_eq!(img.data, vec![10, 110, 255, 7, 255, 15, 138, 9]);
    let f = filter(FilterType::Image, FilterTarget::Brightness, FilterOperation::Add, -20_400_000);
    assert_eq!(apply_image_filter(f, &mut img), Ok(()));
    assert_eq!(img.data, vec![0, 90, 235, 7, 235, 0, 118, 9]);
}

#[test]
fn image_hue_rotation_uses_the_image_crate() {
    let data = vec![255, 0, 0, 255, 10, 200, 30, 77];
    let mut img = image_of(2, 1, data.clone());
    let f = filter(FilterType::Image, FilterTarget::Hue, FilterOperation::Add, 179_600_000);
    assert_eq!(apply_image_filter(f, &mut img), Ok(()));
    let mut oracle = image::RgbaImage::from_raw(2, 1, data.clone()).unwrap();
    image::imageops::colorops::huerotate_in_place(&mut oracle, 180);
    assert_eq!(img.data, oracle.into_raw());
    assert_ne!(img.data, data);
    assert_eq!(img.data[3], 255);
    assert_eq!(img.data[7], 77);
}

#[test]
fn hue_rotation_in_a_chain_keeps_size_and_alpha() {
    let data = vec![255, 0, 0, 255, 10, 200, 30, 77, 1, 2, 3, 0, 90, 90, 90, 12];
    let mut img = image_of(2, 2, data.clone());
    let cfg = dye(
        [0, 255, 0],
        vec![filter(FilterType::Image, FilterTarget::Hue, FilterOperation::Add, 90_000_000)],
    );
    assert_eq!(transform_image(&cfg, &mut img), Ok(()));
    assert_eq!((img.width, img.height, img.data.len()), (2, 2, 16));
    for j in (3..16).step_by(4) {
        assert_eq!(img.data[j], data[j]);
    }
}

#[test]
fn walking_without_hue_or_filters_changes_nothing() {
    let data: Vec<u8> = (0..=255u8).chain((0..=255u8).rev()).collect();
    let mut img = image_of(16, 8, data.clone());
    walk_pixels(&mut img, None, &vec![], FilterType::Pixel);
    assert_eq!(img.data, data);
}

#[test]
fn image_saturation_runs_per_pixel() {
    let mut img = image_of(1, 2, vec![200, 100, 50, 255, 20, 40, 60, 128]);
    let f = filter(FilterType::Image, FilterTarget::Saturation, FilterOperation::Replace, 0);
    assert_eq!(apply_image_filter(f, &mut img), Ok(()));
    assert_eq!(img.data, vec![200, 200, 200, 255, 60, 60, 60, 128]);
}

#[test]
fn recolor_replaces_hue() {
    let mut img = image_of(1, 1, vec![255, 0, 0, 200]);
    let cfg = dye([0, 0, 255], vec![]);
    assert_eq!(transform_image(&cfg, &mut img), Ok(()));
    assert_eq!(img.data, vec![0, 0, 255, 200]);
}

#[test]
fn from_raw_checks_length() {
    assert!(RgbaImage::from_raw(2, 2, vec![0; 15]).is_none());
    assert!(RgbaImage::from_raw(2, 2, vec![0; 16]).is_some());
    assert!(RgbaImage::from_raw(0, 5, vec![]).is_some());
}

#[test]
fn dye_color_names_and_lookup() {
    assert_eq!(DyeColor::LightBlue.name(), "light_blue");
    assert_eq!(DyeColor::White.name(), "white");
    assert_eq!(DyeColor::Pink.name(), "pink");
    let cfg = Config {
        colors: vec![
            (DyeColor::Red, dye([255, 0, 0], vec![])),
            (DyeColor::Lime, dye([0, 255, 0], vec![])),
        ],
    };
    assert_eq!(cfg.get(DyeColor::Lime).map(|c| c.rgb), Some([0, 255, 0]));
    assert!(cfg.get(DyeColor::Blue).is_none());
}
