use shimmy::geometry::PreprocessConfig;
use shimmy::preprocess::{encode_sized, preprocess_image, PreprocessError, Raster};
use std::io::Cursor;

fn gradient(width: u32, height: u32) -> image::RgbImage {
    image::RgbImage::from_fn(width, height, |x, y| {
        image::Rgb([(x % 256) as u8, (y % 256) as u8, ((x + y) % 256) as u8])
    })
}

fn png(width: u32, height: u32) -> Vec<u8> {
    let mut bytes: Vec<u8> = Vec::new();
    image::DynamicImage::ImageRgb8(gradient(width, height))
        .write_to(&mut Cursor::new(&mut bytes), image::ImageOutputFormat::Png)
        .unwrap();
    bytes
}

fn budgets(max_long_edge: u32, max_pixels: u64) -> PreprocessConfig {
    PreprocessConfig { max_long_edge, max_pixels, jpeg_quality: 80 }
}

#[test]
fn small_image_is_encoded_at_its_own_size() {
    let out = preprocess_image(&png(320, 200), &PreprocessConfig::default()).unwrap();
    assert_eq!((out.width, out.height), (320, 200));
    assert_eq!(&out.bytes[..2], &[0xFF, 0xD8]);
}

#[test]
fn unresized_image_is_the_encoding_of_the_decoded_pixels() {
    let out = preprocess_image(&png(64, 48), &PreprocessConfig::default()).unwrap();
    let mut expected: Vec<u8> = Vec::new();
    image::codecs::jpeg::JpegEncoder::new_with_quality(&mut expected, 80)
        .encode(gradient(64, 48).as_raw(), 64, 48, image::ColorType::Rgb8)
        .unwrap();
    assert_eq!(out.bytes, expected);
}

#[test]
fn large_image_is_brought_to_the_long_edge() {
    let out = preprocess_image(&png(1280, 720), &PreprocessConfig::default()).unwrap();
    assert_eq!((out.width, out.height), (640, 360));
    let out = preprocess_image(&png(300, 900), &PreprocessConfig::default()).unwrap();
    assert_eq!((out.width, out.height), (213, 640));
}

#[test]
fn image_over_the_pixel_budget_is_scaled_under_it() {
    let cfg = budgets(1000, 10_000);
    let out = preprocess_image(&png(400, 200), &cfg).unwrap();
    assert_eq!((out.width, out.height), (141, 70));
    assert!(u64::from(out.width) * u64::from(out.height) <= 10_000);
}

#[test]
fn encoded_image_decodes_to_the_declared_size() {
    let sizes: Vec<(u32, u32)> = vec![(1, 1), (17, 9), (640, 480), (1300, 77), (33, 2000)];
    for (w, h) in sizes {
        let out = preprocess_image(&png(w, h), &PreprocessConfig::default()).unwrap();
        let back = image::load_from_memory(&out.bytes).unwrap();
        assert_eq!((back.width(), back.height()), (out.width, out.height));
    }
}

#[test]
fn quality_changes_the_encoding() {
    let low = preprocess_image(&png(100, 100), &PreprocessConfig { max_long_edge: 640, max_pixels: 1_500_000, jpeg_quality: 10 }).unwrap();
    let high = preprocess_image(&png(100, 100), &PreprocessConfig { max_long_edge: 640, max_pixels: 1_500_000, jpeg_quality: 95 }).unwrap();
    assert!(low.bytes.len() < high.bytes.len());
}

#[test]
fn bytes_that_are_no_image_are_refused() {
    assert!(matches!(
        preprocess_image(b"definitely not an image", &PreprocessConfig::default()),
        Err(PreprocessError::Decode(_))
    ));
    assert!(matches!(
        preprocess_image(&[], &PreprocessConfig::default()),
        Err(PreprocessError::Decode(_))
    ));
    let mut truncated = png(50, 50);
    truncated.truncate(40);
    assert!(matches!(
        preprocess_image(&truncated, &PreprocessConfig::default()),
        Err(PreprocessError::Decode(_))
    ));
}

#[test]
fn image_that_cannot_meet_the_budget_is_refused() {
    assert_eq!(
        preprocess_image(&png(1, 100), &budgets(1000, 10)),
        Err(PreprocessError::TooLarge { width: 1, height: 31 })
    );
    assert_eq!(
        preprocess_image(&png(100, 100), &budgets(1000, 0)),
        Err(PreprocessError::TooLarge { width: 1, height: 1 })
    );
}

fn raster(width: u32, height: u32) -> Raster {
    Raster { width, height, pixels: gradient(width, height).into_raw() }
}

fn jpeg(img: &image::RgbImage, quality: u8) -> Vec<u8> {
    let mut bytes: Vec<u8> = Vec::new();
    image::codecs::jpeg::JpegEncoder::new_with_quality(&mut bytes, quality)
        .encode(img.as_raw(), img.width(), img.height(), image::ColorType::Rgb8)
        .unwrap();
    bytes
}

#[test]
fn decoded_image_within_the_budgets_is_encoded_as_it_is() {
    let out = encode_sized(raster(64, 48), &PreprocessConfig::default()).unwrap();
    assert_eq!((out.width, out.height), (64, 48));
    assert_eq!(out.bytes, jpeg(&gradient(64, 48), 80));
    let other = encode_sized(
        Raster { width: 64, height: 48, pixels: vec![7; 3 * 64 * 48] },
        &PreprocessConfig::default(),
    )
    .unwrap();
    assert_ne!(other.bytes, out.bytes);
}

#[test]
fn decoded_image_over_the_budgets_is_resampled() {
    let out = encode_sized(raster(1280, 720), &PreprocessConfig::default()).unwrap();
    assert_eq!((out.width, out.height), (640, 360));
    let back = image::load_from_memory(&out.bytes).unwrap();
    assert_eq!((back.width(), back.height()), (640, 360));
    assert_eq!(
        encode_sized(raster(1, 100), &budgets(1000, 10)),
        Err(PreprocessError::TooLarge { width: 1, height: 31 })
    );
}

#[test]
fn image_with_an_empty_edge_is_resampled_and_encoded() {
    let usual = PreprocessConfig::default();
    let out = encode_sized(Raster { width: 1000, height: 0, pixels: vec![] }, &usual).unwrap();
    assert_eq!((out.width, out.height), (640, 1));
    assert_eq!(&out.bytes[..2], &[0xFF, 0xD8]);
    let out = encode_sized(Raster { width: 0, height: 1000, pixels: vec![] }, &usual).unwrap();
    assert_eq!((out.width, out.height), (1, 640));
    let out = encode_sized(Raster { width: 0, height: 0, pixels: vec![] }, &usual).unwrap();
    assert_eq!((out.width, out.height), (0, 0));
    let out = encode_sized(Raster { width: 0, height: 5, pixels: vec![] }, &usual).unwrap();
    assert_eq!((out.width, out.height), (0, 5));
}

#[test]
fn cap_of_nothing_leaves_an_image_with_an_empty_edge() {
    let out = preprocess_image(&png(10, 10), &budgets(0, 100)).unwrap();
    assert_eq!((out.width, out.height), (0, 1));
    let out = encode_sized(raster(3, 10), &budgets(0, 100)).unwrap();
    assert_eq!((out.width, out.height), (1, 0));
}

#[test]
fn raster_has_three_bytes_for_each_pixel() {
    assert!(raster(7, 5).is_well_formed());
    assert!(Raster { width: 0, height: 9, pixels: vec![] }.is_well_formed());
    assert!(!Raster { width: 2, height: 2, pixels: vec![0; 11] }.is_well_formed());
    assert!(!Raster { width: u32::MAX, height: u32::MAX, pixels: vec![0; 3] }.is_well_formed());
}
