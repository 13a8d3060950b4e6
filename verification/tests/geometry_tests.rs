use shimmy::geometry::{
    clamp_to_long_edge, fit_to_pixel_budget, fits_budget, isqrt, target_dimensions,
    PreprocessConfig,
};
use shimmy::preprocess::{plan_size, PreprocessError};

fn budgets(max_long_edge: u32, max_pixels: u64) -> PreprocessConfig {
    PreprocessConfig { max_long_edge, max_pixels, jpeg_quality: 80 }
}

#[test]
fn integer_square_roots() {
    assert_eq!(isqrt(0), 0);
    assert_eq!(isqrt(1), 1);
    assert_eq!(isqrt(3), 1);
    assert_eq!(isqrt(4), 2);
    assert_eq!(isqrt(1_500_000), 1224);
    assert_eq!(isqrt(1_500_625), 1225);
    assert_eq!(isqrt(1_500_624), 1224);
    assert_eq!(isqrt(u128::MAX), u64::MAX);
}

#[test]
fn image_within_both_budgets_keeps_its_size() {
    let cfg = PreprocessConfig::default();
    assert_eq!(target_dimensions(640, 480, &cfg), (640, 480));
    assert_eq!(target_dimensions(1, 1, &cfg), (1, 1));
    assert_eq!(target_dimensions(640, 640, &cfg), (640, 640));
    assert_eq!(plan_size(320, 200, &cfg), Ok((320, 200)));
}

#[test]
fn long_edge_becomes_the_cap() {
    assert_eq!(clamp_to_long_edge(2000, 1000, 640), (640, 320));
    assert_eq!(clamp_to_long_edge(1000, 2000, 640), (320, 640));
    assert_eq!(clamp_to_long_edge(1920, 1080, 640), (640, 360));
    assert_eq!(clamp_to_long_edge(641, 481, 640), (640, 480));
    assert_eq!(clamp_to_long_edge(1000, 3, 640), (640, 2));
}

#[test]
fn short_edge_is_rounded_and_never_below_one() {
    // 1 * 640 / 1000 = 0.64 rounds to 1; 1 * 640 / 2000 = 0.32 rounds to 0 and is raised to 1.
    assert_eq!(clamp_to_long_edge(1000, 1, 640), (640, 1));
    assert_eq!(clamp_to_long_edge(2000, 1, 640), (640, 1));
    // 5 * 640 / 1280 = 2.5: a half is rounded up.
    assert_eq!(clamp_to_long_edge(1280, 5, 640), (640, 3));
}

#[test]
fn default_budgets_are_the_documented_ones() {
    let cfg = PreprocessConfig::default();
    assert_eq!(cfg.max_long_edge, 640);
    assert_eq!(cfg.max_pixels, 1_500_000);
    assert_eq!(cfg.jpeg_quality, 80);
}

#[test]
fn pixel_budget_scales_both_edges_by_the_square_root() {
    assert_eq!(fit_to_pixel_budget(2000, 2000, 1_500_000), (1224, 1224));
    // sqrt(4000 * 1_000_000 / 1000) = 2000, sqrt(1000 * 1_000_000 / 4000) = 500
    assert_eq!(fit_to_pixel_budget(4000, 1000, 1_000_000), (2000, 500));
    assert_eq!(fit_to_pixel_budget(100, 100, 10_000), (100, 100));
    assert_eq!(fit_to_pixel_budget(100, 100, 9_999), (99, 99));
}

#[test]
fn scaled_size_is_within_the_pixel_budget() {
    let cfg = budgets(4000, 1_500_000);
    let (w, h) = target_dimensions(3000, 2000, &cfg);
    assert_eq!((w, h), (1500, 1000));
    assert!(u64::from(w) * u64::from(h) <= cfg.max_pixels);
    assert!(fits_budget(w, h, &cfg));
}

#[test]
fn both_budgets_apply_in_turn() {
    let cfg = budgets(640, 100_000);
    // 1920x1080 is first brought to 640x360 = 230400 pixels, then scaled by sqrt(100000/230400).
    assert_eq!(target_dimensions(1920, 1080, &cfg), (421, 237));
    assert_eq!(plan_size(1920, 1080, &cfg), Ok((421, 237)));
}

#[test]
fn size_that_cannot_meet_the_budget_is_refused() {
    let cfg = budgets(1000, 10);
    assert_eq!(target_dimensions(1, 100, &cfg), (1, 31));
    assert_eq!(plan_size(1, 100, &cfg), Err(PreprocessError::TooLarge { width: 1, height: 31 }));
    let none = budgets(640, 0);
    assert_eq!(plan_size(10, 10, &none), Err(PreprocessError::TooLarge { width: 1, height: 1 }));
}

#[test]
fn image_with_an_empty_edge_is_given_a_size() {
    let cfg = budgets(0, 1_500_000);
    assert_eq!(plan_size(10, 10, &cfg), Ok((0, 1)));
    assert_eq!(plan_size(3, 10, &cfg), Ok((1, 0)));
    let usual = PreprocessConfig::default();
    assert_eq!(plan_size(0, 1000, &usual), Ok((1, 640)));
    assert_eq!(plan_size(1000, 0, &usual), Ok((640, 1)));
    assert_eq!(plan_size(0, 640, &usual), Ok((0, 640)));
    assert_eq!(plan_size(0, 0, &usual), Ok((0, 0)));
}

#[test]
fn image_that_cannot_be_resampled_is_refused() {
    // One intermediate value of sixteen bytes for each pixel of the source's
    // width by the target's height: more than a vector holds.
    let cfg = budgets(u32::MAX - 1, u64::MAX);
    assert_eq!(
        plan_size(u32::MAX, u32::MAX, &cfg),
        Err(PreprocessError::Unscalable { width: u32::MAX, height: u32::MAX })
    );
    // An image that keeps its size is not resampled, however large.
    let wide = budgets(u32::MAX, u64::MAX);
    assert_eq!(plan_size(u32::MAX, u32::MAX, &wide), Ok((u32::MAX, u32::MAX)));
    // Far below the limit nothing is refused.
    assert_eq!(plan_size(100_000, 100_000, &PreprocessConfig::default()), Ok((640, 640)));
}

#[test]
fn sizing_never_overflows() {
    let cfg = budgets(u32::MAX, u64::MAX);
    assert_eq!(target_dimensions(u32::MAX, u32::MAX, &cfg), (u32::MAX, u32::MAX));
    let tight = budgets(u32::MAX - 1, u64::MAX);
    assert_eq!(target_dimensions(u32::MAX, 1, &tight), (u32::MAX - 1, 1));
    let small = budgets(u32::MAX, 1);
    assert_eq!(target_dimensions(u32::MAX, u32::MAX, &small), (1, 1));
}

#[test]
fn preprocess_errors_say_what_happened() {
    assert_eq!(
        PreprocessError::TooLarge { width: 1, height: 31 }.message(),
        "image too large after resize (1x31)"
    );
    assert_eq!(
        PreprocessError::Unscalable { width: 0, height: 7 }.message(),
        "image cannot be resized (0x7)"
    );
    assert_eq!(PreprocessError::Decode("bad".to_string()).message(), "bad");
}
