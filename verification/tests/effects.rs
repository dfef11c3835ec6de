use pixel_effects::{Axis, EffectError, ImageProcessor, Ratio};

fn ratio(num: i32, den: u32) -> Ratio {
    Ratio::new(num, den).expect("denominator is not zero")
}

fn one() -> Ratio {
    Ratio::from_integer(1)
}

fn zero() -> Ratio {
    Ratio::from_integer(0)
}

fn sample() -> Vec<u8> {
    vec![0, 1, 2, 3, 100, 128, 200, 0, 255, 254, 127, 129, 17, 91, 233, 77]
}

// ---- brightness ----

#[test]
fn brightness_scales_two_pixels() {
    let engine = ImageProcessor::new(2, 1);
    let mut data = vec![10, 20, 30, 255, 200, 210, 220, 255];
    assert_eq!(engine.apply_brightness(&mut data, ratio(3, 2)), Ok(()));
    assert_eq!(data, vec![15, 30, 45, 255, 255, 255, 255, 255]);
}

#[test]
fn brightness_clamps_full_red_at_factor_three() {
    let engine = ImageProcessor::new(1, 1);
    let mut data = vec![255, 0, 1, 9];
    assert_eq!(engine.apply_brightness(&mut data, Ratio::from_integer(3)), Ok(()));
    assert_eq!(data, vec![255, 0, 3, 9]);
}

#[test]
fn brightness_one_is_identity() {
    let engine = ImageProcessor::new(2, 2);
    let mut data = sample();
    assert_eq!(engine.apply_brightness(&mut data, one()), Ok(()));
    assert_eq!(data, sample());
    assert_eq!(engine.apply_brightness(&mut data, ratio(7, 7)), Ok(()));
    assert_eq!(data, sample());
}

#[test]
fn brightness_rounds_toward_zero() {
    let engine = ImageProcessor::new(1, 1);
    let mut data = vec![5, 2, 254, 40];
    assert_eq!(engine.apply_brightness(&mut data, ratio(1, 3)), Ok(()));
    assert_eq!(data, vec![1, 0, 84, 40]);
}

#[test]
fn brightness_below_zero_is_zero() {
    let engine = ImageProcessor::new(1, 1);
    let mut data = vec![5, 200, 255, 40];
    assert_eq!(engine.apply_brightness(&mut data, ratio(-4, 3)), Ok(()));
    assert_eq!(data, vec![0, 0, 0, 40]);
}

#[test]
fn brightness_above_three_is_three() {
    let engine = ImageProcessor::new(1, 1);
    let mut data = vec![5, 80, 85, 40];
    assert_eq!(engine.apply_brightness(&mut data, ratio(1000, 1)), Ok(()));
    assert_eq!(data, vec![15, 240, 255, 40]);
}

#[test]
fn brightness_with_largest_parts() {
    let engine = ImageProcessor::new(1, 1);
    let mut data = vec![255, 100, 1, 40];
    assert_eq!(engine.apply_brightness(&mut data, ratio(i32::MAX, u32::MAX)), Ok(()));
    assert_eq!(data, vec![127, 49, 0, 40]);
}

// ---- contrast ----

#[test]
fn contrast_one_is_identity() {
    let engine = ImageProcessor::new(2, 2);
    let mut data = sample();
    assert_eq!(engine.apply_contrast(&mut data, one()), Ok(()));
    assert_eq!(data, sample());
    assert_eq!(engine.apply_contrast(&mut data, ratio(5, 5)), Ok(()));
    assert_eq!(data, sample());
}

#[test]
fn contrast_keeps_the_pivot() {
    let engine = ImageProcessor::new(1, 1);
    for factor in [zero(), ratio(1, 3), one(), ratio(5, 2), Ratio::from_integer(3), ratio(-2, 1), ratio(9, 1)] {
        let mut data = vec![128, 128, 128, 128];
        assert_eq!(engine.apply_contrast(&mut data, factor), Ok(()));
        assert_eq!(data, vec![128, 128, 128, 128]);
    }
}

#[test]
fn contrast_doubles_the_distance_from_the_pivot() {
    let engine = ImageProcessor::new(1, 1);
    let mut data = vec![100, 150, 28, 7];
    assert_eq!(engine.apply_contrast(&mut data, Ratio::from_integer(2)), Ok(()));
    assert_eq!(data, vec![72, 172, 0, 7]);
}

#[test]
fn contrast_halves_and_rounds_toward_zero() {
    let engine = ImageProcessor::new(1, 1);
    let mut data = vec![100, 101, 255, 7];
    assert_eq!(engine.apply_contrast(&mut data, ratio(1, 2)), Ok(()));
    assert_eq!(data, vec![114, 114, 191, 7]);
}

#[test]
fn contrast_clamps_both_ways() {
    let engine = ImageProcessor::new(1, 1);
    let mut data = vec![0, 255, 86, 7];
    assert_eq!(engine.apply_contrast(&mut data, Ratio::from_integer(3)), Ok(()));
    assert_eq!(data, vec![0, 255, 2, 7]);
}

#[test]
fn contrast_zero_gives_the_pivot() {
    let engine = ImageProcessor::new(1, 1);
    let mut data = vec![0, 255, 86, 7];
    assert_eq!(engine.apply_contrast(&mut data, ratio(-1, 2)), Ok(()));
    assert_eq!(data, vec![128, 128, 128, 7]);
}

// ---- temperature ----

#[test]
fn temperature_zero_is_identity() {
    let engine = ImageProcessor::new(2, 2);
    let mut data = sample();
    assert_eq!(engine.apply_temperature(&mut data, zero()), Ok(()));
    assert_eq!(data, sample());
    assert_eq!(engine.apply_temperature(&mut data, ratio(0, 17)), Ok(()));
    assert_eq!(data, sample());
}

#[test]
fn temperature_warm_scales_blue_down() {
    let engine = ImageProcessor::new(1, 1);
    let mut data = vec![10, 10, 10, 255];
    assert_eq!(engine.apply_temperature(&mut data, one()), Ok(()));
    assert_eq!(data, vec![13, 11, 8, 255]);
}

#[test]
fn temperature_warm_clamps_red_and_green_above() {
    let engine = ImageProcessor::new(1, 1);
    let mut data = vec![250, 240, 255, 1];
    assert_eq!(engine.apply_temperature(&mut data, one()), Ok(()));
    assert_eq!(data, vec![255, 255, 204, 1]);
}

#[test]
fn temperature_cool_scales_red_and_green_down() {
    let engine = ImageProcessor::new(2, 1);
    let mut data = vec![100, 100, 100, 5, 255, 255, 250, 6];
    assert_eq!(engine.apply_temperature(&mut data, Ratio::from_integer(-1)), Ok(()));
    assert_eq!(data, vec![80, 90, 130, 5, 204, 229, 255, 6]);
}

#[test]
fn temperature_half_warm() {
    let engine = ImageProcessor::new(1, 1);
    let mut data = vec![100, 100, 100, 5];
    assert_eq!(engine.apply_temperature(&mut data, ratio(1, 2)), Ok(()));
    assert_eq!(data, vec![115, 105, 90, 5]);
}

#[test]
fn temperature_is_limited_to_one_either_way() {
    let engine = ImageProcessor::new(1, 1);
    let mut warm = vec![100, 100, 100, 5];
    assert_eq!(engine.apply_temperature(&mut warm, Ratio::from_integer(5)), Ok(()));
    assert_eq!(warm, vec![130, 110, 80, 5]);
    let mut cool = vec![100, 100, 100, 5];
    assert_eq!(engine.apply_temperature(&mut cool, ratio(-9, 2)), Ok(()));
    assert_eq!(cool, vec![80, 90, 130, 5]);
}

// ---- blur ----

#[test]
fn blur_keeps_a_uniform_image() {
    let engine = ImageProcessor::new(3, 1);
    let mut data = vec![100, 100, 100, 255, 100, 100, 100, 255, 100, 100, 100, 255];
    assert_eq!(engine.apply_blur(&mut data, one()), Ok(()));
    assert_eq!(data, vec![100, 100, 100, 255, 100, 100, 100, 255, 100, 100, 100, 255]);
}

#[test]
fn blur_radius_zero_is_identity() {
    let engine = ImageProcessor::new(2, 2);
    let mut data = sample();
    assert_eq!(engine.apply_blur(&mut data, zero()), Ok(()));
    assert_eq!(data, sample());
    assert_eq!(engine.apply_blur(&mut data, ratio(99, 100)), Ok(()));
    assert_eq!(data, sample());
    assert_eq!(engine.apply_blur(&mut data, ratio(-3, 1)), Ok(()));
    assert_eq!(data, sample());
}

#[test]
fn blur_averages_a_row_with_replicated_edges() {
    let engine = ImageProcessor::new(3, 1);
    let mut data = vec![0, 10, 255, 1, 30, 10, 0, 2, 90, 10, 0, 3];
    assert_eq!(engine.apply_blur(&mut data, one()), Ok(()));
    assert_eq!(data, vec![10, 10, 170, 1, 40, 10, 85, 2, 70, 10, 0, 3]);
}

#[test]
fn blur_averages_rows_then_columns() {
    let engine = ImageProcessor::new(2, 2);
    let mut data = vec![0, 0, 0, 9, 100, 0, 0, 8, 200, 0, 0, 7, 50, 0, 0, 6];
    assert_eq!(engine.apply_blur(&mut data, one()), Ok(()));
    assert_eq!(data, vec![72, 0, 0, 9, 77, 0, 0, 8, 111, 0, 0, 7, 88, 0, 0, 6]);
}

#[test]
fn blur_radius_is_rounded_toward_zero() {
    let engine = ImageProcessor::new(3, 1);
    let mut data = vec![0, 10, 255, 1, 30, 10, 0, 2, 90, 10, 0, 3];
    assert_eq!(engine.apply_blur(&mut data, ratio(19, 10)), Ok(()));
    assert_eq!(data, vec![10, 10, 170, 1, 40, 10, 85, 2, 70, 10, 0, 3]);
}

#[test]
fn blur_radius_is_limited_to_ten() {
    let engine = ImageProcessor::new(2, 1);
    let mut at_ten = vec![0, 0, 0, 1, 210, 21, 42, 2];
    assert_eq!(engine.apply_blur(&mut at_ten, Ratio::from_integer(10)), Ok(()));
    // Of the 21 taps around the left pixel, 11 read it and 10 read the right one.
    assert_eq!(at_ten, vec![100, 10, 20, 1, 110, 11, 22, 2]);
    let mut beyond = vec![0, 0, 0, 1, 210, 21, 42, 2];
    assert_eq!(engine.apply_blur(&mut beyond, Ratio::from_integer(500)), Ok(()));
    assert_eq!(beyond, at_ten);
}

#[test]
fn horizontal_pass_keeps_a_single_column() {
    let engine = ImageProcessor::new(1, 3);
    let before = vec![1, 2, 3, 4, 50, 60, 70, 80, 200, 210, 220, 230];
    for radius in [0, 1, 2, 5, 10, 40] {
        let mut data = before.clone();
        assert_eq!(
            engine.apply_box_pass(&mut data, Ratio::from_integer(radius), Axis::Horizontal),
            Ok(())
        );
        assert_eq!(data, before);
    }
}

#[test]
fn vertical_pass_averages_a_single_column() {
    let engine = ImageProcessor::new(1, 3);
    let mut data = vec![0, 10, 255, 1, 30, 10, 0, 2, 90, 10, 0, 3];
    assert_eq!(engine.apply_box_pass(&mut data, one(), Axis::Vertical), Ok(()));
    assert_eq!(data, vec![10, 10, 170, 1, 40, 10, 85, 2, 70, 10, 0, 3]);
}

#[test]
fn horizontal_pass_alone_averages_rows_only() {
    let engine = ImageProcessor::new(2, 2);
    let mut data = vec![0, 0, 0, 9, 100, 0, 0, 8, 200, 0, 0, 7, 50, 0, 0, 6];
    assert_eq!(engine.apply_box_pass(&mut data, one(), Axis::Horizontal), Ok(()));
    assert_eq!(data, vec![33, 0, 0, 9, 66, 0, 0, 8, 150, 0, 0, 7, 100, 0, 0, 6]);
}

#[test]
fn pass_of_radius_zero_is_identity() {
    let engine = ImageProcessor::new(2, 2);
    let mut data = sample();
    assert_eq!(engine.apply_box_pass(&mut data, zero(), Axis::Horizontal), Ok(()));
    assert_eq!(data, sample());
    assert_eq!(engine.apply_box_pass(&mut data, zero(), Axis::Vertical), Ok(()));
    assert_eq!(data, sample());
}

// ---- pipeline ----

#[test]
fn batch_identity_changes_nothing() {
    let engine = ImageProcessor::new(2, 2);
    let mut data = sample();
    assert_eq!(engine.apply_effects_batch(&mut data, one(), one(), zero(), zero()), Ok(()));
    assert_eq!(data, sample());
}

#[test]
fn batch_runs_brightness_before_contrast() {
    let engine = ImageProcessor::new(1, 1);
    let two = Ratio::from_integer(2);
    let mut data = vec![100, 40, 10, 3];
    assert_eq!(engine.apply_effects_batch(&mut data, two, two, zero(), zero()), Ok(()));
    // 100 -> 200 -> 255, where contrast first would give 72 -> 144.
    assert_eq!(data, vec![255, 32, 0, 3]);
}

#[test]
fn batch_runs_contrast_before_temperature() {
    let engine = ImageProcessor::new(1, 1);
    let mut data = vec![200, 100, 100, 3];
    assert_eq!(
        engine.apply_effects_batch(&mut data, one(), Ratio::from_integer(2), one(), zero()),
        Ok(())
    );
    // Red: 200 -> 255 -> 255, where temperature first would give 255 -> 255 too;
    // green: 100 -> 72 -> 79, where temperature first would give 110 -> 92.
    assert_eq!(data, vec![255, 79, 57, 3]);
}

#[test]
fn batch_runs_blur_last() {
    let engine = ImageProcessor::new(2, 1);
    let mut data = vec![100, 0, 0, 1, 200, 0, 0, 2];
    assert_eq!(
        engine.apply_effects_batch(&mut data, Ratio::from_integer(2), one(), zero(), one()),
        Ok(())
    );
    // Brightness gives 200 and 255; the blur then gives (200 + 200 + 255) / 3
    // and (200 + 255 + 255) / 3. Blur first would give 133, 166 and then 255, 255.
    assert_eq!(data, vec![218, 0, 0, 1, 236, 0, 0, 2]);
}

#[test]
fn batch_equals_the_stages_one_by_one() {
    let engine = ImageProcessor::new(2, 2);
    let brightness = ratio(6, 5);
    let contrast = ratio(11, 10);
    let temperature = ratio(1, 10);
    let radius = one();
    let mut together = sample();
    assert_eq!(
        engine.apply_effects_batch(&mut together, brightness, contrast, temperature, radius),
        Ok(())
    );
    let mut apart = sample();
    assert_eq!(engine.apply_brightness(&mut apart, brightness), Ok(()));
    assert_eq!(engine.apply_contrast(&mut apart, contrast), Ok(()));
    assert_eq!(engine.apply_temperature(&mut apart, temperature), Ok(()));
    assert_eq!(engine.apply_blur(&mut apart, radius), Ok(()));
    assert_eq!(together, apart);
    assert_ne!(together, sample());
}

#[test]
fn batch_skips_only_identity_stages() {
    let engine = ImageProcessor::new(1, 1);
    let mut data = vec![100, 100, 100, 3];
    assert_eq!(
        engine.apply_effects_batch(&mut data, one(), one(), Ratio::from_integer(-1), ratio(-1, 2)),
        Ok(())
    );
    assert_eq!(data, vec![80, 90, 130, 3]);
}

// ---- alpha ----

#[test]
fn every_effect_keeps_alpha() {
    let engine = ImageProcessor::new(2, 2);
    let alphas = |d: &Vec<u8>| vec![d[3], d[7], d[11], d[15]];
    let expected = alphas(&sample());
    let params = [ratio(-5, 1), zero(), ratio(1, 3), one(), ratio(5, 2), ratio(40, 3)];
    for p in params {
        let mut a = sample();
        assert_eq!(engine.apply_brightness(&mut a, p), Ok(()));
        assert_eq!(alphas(&a), expected);
        let mut b = sample();
        assert_eq!(engine.apply_contrast(&mut b, p), Ok(()));
        assert_eq!(alphas(&b), expected);
        let mut c = sample();
        assert_eq!(engine.apply_temperature(&mut c, p), Ok(()));
        assert_eq!(alphas(&c), expected);
        let mut d = sample();
        assert_eq!(engine.apply_blur(&mut d, p), Ok(()));
        assert_eq!(alphas(&d), expected);
        let mut e = sample();
        assert_eq!(engine.apply_effects_batch(&mut e, p, p, p, p), Ok(()));
        assert_eq!(alphas(&e), expected);
    }
}

// ---- buffer length ----

#[test]
fn fits_accepts_only_the_exact_length() {
    let engine = ImageProcessor::new(2, 3);
    assert!(engine.fits(&vec![0u8; 24]));
    assert!(!engine.fits(&vec![0u8; 23]));
    assert!(!engine.fits(&vec![0u8; 25]));
    assert!(!engine.fits(&vec![0u8; 0]));
    assert!(ImageProcessor::new(0, 7).fits(&vec![0u8; 0]));
    assert!(!ImageProcessor::new(u32::MAX, u32::MAX).fits(&vec![0u8; 4]));
}

#[test]
fn new_keeps_the_size() {
    let engine = ImageProcessor::new(640, 480);
    assert_eq!(engine.width(), 640);
    assert_eq!(engine.height(), 480);
}

#[test]
fn every_effect_rejects_a_wrong_length() {
    let engine = ImageProcessor::new(2, 2);
    let two = Ratio::from_integer(2);
    for len in [0usize, 4, 15, 17, 32] {
        let before: Vec<u8> = (0..len).map(|i| (i * 7 + 3) as u8).collect();
        let mut data = before.clone();
        assert_eq!(engine.apply_brightness(&mut data, two), Err(EffectError::BufferSizeMismatch));
        assert_eq!(engine.apply_contrast(&mut data, two), Err(EffectError::BufferSizeMismatch));
        assert_eq!(engine.apply_temperature(&mut data, two), Err(EffectError::BufferSizeMismatch));
        assert_eq!(engine.apply_blur(&mut data, two), Err(EffectError::BufferSizeMismatch));
        assert_eq!(
            engine.apply_box_pass(&mut data, two, Axis::Vertical),
            Err(EffectError::BufferSizeMismatch)
        );
        assert_eq!(
            engine.apply_effects_batch(&mut data, two, two, two, two),
            Err(EffectError::BufferSizeMismatch)
        );
        assert_eq!(data, before);
    }
}

#[test]
fn empty_image_is_accepted() {
    let engine = ImageProcessor::new(0, 5);
    let two = Ratio::from_integer(2);
    let mut data: Vec<u8> = Vec::new();
    assert_eq!(engine.apply_brightness(&mut data, two), Ok(()));
    assert_eq!(engine.apply_contrast(&mut data, two), Ok(()));
    assert_eq!(engine.apply_temperature(&mut data, two), Ok(()));
    assert_eq!(engine.apply_blur(&mut data, two), Ok(()));
    assert_eq!(engine.apply_effects_batch(&mut data, two, two, two, two), Ok(()));
    assert!(data.is_empty());
}

// ---- gray buffer and repeated runs ----

#[test]
fn gray_buffer_holds_gray_pixels() {
    assert_eq!(
        ImageProcessor::new(2, 1).gray_buffer(),
        Some(vec![128, 128, 128, 255, 128, 128, 128, 255])
    );
    assert_eq!(ImageProcessor::new(0, 3).gray_buffer(), Some(Vec::new()));
    let big = ImageProcessor::new(3, 5).gray_buffer().expect("sixty bytes can be addressed");
    assert_eq!(big.len(), 60);
    assert!(ImageProcessor::new(3, 5).fits(&big));
}

#[test]
fn gray_buffer_refuses_a_size_beyond_the_address_space() {
    assert_eq!(ImageProcessor::new(u32::MAX, u32::MAX).gray_buffer(), None);
}

#[test]
fn repeated_pipeline_feeds_each_run_into_the_next() {
    let engine = ImageProcessor::new(1, 1);
    let two = Ratio::from_integer(2);
    let mut data = vec![10, 3, 100, 9];
    assert_eq!(engine.apply_effects_repeatedly(&mut data, 3, two, one(), zero(), zero()), Ok(()));
    assert_eq!(data, vec![80, 24, 255, 9]);
}

#[test]
fn repeated_pipeline_with_no_runs_changes_nothing() {
    let engine = ImageProcessor::new(2, 2);
    let two = Ratio::from_integer(2);
    let mut data = sample();
    assert_eq!(engine.apply_effects_repeatedly(&mut data, 0, two, two, two, two), Ok(()));
    assert_eq!(data, sample());
}

#[test]
fn repeated_pipeline_equals_runs_one_by_one() {
    let engine = ImageProcessor::new(2, 2);
    let (b, c, t, r) = (ratio(6, 5), ratio(11, 10), ratio(1, 10), one());
    let mut together = sample();
    assert_eq!(engine.apply_effects_repeatedly(&mut together, 2, b, c, t, r), Ok(()));
    let mut apart = sample();
    assert_eq!(engine.apply_effects_batch(&mut apart, b, c, t, r), Ok(()));
    assert_eq!(engine.apply_effects_batch(&mut apart, b, c, t, r), Ok(()));
    assert_eq!(together, apart);
}

#[test]
fn repeated_pipeline_rejects_a_wrong_length() {
    let engine = ImageProcessor::new(2, 2);
    let two = Ratio::from_integer(2);
    let mut data = vec![1, 2, 3, 4];
    assert_eq!(
        engine.apply_effects_repeatedly(&mut data, 5, two, two, two, two),
        Err(EffectError::BufferSizeMismatch)
    );
    assert_eq!(data, vec![1, 2, 3, 4]);
}

#[test]
fn gray_image_through_the_pipeline() {
    let engine = ImageProcessor::new(2, 2);
    let mut data = engine.gray_buffer().expect("sixteen bytes can be addressed");
    assert_eq!(
        engine.apply_effects_batch(&mut data, ratio(6, 5), ratio(11, 10), ratio(1, 10), one()),
        Ok(())
    );
    // 128 * 6 / 5 = 153; (153 - 128) * 11 / 10 + 128 = 155; a temperature of a
    // tenth scales red by 103 / 100, green by 101 / 100 and blue by 98 / 100.
    let pixel = [159u8, 156, 151, 255];
    assert_eq!(data, [pixel, pixel, pixel, pixel].concat());
}
