use pattern_image::error::ImageError;
use pattern_image::luminance::{normalize, MAX_PASSES};

fn mean_luminance(data: &[u8]) -> f64 {
    let mut total = 0.0;
    let mut pixels = 0usize;
    for px in data.chunks(4) {
        total += 0.299 * px[0] as f64 + 0.587 * px[1] as f64 + 0.114 * px[2] as f64;
        pixels += 1;
    }
    total / pixels as f64
}

#[test]
fn empty_buffer_is_degenerate() {
    let mut data: Vec<u8> = vec![];
    assert_eq!(normalize(&mut data), Err(ImageError::DegenerateImage));
    assert!(data.is_empty());
}

#[test]
fn bright_buffer_is_left_alone() {
    let mut data = vec![200, 180, 160, 255, 90, 100, 110, 128];
    let before = data.clone();
    assert_eq!(normalize(&mut data), Ok(0));
    assert_eq!(data, before);
}

#[test]
fn second_run_applies_no_pass() {
    let mut data = vec![50, 50, 50, 255, 20, 40, 60, 255];
    let first = normalize(&mut data);
    assert!(matches!(first, Ok(k) if k > 0));
    let after_first = data.clone();
    assert_eq!(normalize(&mut data), Ok(0));
    assert_eq!(data, after_first);
}

#[test]
fn grey_pixel_takes_six_passes() {
    // 50 -> 55 -> 60 -> 66 -> 72 -> 79 -> 86
    let mut data = vec![50, 50, 50, 255];
    assert_eq!(normalize(&mut data), Ok(6));
    assert_eq!(data, vec![86, 86, 86, 255]);
}

#[test]
fn success_means_mean_at_least_threshold() {
    let mut data = vec![10, 20, 30, 255, 70, 60, 50, 255, 0, 120, 33, 255, 15, 15, 15, 0];
    let r = normalize(&mut data);
    assert!(r.is_ok());
    assert!(mean_luminance(&data) >= 80.0);
}

#[test]
fn no_channel_decreases_and_alpha_is_kept() {
    let before: Vec<u8> = (0..64u32).map(|i| ((i * 37 + 11) % 120) as u8).collect();
    let mut data = before.clone();
    let _ = normalize(&mut data);
    for i in 0..before.len() {
        assert!(data[i] >= before[i]);
        if i % 4 == 3 {
            assert_eq!(data[i], before[i]);
        }
    }
}

#[test]
fn channel_near_ceiling_is_not_scaled() {
    // 231 * 1.1 = 254.1 is allowed; 254 * 1.1 passes 255 and stays.
    let mut data = vec![231, 0, 0, 9];
    assert_eq!(normalize(&mut data), Err(ImageError::IterationLimitExceeded));
    assert_eq!(data, vec![254, 0, 0, 9]);
}

#[test]
fn black_image_hits_the_pass_limit() {
    let mut data = vec![0, 0, 0, 255, 0, 0, 0, 255];
    assert_eq!(normalize(&mut data), Err(ImageError::IterationLimitExceeded));
    assert_eq!(data, vec![0, 0, 0, 255, 0, 0, 0, 255]);
    assert_eq!(MAX_PASSES, 64);
}
