use pattern_image::error::ImageError;
use pattern_image::pattern::Pattern;
use pattern_image::raster::{raster_size, RasterSize};

#[test]
fn zoom_for_wide_document() {
    let z = raster_size(100, 50, 128).unwrap();
    assert_eq!(z, RasterSize { width: 256, height: 128, zoom_num: 128, zoom_den: 50 });
    assert!((z.zoom_num as f64 / z.zoom_den as f64 - 2.56).abs() < 1e-12);
}

#[test]
fn zoom_for_tall_document_rounds_up() {
    let z = raster_size(3, 7, 10).unwrap();
    // 7 * 10 / 3 = 23.33.. rounds up to 24
    assert_eq!(z, RasterSize { width: 10, height: 24, zoom_num: 10, zoom_den: 3 });
}

#[test]
fn square_document() {
    let z = raster_size(60, 60, 64).unwrap();
    assert_eq!((z.width, z.height), (64, 64));
}

#[test]
fn degenerate_sizes_are_refused() {
    assert_eq!(raster_size(0, 50, 128), Err(ImageError::Render));
    assert_eq!(raster_size(50, 0, 128), Err(ImageError::Render));
    assert_eq!(raster_size(50, 50, 0), Err(ImageError::Render));
}

#[test]
fn oversized_output_is_refused() {
    assert_eq!(raster_size(4_000_000_000, 1, 2), Err(ImageError::Render));
    assert!(raster_size(u32::MAX, 1, 1).is_ok());
}

#[test]
fn rasterize_refuses_mismatched_buffer() {
    assert_eq!(Pattern::rasterize(vec![1, 2, 3], 1, 1), Err(ImageError::Render));
    assert_eq!(Pattern::rasterize(vec![0; 8], 1, 1), Err(ImageError::Render));
}

#[test]
fn rasterize_refuses_empty_image() {
    assert_eq!(Pattern::rasterize(vec![], 0, 5), Err(ImageError::DegenerateImage));
}

#[test]
fn rasterize_reports_pass_limit() {
    assert_eq!(
        Pattern::rasterize(vec![0, 0, 0, 255], 1, 1),
        Err(ImageError::IterationLimitExceeded)
    );
}

#[test]
fn rasterize_encodes_png() {
    let png = Pattern::rasterize(vec![200, 200, 200, 255, 10, 10, 10, 255], 2, 1).unwrap();
    assert_eq!(&png[..8], &[137, 80, 78, 71, 13, 10, 26, 10]);
    assert!(png.len() > 8);
}
