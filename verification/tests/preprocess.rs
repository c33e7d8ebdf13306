use mt2_draft_assistant::preprocess::{
    apply_adaptive_threshold, apply_median_filter, apply_threshold, can_upscale, enhance_contrast,
    finish_preprocess, invert, preprocess_default, preprocess_for_ocr, to_grayscale, upscale,
    PreprocessConfig, PreprocessError, PreprocessStep,
};
use mt2_draft_assistant::raster::{GrayImage, RgbaImage};

fn create_test_image(width: u32, height: u32, value: u8) -> RgbaImage {
    RgbaImage::filled(width, height, [value, value, value, 255])
}

fn gray(width: u32, height: u32, pixels: Vec<u8>) -> GrayImage {
    GrayImage::from_raw(width, height, pixels).unwrap()
}

/// The mild blur of the denoising stage, as the application applies it.
fn blur(img: &GrayImage) -> GrayImage {
    let (width, height) = img.dimensions();
    let buffer: image::GrayImage =
        image::ImageBuffer::from_raw(width, height, img.pixels().clone()).unwrap();
    let blurred = image::imageops::blur(&buffer, 0.5);
    GrayImage::from_raw(width, height, blurred.into_raw()).unwrap()
}

fn finish(step: PreprocessStep, config: &PreprocessConfig) -> GrayImage {
    match step {
        PreprocessStep::Smooth(grey) => finish_preprocess(&blur(&grey), config),
        PreprocessStep::Done(done) => done,
    }
}

fn run(img: &RgbaImage, config: &PreprocessConfig) -> Result<GrayImage, PreprocessError> {
    Ok(finish(preprocess_for_ocr(img, config)?, config))
}

#[test]
fn test_to_grayscale() {
    let img = create_test_image(10, 10, 128);
    let gray = to_grayscale(&img);
    assert_eq!(gray.dimensions(), (10, 10));
}

#[test]
fn test_apply_threshold() {
    // Create gradient image
    let mut img = GrayImage::new(256, 1);
    for i in 0..256u32 {
        img.put_pixel(i, 0, i as u8);
    }

    let thresholded = apply_threshold(&img, 127);

    // Values <= 127 should be 0, > 127 should be 255
    assert_eq!(thresholded.get_pixel(0, 0).unwrap(), 0);
    assert_eq!(thresholded.get_pixel(127, 0).unwrap(), 0);
    assert_eq!(thresholded.get_pixel(128, 0).unwrap(), 255);
    assert_eq!(thresholded.get_pixel(255, 0).unwrap(), 255);
}

#[test]
fn test_adaptive_threshold_basic() {
    let mut img = GrayImage::new(10, 10);
    for y in 0..10 {
        for x in 0..10 {
            img.put_pixel(x, y, 128);
        }
    }

    // Set center to brighter
    for y in 3..7 {
        for x in 3..7 {
            img.put_pixel(x, y, 200);
        }
    }

    let result = apply_adaptive_threshold(&img, 5, 10);
    assert_eq!(result.dimensions(), (10, 10));
}

#[test]
fn test_invert() {
    let mut img = GrayImage::new(2, 1);
    img.put_pixel(0, 0, 0);
    img.put_pixel(1, 0, 255);

    let inverted = invert(&img);
    assert_eq!(inverted.get_pixel(0, 0).unwrap(), 255);
    assert_eq!(inverted.get_pixel(1, 0).unwrap(), 0);
}

#[test]
fn test_enhance_contrast() {
    let mut img = GrayImage::new(3, 1);
    img.put_pixel(0, 0, 64);
    img.put_pixel(1, 0, 128);
    img.put_pixel(2, 0, 192);

    let enhanced = enhance_contrast(&img, 2000);

    // Middle should stay around 128, edges should be more extreme
    assert!(enhanced.get_pixel(0, 0).unwrap() < 64);
    assert!(enhanced.get_pixel(2, 0).unwrap() > 192);
}

#[test]
fn test_upscale() {
    let img = GrayImage::new(10, 10);
    let upscaled = upscale(&img, 2000);
    assert_eq!(upscaled.dimensions(), (20, 20));

    // No upscaling when factor <= 1
    let same = upscale(&img, 500);
    assert_eq!(same.dimensions(), (10, 10));
}

#[test]
fn test_preprocess_default_empty_image() {
    let img = create_test_image(0, 0, 128);
    assert!(preprocess_default(&img).is_err());

    let img = create_test_image(10, 0, 128);
    assert!(preprocess_default(&img).is_err());
}

#[test]
fn test_preprocess_default_valid_image() {
    let img = create_test_image(100, 50, 128);
    let result = preprocess_default(&img);
    assert!(result.is_ok());

    let processed = finish(result.unwrap(), &PreprocessConfig::default());
    // Should be upscaled by 2x
    assert_eq!(processed.dimensions(), (200, 100));
}

#[test]
fn test_preprocess_config_default() {
    let config = PreprocessConfig::default();
    assert_eq!(config.threshold, 127);
    assert!(config.use_adaptive_threshold);
    assert_eq!(config.adaptive_block_size, 11);
    assert!(config.denoise);
    assert!(config.scale_factor as f64 / 1000.0 > 1.0);
}

#[test]
fn test_median_filter() {
    let mut img = GrayImage::new(5, 5);
    for y in 0..5 {
        for x in 0..5 {
            img.put_pixel(x, y, 100);
        }
    }
    // Add noise
    img.put_pixel(2, 2, 255);

    let filtered = apply_median_filter(&img, 3);
    assert_eq!(filtered.dimensions(), (5, 5));

    // Center should be smoothed
    assert!(filtered.get_pixel(2, 2).unwrap() < 255);
}

#[test]
fn preprocess_test_error_display() {
    assert!(PreprocessError::EmptyImage.to_string().contains("empty"));
    assert!(PreprocessError::InvalidImage("test".to_string()).to_string().contains("test"));
}

#[test]
fn preprocess_error_messages_are_exact() {
    assert_eq!(PreprocessError::EmptyImage.to_string(), "Image is empty");
    assert_eq!(
        PreprocessError::InvalidImage("bad".to_string()).to_string(),
        "Invalid image: bad"
    );
    assert_eq!(
        PreprocessError::ProcessingFailed("why".to_string()).to_string(),
        "Processing failed: why"
    );
}

#[test]
fn default_settings_are_exact() {
    let config = PreprocessConfig::default();
    assert_eq!(config.adaptive_c, 2);
    assert!(!config.invert);
    assert_eq!(config.scale_factor, 2000);
    assert_eq!(config.contrast_factor, 1500);
}

#[test]
fn grayscale_of_an_image_without_pixels() {
    let flat = to_grayscale(&RgbaImage::filled(7, 0, [1, 2, 3, 4]));
    assert_eq!(flat.dimensions(), (7, 0));
    assert!(flat.pixels().is_empty());
    let wide = to_grayscale(&RgbaImage::from_raw(1 << 30, 0, vec![]).unwrap());
    assert_eq!(wide.dimensions(), (1 << 30, 0));
    assert!(wide.is_empty());
}

#[test]
fn grayscale_weighs_the_colours() {
    let img = RgbaImage::from_raw(
        4,
        1,
        vec![255, 0, 0, 255, 0, 255, 0, 0, 0, 0, 255, 17, 10, 200, 30, 255],
    )
    .unwrap();
    let gray = to_grayscale(&img);
    // 2126, 7152 and 722 parts of 10000, rounded down.
    assert_eq!(gray.pixels(), &vec![54, 182, 18, 147]);
    let white = to_grayscale(&create_test_image(2, 2, 255));
    assert_eq!(white.pixels(), &vec![255; 4]);
}

#[test]
fn threshold_is_white_above_the_value_only() {
    let img = gray(4, 1, vec![0, 99, 100, 101]);
    assert_eq!(apply_threshold(&img, 100).pixels(), &vec![0, 0, 0, 255]);
    assert_eq!(apply_threshold(&img, 255).pixels(), &vec![0, 0, 0, 0]);
    assert_eq!(apply_threshold(&img, 0).pixels(), &vec![0, 255, 255, 255]);
}

#[test]
fn threshold_leaves_black_and_white_alone() {
    let img = gray(3, 2, vec![0, 255, 255, 0, 0, 255]);
    assert_eq!(apply_threshold(&img, 127), img);
    assert_eq!(apply_threshold(&img, 254), img);
    let any = gray(3, 1, vec![3, 130, 250]);
    let once = apply_threshold(&any, 129);
    assert_eq!(apply_threshold(&once, 129), once);
}

#[test]
fn invert_twice_gives_the_image_back() {
    let img = gray(3, 2, vec![0, 1, 127, 128, 254, 255]);
    assert_eq!(invert(&img).pixels(), &vec![255, 254, 128, 127, 1, 0]);
    assert_eq!(invert(&invert(&img)), img);
}

#[test]
fn contrast_stretches_around_the_middle() {
    let img = gray(5, 1, vec![0, 100, 128, 129, 255]);
    // (v - 128) * 1.5 + 128, cut off at black and white, rounded down
    assert_eq!(enhance_contrast(&img, 1500).pixels(), &vec![0, 86, 128, 129, 255]);
    assert_eq!(enhance_contrast(&img, 1000), img);
    assert_eq!(enhance_contrast(&img, 0).pixels(), &vec![128; 5]);
    assert_eq!(enhance_contrast(&img, -1000).pixels(), &vec![255, 156, 128, 127, 1]);
    assert_eq!(enhance_contrast(&img, 500).pixels(), &vec![64, 114, 128, 128, 191]);
}

#[test]
fn upscale_leaves_small_factors_alone() {
    let img = gray(2, 2, vec![1, 2, 3, 4]);
    assert_eq!(upscale(&img, 1000), img);
    assert_eq!(upscale(&img, 500), img);
    assert_eq!(upscale(&img, 0), img);
    assert_eq!(upscale(&img, 2500).dimensions(), (5, 5));
    assert_eq!(upscale(&img, 1499).dimensions(), (2, 2));
    let flat = GrayImage::filled(3, 4, 200);
    let larger = upscale(&flat, 2000);
    assert_eq!(larger.dimensions(), (6, 8));
    assert_eq!(larger.pixels().len(), 48);
    let none = GrayImage::new(0, 3);
    assert_eq!(upscale(&none, 2000).dimensions(), (0, 6));
}

#[test]
fn upscale_by_two_doubles_both_sides() {
    for (width, height) in [(1, 1), (10, 10), (3, 7), (100, 50), (640, 2)] {
        let img = GrayImage::filled(width, height, 77);
        let doubled = upscale(&img, 2000);
        assert_eq!(doubled.dimensions(), (2 * width, 2 * height));
    }
    let img = GrayImage::filled(3, 7, 1);
    assert_eq!(upscale(&img, 1500).dimensions(), (4, 10));
    assert_eq!(upscale(&img, 1001).dimensions(), (3, 7));
    assert_eq!(upscale(&img, 3333).dimensions(), (9, 23));
}

#[test]
fn upscale_is_refused_beyond_the_limits() {
    assert!(can_upscale(1920, 1080, 2000));
    assert!(can_upscale(u32::MAX, u32::MAX, 1000));
    assert!(can_upscale(0, u32::MAX, 4000000));
    assert!(!can_upscale(1048576, 1, 1001));
    assert!(!can_upscale(600000, 600000, 2000));
}

#[test]
fn median_takes_the_middle_of_the_neighbours() {
    // 1 2 3
    // 4 5 6
    // 7 8 9
    let img = gray(3, 3, vec![1, 2, 3, 4, 5, 6, 7, 8, 9]);
    let filtered = apply_median_filter(&img, 3);
    // corner (0,0): 1 2 4 5 -> position 2 -> 4; centre: 5
    assert_eq!(filtered.pixels(), &vec![4, 4, 5, 5, 5, 6, 7, 7, 8]);
    assert_eq!(apply_median_filter(&img, 1), img);
    assert_eq!(apply_median_filter(&img, 4), img);
    assert_eq!(apply_median_filter(&img, 0), img);
    assert_eq!(apply_median_filter(&img, 5).pixels(), &vec![5; 9]);
}

#[test]
fn adaptive_threshold_compares_with_the_local_mean() {
    let img = gray(3, 1, vec![10, 20, 90]);
    // means with a block of 3: 15, 40, 55
    assert_eq!(apply_adaptive_threshold(&img, 3, 0).pixels(), &vec![0, 0, 255]);
    assert_eq!(apply_adaptive_threshold(&img, 3, 6).pixels(), &vec![255, 0, 255]);
    assert_eq!(apply_adaptive_threshold(&img, 3, 21).pixels(), &vec![255, 255, 255]);
    assert_eq!(apply_adaptive_threshold(&img, 3, -40).pixels(), &vec![0, 0, 0]);
    assert_eq!(apply_adaptive_threshold(&img, 2, 0), img);
    assert_eq!(apply_adaptive_threshold(&img, 0, 0), img);
    // a block that covers the whole image: mean 40
    assert_eq!(apply_adaptive_threshold(&img, 11, 0).pixels(), &vec![0, 0, 255]);
}

#[test]
fn adaptive_threshold_on_black_and_white() {
    // Stays where each white pixel is above its surroundings' mean less c
    // and no black pixel is.
    let img = gray(4, 1, vec![255, 255, 0, 255]);
    assert_eq!(apply_adaptive_threshold(&img, 3, 1), img);
    // An all-black image turns white with a positive c.
    let black = GrayImage::new(3, 3);
    assert_eq!(apply_adaptive_threshold(&black, 11, 2), GrayImage::filled(3, 3, 255));
}

#[test]
fn stages_run_in_order() {
    let img = RgbaImage::from_raw(2, 1, vec![100, 100, 100, 255, 200, 200, 200, 255]).unwrap();
    let mut config = PreprocessConfig {
        threshold: 127,
        use_adaptive_threshold: false,
        adaptive_block_size: 11,
        adaptive_c: 2,
        denoise: false,
        invert: false,
        scale_factor: 1000,
        contrast_factor: 1000,
    };
    assert_eq!(run(&img, &config).unwrap().pixels(), &vec![0, 255]);
    config.invert = true;
    assert_eq!(run(&img, &config).unwrap().pixels(), &vec![255, 0]);
    config.invert = false;
    config.threshold = 99;
    assert_eq!(run(&img, &config).unwrap().pixels(), &vec![255, 255]);
    // contrast moves 100 to 72 before the threshold
    config.contrast_factor = 2000;
    config.threshold = 72;
    assert_eq!(run(&img, &config).unwrap().pixels(), &vec![0, 255]);
    config.use_adaptive_threshold = true;
    config.adaptive_block_size = 3;
    config.adaptive_c = 0;
    assert_eq!(run(&img, &config).unwrap().pixels(), &vec![0, 255]);
    config.scale_factor = 3000;
    assert_eq!(run(&img, &config).unwrap().dimensions(), (6, 3));
    config.denoise = true;
    assert!(matches!(preprocess_for_ocr(&img, &config), Ok(PreprocessStep::Smooth(_))));
    assert_eq!(run(&img, &config).unwrap().dimensions(), (6, 3));
    let empty = RgbaImage::filled(0, 4, [0, 0, 0, 0]);
    assert_eq!(run(&empty, &config), Err(PreprocessError::EmptyImage));
}

#[test]
fn finishing_filters_then_thresholds() {
    let config = PreprocessConfig {
        threshold: 5,
        use_adaptive_threshold: false,
        adaptive_block_size: 11,
        adaptive_c: 2,
        denoise: true,
        invert: false,
        scale_factor: 1000,
        contrast_factor: 1000,
    };
    let img = gray(3, 3, vec![1, 2, 3, 4, 5, 6, 7, 8, 9]);
    // medians 4 4 5 5 5 6 7 7 8, white above 5
    assert_eq!(
        finish_preprocess(&img, &config).pixels(),
        &vec![0, 0, 0, 0, 0, 255, 255, 255, 255]
    );
}

#[test]
fn images_keep_one_byte_for_each_pixel() {
    assert!(GrayImage::from_raw(2, 2, vec![0; 3]).is_none());
    assert!(GrayImage::from_raw(2, 2, vec![0; 5]).is_none());
    assert!(RgbaImage::from_raw(2, 2, vec![0; 15]).is_none());
    let mut img = GrayImage::filled(2, 3, 9);
    assert_eq!(img.width(), 2);
    assert_eq!(img.height(), 3);
    assert!(!img.is_empty());
    assert_eq!(img.get_pixel(1, 2), Some(9));
    assert_eq!(img.get_pixel(2, 0), None);
    assert_eq!(img.get_pixel(0, 3), None);
    img.put_pixel(1, 2, 4);
    img.put_pixel(5, 5, 1);
    assert_eq!(img.clone().into_raw(), vec![9, 9, 9, 9, 9, 4]);
    let colour = RgbaImage::filled(1, 2, [1, 2, 3, 4]);
    assert_eq!(colour.data(), &vec![1, 2, 3, 4, 1, 2, 3, 4]);
    assert_eq!((colour.width(), colour.height()), (1, 2));
    assert!(RgbaImage::filled(0, 0, [0, 0, 0, 0]).is_empty());
    assert_eq!(colour.clone(), colour);
}
