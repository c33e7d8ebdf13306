use mt2_draft_assistant::capture::{CaptureError, CaptureRegion};
use mt2_draft_assistant::pipeline::{
    calibrate_regions, quick_detect, CalibrationReport, CardDetectionOptions, CardDetectionResult,
    DetectedCard, OcrPipeline, OcrPipelineError, RegionReading,
};
use mt2_draft_assistant::preprocess::PreprocessError;
use mt2_draft_assistant::raster::RgbaImage;
use mt2_draft_assistant::recognize::{OcrResult, RecognizeError};

fn corpus() -> Vec<(String, String)> {
    vec![
        ("banished_fel".to_string(), "Fel".to_string()),
        ("banished_talos".to_string(), "Talos".to_string()),
    ]
}

fn card(id: &str, name: &str, x: i32, ocr: i32, score: i32, overall: i64, raw: &str) -> DetectedCard {
    DetectedCard {
        card_id: id.to_string(),
        card_name: name.to_string(),
        region: CaptureRegion::new(x, 0, 100, 100),
        ocr_confidence: ocr,
        match_score: score,
        overall_confidence: overall,
        raw_ocr_text: raw.to_string(),
    }
}

#[test]
fn test_detected_card_is_confident() {
    let card = DetectedCard {
        card_id: "test".to_string(),
        card_name: "Test Card".to_string(),
        region: CaptureRegion::new(0, 0, 100, 100),
        ocr_confidence: 80,
        match_score: 90,
        overall_confidence: 850,
        raw_ocr_text: "Test".to_string(),
    };

    assert!(card.is_confident(800));
    assert!(!card.is_confident(900));
}

#[test]
fn test_card_detection_result_new() {
    let cards = vec![
        DetectedCard {
            card_id: "1".to_string(),
            card_name: "Card 1".to_string(),
            region: CaptureRegion::new(0, 0, 100, 100),
            ocr_confidence: 80,
            match_score: 85,
            overall_confidence: 800,
            raw_ocr_text: "Card 1".to_string(),
        },
        DetectedCard {
            card_id: "2".to_string(),
            card_name: "Card 2".to_string(),
            region: CaptureRegion::new(100, 0, 100, 100),
            ocr_confidence: 85,
            match_score: 90,
            overall_confidence: 850,
            raw_ocr_text: "Card 2".to_string(),
        },
    ];

    let result = CardDetectionResult::new(cards);
    assert!(result.success);
    assert_eq!(result.len(), 2);
    assert!((result.average_confidence as f64 / 1000.0 - 0.825).abs() < 0.001);
    assert!(result.error_message.is_none());
}

#[test]
fn test_card_detection_result_empty() {
    let result = CardDetectionResult::new(vec![]);
    assert!(result.success);
    assert!(result.is_empty());
    assert_eq!(result.average_confidence as f64 / 1000.0, 0.0);
}

#[test]
fn test_card_detection_result_failed() {
    let result = CardDetectionResult::failed("Test error");
    assert!(!result.success);
    assert!(result.is_empty());
    assert_eq!(result.error_message, Some("Test error".to_string()));
}

#[test]
fn test_card_detection_result_confident_detections() {
    let cards = vec![
        DetectedCard {
            card_id: "1".to_string(),
            card_name: "Card 1".to_string(),
            region: CaptureRegion::new(0, 0, 100, 100),
            ocr_confidence: 80,
            match_score: 85,
            overall_confidence: 500,
            raw_ocr_text: "Card 1".to_string(),
        },
        DetectedCard {
            card_id: "2".to_string(),
            card_name: "Card 2".to_string(),
            region: CaptureRegion::new(100, 0, 100, 100),
            ocr_confidence: 85,
            match_score: 90,
            overall_confidence: 800,
            raw_ocr_text: "Card 2".to_string(),
        },
    ];

    let result = CardDetectionResult::new(cards);
    let confident = result.confident_detections(700);
    assert_eq!(confident.len(), 1);
    assert_eq!(confident[0].card_id, "2");
}

#[test]
fn test_calibration_report() {
    let report = CalibrationReport {
        screen_dimensions: (1920, 1080),
        regions_tested: 4,
        successful_captures: 3,
        failed_captures: 1,
        recommended_regions: vec![CaptureRegion::new(0, 0, 100, 100)],
    };

    assert!(!report.is_successful());
    assert!((report.success_rate() as f64 / 10.0 - 75.0).abs() < 0.001);
}

#[test]
fn test_calibration_report_successful() {
    let report = CalibrationReport {
        screen_dimensions: (1920, 1080),
        regions_tested: 4,
        successful_captures: 4,
        failed_captures: 0,
        recommended_regions: vec![],
    };

    assert!(report.is_successful());
    assert_eq!(report.success_rate() as f64 / 10.0, 100.0);
}

#[test]
fn test_card_detection_options_default() {
    let options = CardDetectionOptions::default();
    assert!(!options.save_debug_images);
    assert!(options.debug_image_path.is_none());
    assert!(options.min_overall_confidence as f64 / 1000.0 > 0.0);
}

#[test]
fn test_ocr_pipeline_error_display() {
    let err = OcrPipelineError::Configuration("test".to_string());
    assert!(err.to_string().contains("test"));
}

#[test]
fn test_error_from_conversions() {
    let capture_err = CaptureError::InvalidRegion;
    let pipeline_err: OcrPipelineError = capture_err.into();
    assert!(matches!(pipeline_err, OcrPipelineError::Capture(_)));

    let preprocess_err = PreprocessError::EmptyImage;
    let pipeline_err: OcrPipelineError = preprocess_err.into();
    assert!(matches!(pipeline_err, OcrPipelineError::Preprocess(_)));
}

#[test]
fn pipeline_error_messages_are_exact() {
    assert_eq!(
        OcrPipelineError::Capture(CaptureError::NoScreensAvailable).to_string(),
        "Capture error: No screens available for capture"
    );
    assert_eq!(
        OcrPipelineError::Preprocess(PreprocessError::EmptyImage).to_string(),
        "Preprocess error: Image is empty"
    );
    assert_eq!(
        OcrPipelineError::Recognize(RecognizeError::InvalidImage).to_string(),
        "Recognize error: Invalid image for OCR"
    );
    assert_eq!(
        OcrPipelineError::Configuration("bad".to_string()).to_string(),
        "Configuration error: bad"
    );
    let from: OcrPipelineError = RecognizeError::NoCardNamesAvailable.into();
    assert!(matches!(from, OcrPipelineError::Recognize(RecognizeError::NoCardNamesAvailable)));
}

#[test]
fn empty_result_has_no_confidence() {
    let result = CardDetectionResult::new(vec![]);
    assert_eq!(result.average_confidence, 0);
    assert!(result.success);
    assert!(result.is_empty());
    assert_eq!(result.len(), 0);
    assert_eq!(result.error_message, None);
}

#[test]
fn average_is_the_mean_rounded_down() {
    let result = CardDetectionResult::new(vec![
        card("a", "A", 0, 80, 80, 800, "a"),
        card("b", "B", 0, 80, 80, 801, "b"),
    ]);
    assert_eq!(result.average_confidence, 800);
    let negative = CardDetectionResult::new(vec![
        card("a", "A", 0, 0, 0, -3, "a"),
        card("b", "B", 0, 0, 0, 0, "b"),
    ]);
    assert_eq!(negative.average_confidence, -2);
    let extreme = CardDetectionResult::new(vec![
        card("a", "A", 0, 0, 0, i64::MAX, "a"),
        card("b", "B", 0, 0, 0, i64::MAX, "b"),
        card("c", "C", 0, 0, 0, i64::MIN, "c"),
    ]);
    assert_eq!(extreme.average_confidence, 3074457345618258602);
}

#[test]
fn options_take_regions_and_debug_path() {
    let regions = vec![CaptureRegion::new(1, 1, 1, 1)];
    let options = CardDetectionOptions::with_regions(regions.clone(), Ok((800, 600))).unwrap();
    assert_eq!(options.capture.regions, regions);
    assert_eq!(options.capture.screen_width, 800);
    assert_eq!(options.min_overall_confidence, 600);
    let failed = CardDetectionOptions::with_regions(regions, Err(CaptureError::NoScreensAvailable));
    assert!(matches!(
        failed,
        Err(OcrPipelineError::Capture(CaptureError::NoScreensAvailable))
    ));
    let debug = options.with_debug_images("/tmp/debug".to_string());
    assert!(debug.save_debug_images);
    assert_eq!(debug.debug_image_path, Some("/tmp/debug".to_string()));
    assert_eq!(debug.capture.screen_height, 600);
}

#[test]
fn pipeline_needs_cards() {
    let result = OcrPipeline::with_default_options(vec![]);
    assert!(matches!(
        result,
        Err(OcrPipelineError::Recognize(RecognizeError::NoCardNamesAvailable))
    ));
    let pipeline = OcrPipeline::with_default_options(corpus()).unwrap();
    assert_eq!(pipeline.available_card_names(), &corpus()[..]);
    assert_eq!(pipeline.get_regions().len(), 4);
    assert_eq!(pipeline.options().min_overall_confidence, 600);
}

#[test]
fn detection_reports_the_fused_confidence() {
    let mut options = CardDetectionOptions::default();
    options.min_overall_confidence = 500;
    let pipeline = OcrPipeline::new(corpus(), options).unwrap();
    let readings: Vec<RegionReading> = vec![Ok(OcrResult::new("Fel".to_string(), 85, 60))];
    let result = pipeline.detect_cards(&readings).unwrap();
    assert!(result.success);
    assert_eq!(result.len(), 1);
    let found = &result.detected_cards[0];
    assert_eq!(found.card_id, "banished_fel");
    assert_eq!(found.card_name, "Fel");
    assert_eq!(found.ocr_confidence, 85);
    assert_eq!(found.match_score, 71);
    // (85 * 0.4 + 71 * 0.6) / 100
    assert_eq!(found.overall_confidence, 766);
    assert!(found.overall_confidence >= 500);
    assert_eq!(found.raw_ocr_text, "Fel");
    assert_eq!(found.region, CaptureRegion::new(350, 200, 300, 60));
    assert_eq!(result.average_confidence, 766);
}

#[test]
fn detection_of_a_text_with_a_letter_too_many() {
    let mut options = CardDetectionOptions::default();
    options.min_overall_confidence = 500;
    let pipeline = OcrPipeline::new(corpus(), options).unwrap();
    let readings: Vec<RegionReading> = vec![Ok(OcrResult::new("Fell".to_string(), 85, 60))];
    let result = pipeline.detect_cards(&readings).unwrap();
    assert!(result.success);
    assert_eq!(result.len(), 1);
    let found = &result.detected_cards[0];
    assert_eq!(found.card_id, "banished_fel");
    assert_eq!(found.card_name, "Fel");
    assert_eq!(found.raw_ocr_text, "Fell");
    assert_eq!(found.ocr_confidence, 85);
    assert!(found.match_score >= 60);
    // (85 * 0.4 + match_score * 0.6) / 100, in thousandths
    assert_eq!(found.overall_confidence, 340 + 6 * found.match_score as i64);
    assert_eq!(found.overall_confidence, 766);
    assert!(found.overall_confidence >= 500);
}

#[test]
fn detection_applies_both_thresholds() {
    let mut options = CardDetectionOptions::default();
    options.min_overall_confidence = 767;
    let pipeline = OcrPipeline::new(corpus(), options).unwrap();
    let readings: Vec<RegionReading> = vec![Ok(OcrResult::new("Fel".to_string(), 85, 60))];
    assert!(pipeline.detect_cards(&readings).unwrap().is_empty());
    let mut options = CardDetectionOptions::default();
    options.min_overall_confidence = 766;
    let pipeline = OcrPipeline::new(corpus(), options).unwrap();
    assert_eq!(pipeline.detect_cards(&readings).unwrap().len(), 1);
    // A reading below the engine's least confidence is not matched at all.
    let unsure: Vec<RegionReading> = vec![Ok(OcrResult::new("Fel".to_string(), 59, 60))];
    let mut options = CardDetectionOptions::default();
    options.min_overall_confidence = 0;
    let pipeline = OcrPipeline::new(corpus(), options).unwrap();
    assert!(pipeline.detect_cards(&unsure).unwrap().is_empty());
}

#[test]
fn failed_regions_are_passed_over() {
    let mut options = CardDetectionOptions::default();
    options.min_overall_confidence = 500;
    let mut pipeline = OcrPipeline::new(corpus(), options).unwrap();
    pipeline.update_regions(vec![
        CaptureRegion::new(0, 0, 10, 10),
        CaptureRegion::new(10, 0, 10, 10),
        CaptureRegion::new(20, 0, 10, 10),
    ]);
    let readings: Vec<RegionReading> = vec![
        Ok(OcrResult::new("Talos".to_string(), 90, 60)),
        Err(OcrPipelineError::Capture(CaptureError::InvalidRegion)),
        Ok(OcrResult::new("Fel".to_string(), 85, 60)),
        Err(OcrPipelineError::Preprocess(PreprocessError::EmptyImage)),
        Err(OcrPipelineError::Recognize(RecognizeError::TesseractError("x".to_string()))),
        Ok(OcrResult::new("Fel".to_string(), 100, 60)),
    ];
    let result = pipeline.detect_cards(&readings).unwrap();
    assert!(result.success);
    assert_eq!(result.len(), 3);
    assert_eq!(result.detected_cards[0].card_id, "banished_talos");
    assert_eq!(result.detected_cards[0].region, CaptureRegion::new(0, 0, 10, 10));
    assert_eq!(result.detected_cards[1].card_id, "banished_fel");
    assert_eq!(result.detected_cards[1].region, CaptureRegion::new(20, 0, 10, 10));
    // A slot beyond the layout has a region without area.
    assert_eq!(result.detected_cards[2].region, CaptureRegion::new(0, 0, 0, 0));
    assert_eq!(pipeline.detect_in_slot(1, &readings[1]), None);
    assert_eq!(
        pipeline.detect_in_slot(2, &readings[2]).unwrap(),
        result.detected_cards[1]
    );
}

#[test]
fn quick_detection_uses_the_defaults() {
    let readings: Vec<RegionReading> = vec![Ok(OcrResult::new("Fel".to_string(), 85, 60))];
    let result = quick_detect(corpus(), &readings).unwrap();
    assert_eq!(result.len(), 1);
    let low: Vec<RegionReading> = vec![Ok(OcrResult::new("Fel".to_string(), 60, 60))];
    // 4 * 60 + 6 * 71 = 666 reaches 600
    assert_eq!(quick_detect(corpus(), &low).unwrap().average_confidence, 666);
    assert!(quick_detect(vec![], &readings).is_err());
}

#[test]
fn calibration_counts_the_captures() {
    let options = CardDetectionOptions::default();
    let captures = vec![
        Ok(RgbaImage::filled(1, 1, [0, 0, 0, 0])),
        Err(CaptureError::RegionOutOfBounds),
        Ok(RgbaImage::filled(2, 1, [0, 0, 0, 0])),
        Ok(RgbaImage::filled(1, 2, [0, 0, 0, 0])),
    ];
    let report = calibrate_regions(&options, Ok((3840, 2160)), &captures).unwrap();
    assert_eq!(report.screen_dimensions, (3840, 2160));
    assert_eq!(report.regions_tested, 4);
    assert_eq!(report.successful_captures, 3);
    assert_eq!(report.failed_captures, 1);
    assert_eq!(report.recommended_regions[0], CaptureRegion::new(700, 400, 600, 120));
    assert_eq!(report.success_rate(), 750);
    assert!(!report.is_successful());
    let none = calibrate_regions(&options, Ok((1920, 1080)), &vec![]).unwrap();
    assert_eq!(none.success_rate(), 0);
    assert!(!none.is_successful());
    let all_failed = calibrate_regions(
        &options,
        Ok((1920, 1080)),
        &vec![Err(CaptureError::NoScreensAvailable)],
    )
    .unwrap();
    assert_eq!(all_failed.successful_captures, 0);
    assert_eq!(all_failed.recommended_regions.len(), 4);
}

#[test]
fn calibration_reports_without_a_display() {
    let mut options = CardDetectionOptions::default();
    options.capture.screen_width = 3840;
    options.capture.screen_height = 2160;
    let report =
        calibrate_regions(&options, Err(CaptureError::NoScreensAvailable), &vec![]).unwrap();
    assert_eq!(report.successful_captures, 0);
    assert_eq!(report.failed_captures, 4);
    assert_eq!(report.regions_tested, 4);
    assert!(!report.is_successful());
    assert_eq!(report.success_rate(), 0);
    assert_eq!(report.screen_dimensions, (3840, 2160));
    assert_eq!(report.recommended_regions.len(), 4);
    assert_eq!(report.recommended_regions[0], CaptureRegion::new(700, 400, 600, 120));
    // Outcomes that are handed over all the same do not count.
    let captures = vec![Ok(RgbaImage::filled(1, 1, [0, 0, 0, 0]))];
    let report = calibrate_regions(
        &options,
        Err(CaptureError::CaptureFailed("no server".to_string())),
        &captures,
    )
    .unwrap();
    assert_eq!(report.successful_captures, 0);
    assert_eq!(report.failed_captures, 4);
    assert!(!report.is_successful());
    options.capture.regions = vec![];
    let none = calibrate_regions(&options, Err(CaptureError::NoScreensAvailable), &vec![]).unwrap();
    assert_eq!((none.regions_tested, none.successful_captures, none.failed_captures), (0, 0, 0));
    assert!(!none.is_successful());
}

#[test]
fn success_rate_is_in_thousandths() {
    let report = CalibrationReport {
        screen_dimensions: (1, 1),
        regions_tested: 3,
        successful_captures: 1,
        failed_captures: 2,
        recommended_regions: vec![],
    };
    assert_eq!(report.success_rate(), 333);
    let huge = CalibrationReport {
        screen_dimensions: (1, 1),
        regions_tested: 0,
        successful_captures: usize::MAX,
        failed_captures: usize::MAX,
        recommended_regions: vec![],
    };
    assert_eq!(huge.success_rate(), 500);
    assert_eq!(huge.clone().failed_captures, usize::MAX);
}
