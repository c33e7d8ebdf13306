use mt2_draft_assistant::names::{build_card_map, normalize_card_name};
use mt2_draft_assistant::raster::GrayImage;
use mt2_draft_assistant::matching::{
    score_name, score_similarity, score_text, select_best, CardMatch, CardMatcher,
    RecognitionPipeline, MAX_TEXT_CHARS,
};
use mt2_draft_assistant::recognize::{OcrEngine, OcrResult, RecognizeConfig, RecognizeError};

fn create_test_card_names() -> Vec<(String, String)> {
    vec![
        ("banished_fel".to_string(), "Fel".to_string()),
        ("banished_talos".to_string(), "Talos".to_string()),
        ("banished_just_cause".to_string(), "Just Cause".to_string()),
        ("banished_cleave".to_string(), "Cleave".to_string()),
        ("pyreborne_lord_fenix".to_string(), "Lord Fenix".to_string()),
        ("underlegion_bolete".to_string(), "Bolete the Guillotine".to_string()),
    ]
}

#[test]
fn test_ocr_result_new() {
    let result = OcrResult::new("Fel".to_string(), 85, 60);
    assert_eq!(result.text, "Fel");
    assert_eq!(result.confidence, 85);
    assert!(result.is_confident);

    let result_low = OcrResult::new("Talos".to_string(), 50, 60);
    assert!(!result_low.is_confident);
}

#[test]
fn test_ocr_result_normalized() {
    let result = OcrResult::new("  FEL  ".to_string(), 85, 60);
    assert_eq!(result.normalized_text(), "fel");
}

#[test]
fn test_card_match_overall_confidence() {
    let conf = CardMatch::calculate_overall_confidence(80, 80) as f64 / 1000.0;
    assert!((conf - 0.8).abs() < 0.001);

    // Weighted: 0.4 * 80 + 0.6 * 60 = 68 / 100 = 0.68
    let conf2 = CardMatch::calculate_overall_confidence(80, 60) as f64 / 1000.0;
    assert!((conf2 - 0.68).abs() < 0.001);
}

#[test]
fn test_card_matcher_new_empty() {
    let result = CardMatcher::new(vec![], 60);
    assert!(matches!(result, Err(RecognizeError::NoCardNamesAvailable)));
}

#[test]
fn test_card_matcher_find_best_match() {
    let cards = create_test_card_names();
    let matcher = CardMatcher::new(cards, 60).unwrap();

    // Exact match
    let result = matcher.find_best_match("Fel");
    assert!(result.is_some());
    let m = result.unwrap();
    assert_eq!(m.card_name, "Fel");
    assert!(m.match_score >= 60);

    // Fuzzy match
    let result = matcher.find_best_match("Fell");
    assert!(result.is_some());
    assert_eq!(result.unwrap().card_name, "Fel");

    // Case insensitive
    let result = matcher.find_best_match("FEL");
    assert!(result.is_some());
    assert_eq!(result.unwrap().card_name, "Fel");

    // No match
    let result = matcher.find_best_match("NonExistentCard123");
    assert!(result.is_none());

    // Empty string
    let result = matcher.find_best_match("");
    assert!(result.is_none());
}

#[test]
fn test_card_matcher_partial_match() {
    let cards = create_test_card_names();
    let matcher = CardMatcher::new(cards, 60).unwrap();

    // Partial match on multi-word name
    let result = matcher.find_best_match("Guillotine");
    assert!(result.is_some());
    assert_eq!(result.unwrap().card_name, "Bolete the Guillotine");

    // Match on "the"
    let result = matcher.find_best_match("Just");
    assert!(result.is_some());
    assert_eq!(result.unwrap().card_name, "Just Cause");
}

#[test]
fn test_card_matcher_find_all_matches() {
    let cards = create_test_card_names();
    let matcher = CardMatcher::new(cards, 60).unwrap();

    let results = matcher.find_all_matches("Fe", 50);
    assert!(!results.is_empty());
    // Should find "Fel" and possibly "Lord Fenix"
}

#[test]
fn test_recognize_config_default() {
    let config = RecognizeConfig::default();
    assert_eq!(config.language, "eng");
    assert_eq!(config.psm, 7);
    assert_eq!(config.oem, 3);
    assert_eq!(config.min_confidence, 60);
    assert!(config.whitelist.is_some());
}

#[test]
fn test_recognize_config_with_language() {
    let config = RecognizeConfig::with_language("fra");
    assert_eq!(config.language, "fra");
}

#[test]
fn test_normalize_card_name() {
    assert_eq!(normalize_card_name("Fel"), "fel");
    assert_eq!(normalize_card_name("Lord Fenix"), "lord fenix");
    assert_eq!(normalize_card_name("  Multiple   Spaces  "), "multiple spaces");
    assert_eq!(normalize_card_name("Card-Name!"), "cardname");
}

#[test]
fn test_build_card_map() {
    let cards = create_test_card_names();
    let map = build_card_map(cards);

    assert_eq!(map.get("banished_fel"), Some(&"Fel".to_string()));
    assert_eq!(map.get("pyreborne_lord_fenix"), Some(&"Lord Fenix".to_string()));
}

#[test]
fn recognize_test_error_display() {
    assert!(RecognizeError::InvalidImage.to_string().contains("Invalid"));
    assert!(RecognizeError::NoCardNamesAvailable.to_string().contains("No card names"));
    assert!(RecognizeError::TesseractError("test".to_string()).to_string().contains("test"));
}

#[test]
fn error_messages_are_exact() {
    assert_eq!(
        RecognizeError::TesseractInitFailed("no data".to_string()).to_string(),
        "Tesseract initialization failed: no data"
    );
    assert_eq!(
        RecognizeError::TesseractError("boom".to_string()).to_string(),
        "Tesseract error: boom"
    );
    assert_eq!(
        RecognizeError::NoCardNamesAvailable.to_string(),
        "No card names available for matching"
    );
    assert_eq!(RecognizeError::InvalidImage.to_string(), "Invalid image for OCR");
    assert_eq!(
        RecognizeError::MatchingFailed("x".to_string()).to_string(),
        "Card matching failed: x"
    );
}

#[test]
fn config_with_whitelist_keeps_the_rest() {
    let config = RecognizeConfig::with_language("deu").with_whitelist("abc");
    assert_eq!(config.whitelist, Some("abc".to_string()));
    assert_eq!(config.language, "deu");
    assert_eq!(config.psm, 7);
    assert_eq!(config.oem, 3);
    assert_eq!(config.min_match_score, 60);
    assert_eq!(config.tesseract_data_path, None);
}

#[test]
fn reading_is_trimmed_and_compared_with_the_minimum() {
    let at_minimum = OcrResult::new("\t Lord Fenix \n".to_string(), 60, 60);
    assert_eq!(at_minimum.text, "Lord Fenix");
    assert!(at_minimum.is_confident);
    let below = OcrResult::new("x".to_string(), 59, 60);
    assert!(!below.is_confident);
    let blank = OcrResult::new("   ".to_string(), 90, 60);
    assert_eq!(blank.text, "");
}

#[test]
fn fusion_weighs_four_to_six() {
    assert_eq!(CardMatch::calculate_overall_confidence(80, 60), 680);
    assert_eq!(CardMatch::calculate_overall_confidence(100, 100), 1000);
    assert_eq!(CardMatch::calculate_overall_confidence(0, 0), 0);
    assert_eq!(CardMatch::calculate_overall_confidence(85, 71), 766);
}

#[test]
fn scores_come_from_the_order_of_the_characters() {
    // The pattern's characters have to occur in the choice, in order.
    assert_eq!(score_text("fel", "fel"), Some(71));
    assert_eq!(score_text("fel", "fell"), None);
    assert_eq!(score_text("fell", "fel"), Some(71));
    assert_eq!(score_text("abc", "abx"), None);
    // A second call gives the same score.
    assert_eq!(score_text("fel", "fel"), Some(71));
}

#[test]
fn overlong_text_is_not_scored() {
    assert_eq!(MAX_TEXT_CHARS, 1 << 24);
    let too_long = "a".repeat(MAX_TEXT_CHARS + 1);
    assert_eq!(score_text(&too_long, "a"), None);
    assert_eq!(score_text("a", &too_long), None);
    assert_eq!(score_similarity(&too_long, "a"), None);
    let long = "a".repeat(100_000);
    assert!(score_text(&long, "a").is_some());
    assert!(score_similarity("a", &long).is_some());
}

#[test]
fn texts_fit_each_other_in_either_order() {
    // One letter too many in what was read, and one letter missing.
    assert_eq!(score_similarity("fel", "fell"), Some(71));
    assert_eq!(score_similarity("fell", "fel"), Some(71));
    assert_eq!(score_similarity("fel", "fel"), Some(71));
    assert_eq!(score_similarity("fel", "fe"), score_text("fel", "fe"));
    assert_eq!(score_similarity("fe", "fel"), score_text("fel", "fe"));
    assert_eq!(score_similarity("abc", "abx"), None);
    assert_eq!(score_similarity("talos", "fel"), None);
}

#[test]
fn text_with_a_letter_too_many_finds_its_card() {
    let matcher = CardMatcher::new(create_test_card_names(), 60).unwrap();
    let found = matcher.find_best_match("Fell").unwrap();
    assert_eq!(found.card_id, "banished_fel");
    assert_eq!(found.card_name, "Fel");
    assert_eq!(found.ocr_text, "Fell");
    assert_eq!(found.match_score, 71);
    let found = matcher.find_best_match("Lord Fenixx").unwrap();
    assert_eq!(found.card_id, "pyreborne_lord_fenix");
    assert!(matcher.find_best_match("NonExistentCard123").is_none());
    let listed = matcher.find_all_matches("Fell", 60);
    assert_eq!(listed.len(), 1);
    assert_eq!(listed[0].card_name, "Fel");
    assert_eq!(listed[0].overall_confidence, 710);
}

#[test]
fn name_score_tries_words_for_short_patterns() {
    let whole = score_text("bolete the guillotine", "the");
    let word = score_text("the", "the");
    assert!(word > whole);
    assert_eq!(score_name("Bolete the Guillotine", "the", true), word);
    assert_eq!(score_name("Bolete the Guillotine", "the", false), whole);
}

#[test]
fn select_best_takes_the_first_of_the_highest() {
    assert_eq!(select_best(&vec![Some(70), None, Some(90), Some(90)], 60), Some(2));
    assert_eq!(select_best(&vec![Some(60), Some(10), None], 60), None);
    assert_eq!(select_best(&vec![], 60), None);
    assert_eq!(select_best(&vec![Some(61)], 60), Some(0));
}

#[test]
fn best_match_of_fel_at_threshold_sixty() {
    let matcher = CardMatcher::new(
        vec![
            ("banished_fel".to_string(), "Fel".to_string()),
            ("banished_talos".to_string(), "Talos".to_string()),
        ],
        60,
    )
    .unwrap();
    let found = matcher.find_best_match("Fel").unwrap();
    assert_eq!(found.card_id, "banished_fel");
    assert_eq!(found.card_name, "Fel");
    assert_eq!(found.ocr_text, "Fel");
    assert_eq!(found.match_score, 71);
    assert_eq!(found.ocr_confidence, 0);
    assert_eq!(found.overall_confidence, 0);
    assert!(matcher.find_best_match("").is_none());
    assert!(matcher.find_best_match("   ").is_none());
    assert!(matcher.find_best_match("zzz").is_none());
    // A threshold that the score does not exceed leaves no match.
    let strict = CardMatcher::new(vec![("banished_fel".to_string(), "Fel".to_string())], 71).unwrap();
    assert!(strict.find_best_match("Fel").is_none());
}

#[test]
fn match_score_is_capped() {
    let matcher = CardMatcher::new(create_test_card_names(), 60).unwrap();
    let found = matcher.find_best_match("Guillotine").unwrap();
    assert_eq!(found.match_score, 100);
}

#[test]
fn ties_go_to_the_first_card() {
    let matcher = CardMatcher::new(
        vec![
            ("first".to_string(), "Fel".to_string()),
            ("second".to_string(), "Fel".to_string()),
        ],
        60,
    )
    .unwrap();
    assert_eq!(matcher.find_best_match("fel").unwrap().card_id, "first");
}

#[test]
fn match_results_are_fused_and_ordered() {
    let matcher = CardMatcher::new(create_test_card_names(), 60).unwrap();
    let results = matcher.match_results(vec![
        OcrResult::new("Fel".to_string(), 70, 60),
        OcrResult::new("nothing like a card".to_string(), 99, 60),
        OcrResult::new("Just".to_string(), 90, 60),
    ]);
    assert_eq!(results.len(), 2);
    assert_eq!(results[0].card_name, "Just Cause");
    assert_eq!(results[0].ocr_confidence, 90);
    assert_eq!(results[0].overall_confidence, 4 * 90 + 6 * 91);
    assert_eq!(results[1].card_name, "Fel");
    assert_eq!(results[1].overall_confidence, 4 * 70 + 6 * 71);
}

#[test]
fn all_matches_are_listed_by_score() {
    let matcher = CardMatcher::new(create_test_card_names(), 60).unwrap();
    let results = matcher.find_all_matches("Fe", 40);
    assert_eq!(results.len(), 2);
    assert_eq!(results[0].card_name, "Fel");
    assert_eq!(results[0].match_score, 51);
    assert_eq!(results[0].overall_confidence, 510);
    assert_eq!(results[1].card_name, "Lord Fenix");
    assert_eq!(results[1].match_score, 43);
    assert!(matcher.find_all_matches("", 0).is_empty());
    assert!(matcher.find_all_matches("Fe", 52).is_empty());
}

#[test]
fn engine_refuses_an_image_without_pixels() {
    let engine = OcrEngine::new().unwrap();
    let empty = GrayImage::new(0, 5);
    let result = engine.recognize(&empty, Ok(("Fel".to_string(), 90)));
    assert!(matches!(result, Err(RecognizeError::InvalidImage)));
    let image = GrayImage::new(4, 4);
    let read = engine.recognize(&image, Ok(("  Fel\n".to_string(), 90))).unwrap();
    assert_eq!(read.text, "Fel");
    assert!(read.is_confident);
    let failed = engine.recognize(&image, Err(RecognizeError::TesseractError("x".to_string())));
    assert!(matches!(failed, Err(RecognizeError::TesseractError(_))));
}

#[test]
fn engine_setup_lists_the_variables() {
    let engine = OcrEngine::new().unwrap();
    let setup = engine.init_tesseract();
    assert_eq!(setup.data_path, None);
    assert_eq!(setup.language, "eng");
    assert_eq!(setup.variables.len(), 3);
    assert_eq!(setup.variables[0], ("tessedit_pageseg_mode".to_string(), "7".to_string()));
    assert_eq!(setup.variables[1], ("oem_mode".to_string(), "3".to_string()));
    assert_eq!(setup.variables[2].0, "tessedit_char_whitelist");
}

#[test]
fn engine_reads_several_images() {
    let engine = OcrEngine::with_config(RecognizeConfig::default()).unwrap();
    let images = vec![GrayImage::new(2, 2), GrayImage::new(0, 0)];
    let out = engine.recognize_multiple(
        &images,
        vec![Ok(("A".to_string(), 10)), Ok(("B".to_string(), 99))],
    );
    assert_eq!(out.len(), 2);
    assert!(!out[0].as_ref().unwrap().is_confident);
    assert!(matches!(out[1], Err(RecognizeError::InvalidImage)));
}

#[test]
fn pipeline_passes_over_unsure_readings() {
    let pipeline = RecognitionPipeline::new(create_test_card_names()).unwrap();
    let unsure = OcrResult::new("Fel".to_string(), 59, 60);
    assert_eq!(pipeline.process(Ok(unsure)).unwrap(), None);
    let sure = OcrResult::new("Fel".to_string(), 85, 60);
    let found = pipeline.process(Ok(sure)).unwrap().unwrap();
    assert_eq!(found.card_id, "banished_fel");
    assert_eq!(found.ocr_confidence, 85);
    assert_eq!(found.overall_confidence, 766);
    assert!(matches!(
        pipeline.process(Err(RecognizeError::InvalidImage)),
        Err(RecognizeError::InvalidImage)
    ));
    assert!(matches!(
        RecognitionPipeline::new(vec![]),
        Err(RecognizeError::NoCardNamesAvailable)
    ));
}

#[test]
fn pipeline_processes_several_readings() {
    let pipeline = RecognitionPipeline::new(create_test_card_names()).unwrap();
    let found = pipeline.process_multiple(vec![
        Ok(OcrResult::new("Fel".to_string(), 61, 60)),
        Err(RecognizeError::InvalidImage),
        Ok(OcrResult::new("Talos".to_string(), 10, 60)),
        Ok(OcrResult::new("Cleave".to_string(), 95, 60)),
    ]);
    assert_eq!(found.len(), 2);
    assert_eq!(found[0].card_name, "Cleave");
    assert_eq!(found[1].card_name, "Fel");
}

#[test]
fn later_card_with_the_same_identifier_stays() {
    let map = build_card_map(vec![
        ("a".to_string(), "First".to_string()),
        ("a".to_string(), "Second".to_string()),
    ]);
    assert_eq!(map.len(), 1);
    assert_eq!(map.get("a"), Some(&"Second".to_string()));
    assert_eq!(map.get("b"), None);
}

fn is_listed_white_space(c: char) -> bool {
    matches!(
        c as u32,
        0x09..=0x0D
            | 0x20
            | 0x85
            | 0xA0
            | 0x1680
            | 0x2000..=0x200A
            | 0x2028
            | 0x2029
            | 0x202F
            | 0x205F
            | 0x3000
    )
}

#[test]
fn white_space_is_what_trimming_takes_away() {
    let mut count = 0;
    for code in 0..=0x10FFFFu32 {
        if let Some(c) = char::from_u32(code) {
            let taken_away = OcrResult::new(c.to_string(), 0, 0).text.is_empty();
            assert_eq!(taken_away, is_listed_white_space(c), "U+{:04X}", code);
            if taken_away {
                count += 1;
            }
        }
    }
    assert_eq!(count, 25);
}

#[test]
fn white_space_separates_the_words_of_a_name() {
    for code in [0x09u32, 0x0D, 0x20, 0x85, 0xA0, 0x1680, 0x2000, 0x200A, 0x2028, 0x202F, 0x3000] {
        let c = char::from_u32(code).unwrap();
        assert_eq!(normalize_card_name(&format!("{}Lord{}{}Fenix{}", c, c, c, c)), "lord fenix");
    }
    for code in [0x08u32, 0x0E, 0x1F, 0x200B, 0x2060, 0xFEFF] {
        let c = char::from_u32(code).unwrap();
        assert_eq!(normalize_card_name(&format!("Lord{}Fenix", c)), "lordfenix");
    }
}
