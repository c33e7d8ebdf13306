//! What the command layer asks of the pipeline: one detection, a
//! calibration, reading and replacing the regions, tuning the settings, and
//! the diagnosis of a single region; each with its answer in plain values.

use vstd::prelude::*;
use vstd::string::*;
use crate::capture::{
    default_layout, get_default_card_regions, CaptureError, CaptureRegion,
};
use crate::pipeline::{
    calibrate_regions, calibration_report, card_views, detection_result, pipeline_of,
    success_share, CalibrationReport, CalibrationReportView, CardDetectionOptions,
    CardDetectionResult, DetectedCard, DetectedCardView, OcrPipeline, RegionReading,
};
use crate::raster::RgbaImage;
use crate::matching::{
    best_position, capped, name_pairs, score_similarity, select_best, similarity,
};
use crate::recognize::{opt_text, OcrResult};
use crate::text::{decimal, decimal_string, lowercase, to_lowercase};

verus! {

/// A capture region as it is handed to the command layer.
#[derive(Debug, Clone, Copy, PartialEq, Eq, Structural)]
pub struct CaptureRegionInfo {
    pub x: i32,
    pub y: i32,
    pub width: u32,
    pub height: u32,
}

/// A region as it is handed to the command layer.
pub open spec fn region_info(region: CaptureRegion) -> CaptureRegionInfo {
    CaptureRegionInfo { x: region.x, y: region.y, width: region.width, height: region.height }
}

/// The region that the command layer handed over.
pub open spec fn info_region(info: CaptureRegionInfo) -> CaptureRegion {
    CaptureRegion { x: info.x, y: info.y, width: info.width, height: info.height }
}

impl From<CaptureRegion> for CaptureRegionInfo {
    fn from(region: CaptureRegion) -> (r: Self) {
        CaptureRegionInfo { x: region.x, y: region.y, width: region.width, height: region.height }
    }
}

impl vstd::std_specs::convert::FromSpecImpl<CaptureRegion> for CaptureRegionInfo {
    open spec fn obeys_from_spec() -> bool {
        true
    }

    open spec fn from_spec(region: CaptureRegion) -> Self {
        region_info(region)
    }
}

/// The regions of a list as they are handed to the command layer.
pub open spec fn region_infos(regions: Seq<CaptureRegion>) -> Seq<CaptureRegionInfo> {
    Seq::new(regions.len(), |i: int| region_info(regions[i]))
}

/// The regions that the command layer handed over.
pub open spec fn info_regions(infos: Seq<CaptureRegionInfo>) -> Seq<CaptureRegion> {
    Seq::new(infos.len(), |i: int| info_region(infos[i]))
}

/// The regions of a list as they are handed to the command layer.
pub fn to_region_infos(regions: &[CaptureRegion]) -> (r: Vec<CaptureRegionInfo>)
    ensures
        r@ == region_infos(regions@),
{
    let mut out: Vec<CaptureRegionInfo> = Vec::new();
    let mut i: usize = 0;
    while i < regions.len()
        invariant
            i <= regions@.len(),
            out@.len() == i,
            forall|j: int| 0 <= j < i ==> out@[j] == region_info(regions@[j]),
        decreases regions.len() - i,
    {
        out.push(CaptureRegionInfo::from(regions[i]));
        i += 1;
    }
    assert(out@ =~= region_infos(regions@));
    out
}

/// What the details of a detected card hold.
pub struct DetectedCardInfoView {
    pub card_id: Seq<char>,
    pub card_name: Seq<char>,
    pub confidence: int,
    pub ocr_confidence: int,
    pub match_score: int,
    pub raw_text: Seq<char>,
    pub region: CaptureRegionInfo,
}

/// The details of a detected card.
#[derive(Debug, PartialEq)]
pub struct DetectedCardInfo {
    pub card_id: String,
    pub card_name: String,
    /// The confidence in the detection, in thousandths.
    pub confidence: i64,
    pub ocr_confidence: i32,
    pub match_score: i32,
    pub raw_text: String,
    pub region: CaptureRegionInfo,
}

impl View for DetectedCardInfo {
    type V = DetectedCardInfoView;

    open spec fn view(&self) -> DetectedCardInfoView {
        DetectedCardInfoView {
            card_id: self.card_id@,
            card_name: self.card_name@,
            confidence: self.confidence as int,
            ocr_confidence: self.ocr_confidence as int,
            match_score: self.match_score as int,
            raw_text: self.raw_text@,
            region: self.region,
        }
    }
}

/// The details of a detected card.
pub open spec fn card_info(card: DetectedCardView) -> DetectedCardInfoView {
    DetectedCardInfoView {
        card_id: card.card_id,
        card_name: card.card_name,
        confidence: card.overall_confidence,
        ocr_confidence: card.ocr_confidence,
        match_score: card.match_score,
        raw_text: card.raw_ocr_text,
        region: region_info(card.region),
    }
}

impl DetectedCardInfo {
    /// The details of a detected card.
    pub fn from_card(card: DetectedCard) -> (r: Self)
        ensures
            r@ == card_info(card@),
    {
        DetectedCardInfo::from(card)
    }
}

impl From<DetectedCard> for DetectedCardInfo {
    fn from(card: DetectedCard) -> (r: Self) {
        DetectedCardInfo {
            card_id: card.card_id,
            card_name: card.card_name,
            confidence: card.overall_confidence,
            ocr_confidence: card.ocr_confidence,
            match_score: card.match_score,
            raw_text: card.raw_ocr_text,
            region: CaptureRegionInfo::from(card.region),
        }
    }
}

impl vstd::std_specs::convert::FromSpecImpl<DetectedCard> for DetectedCardInfo {
    open spec fn obeys_from_spec() -> bool {
        true
    }

    open spec fn from_spec(card: DetectedCard) -> Self {
        DetectedCardInfo {
            card_id: card.card_id,
            card_name: card.card_name,
            confidence: card.overall_confidence,
            ocr_confidence: card.ocr_confidence,
            match_score: card.match_score,
            raw_text: card.raw_ocr_text,
            region: region_info(card.region),
        }
    }
}

/// What the answer to a detection holds.
pub struct CardDetectionResponseView {
    pub detected_cards: Seq<Seq<char>>,
    pub confidence: int,
    pub success: bool,
    pub error: Option<Seq<char>>,
    pub details: Seq<DetectedCardInfoView>,
}

/// The answer to a detection.
#[derive(Debug)]
pub struct CardDetectionResponse {
    /// The names of the detected cards, in the order of their regions.
    pub detected_cards: Vec<String>,
    /// The mean of the confidences in them, in thousandths.
    pub confidence: i64,
    pub success: bool,
    pub error: Option<String>,
    pub details: Vec<DetectedCardInfo>,
}

impl View for CardDetectionResponse {
    type V = CardDetectionResponseView;

    open spec fn view(&self) -> CardDetectionResponseView {
        CardDetectionResponseView {
            detected_cards: Seq::new(
                self.detected_cards@.len(),
                |i: int| self.detected_cards@[i]@,
            ),
            confidence: self.confidence as int,
            success: self.success,
            error: opt_text(self.error),
            details: Seq::new(self.details@.len(), |i: int| self.details@[i]@),
        }
    }
}

/// The answer for a detection that did not run.
pub open spec fn failure_response(error: Seq<char>) -> CardDetectionResponseView {
    CardDetectionResponseView {
        detected_cards: Seq::empty(),
        confidence: 0,
        success: false,
        error: Some(error),
        details: Seq::empty(),
    }
}

/// The answer for a detection that ran.
pub open spec fn success_response(cards: Seq<DetectedCardView>) -> CardDetectionResponseView {
    CardDetectionResponseView {
        detected_cards: Seq::new(cards.len(), |i: int| cards[i].card_name),
        confidence: detection_result(cards).average_confidence,
        success: true,
        error: None,
        details: Seq::new(cards.len(), |i: int| card_info(cards[i])),
    }
}

/// The answer for a detection that did not run.
fn respond_failure(error: String) -> (r: CardDetectionResponse)
    ensures
        r@ == failure_response(error@),
{
    let r = CardDetectionResponse {
        detected_cards: Vec::new(),
        confidence: 0,
        success: false,
        error: Some(error),
        details: Vec::new(),
    };
    assert(r@.detected_cards =~= Seq::<Seq<char>>::empty());
    assert(r@.details =~= Seq::<DetectedCardInfoView>::empty());
    r
}

/// The answer for the result of a detection that ran.
fn respond_success(result: CardDetectionResult) -> (r: CardDetectionResponse)
    requires
        result.success,
        result.error_message is None,
    ensures
        r@.detected_cards == Seq::new(
            result.detected_cards@.len(),
            |i: int| result.detected_cards@[i].card_name@,
        ),
        r@.confidence == result.average_confidence,
        r@.success,
        r@.error is None,
        r@.details == Seq::new(
            result.detected_cards@.len(),
            |i: int| card_info(result.detected_cards@[i]@),
        ),
{
    let confidence = result.average_confidence;
    let mut names: Vec<String> = Vec::new();
    let mut details: Vec<DetectedCardInfo> = Vec::new();
    let ghost cards = result.detected_cards@;
    for card in it: result.detected_cards
        invariant
            it.seq() == cards,
            names@.len() == it.index(),
            details@.len() == it.index(),
            forall|j: int| 0 <= j < it.index() ==> names@[j]@ == cards[j].card_name@,
            forall|j: int| 0 <= j < it.index() ==> details@[j]@ == card_info(cards[j]@),
    {
        names.push(card.card_name.clone());
        details.push(DetectedCardInfo::from_card(card));
    }
    let r = CardDetectionResponse {
        detected_cards: names,
        confidence,
        success: true,
        error: None,
        details,
    };
    assert(r@.detected_cards =~= Seq::new(cards.len(), |i: int| cards[i].card_name@));
    assert(r@.details =~= Seq::new(cards.len(), |i: int| card_info(cards[i]@)));
    r
}

/// The message for a detection without cards to match against.
pub open spec fn no_cards_message() -> Seq<char> {
    "No cards found in database"@
}

/// One detection: the cards on the screen, from the known cards, the
/// settings, and what became of each region. Without known cards the answer
/// is a failure that says so.
pub fn detect_cards_on_screen(
    card_names: Vec<(String, String)>,
    options: CardDetectionOptions,
    readings: &Vec<RegionReading>,
) -> (r: CardDetectionResponse)
    ensures
        card_names@.len() == 0 ==> r@ == failure_response(no_cards_message()),
        card_names@.len() > 0 ==> r@ == success_response(
            pipeline_of(card_names@, options@).detections(readings@),
        ),
{
    if card_names.len() == 0 {
        return respond_failure(String::from_str("No cards found in database"));
    }
    let pipeline = match OcrPipeline::new(card_names, options) {
        Ok(pipeline) => pipeline,
        Err(e) => {
            return respond_failure(
                String::from_str("Failed to initialize OCR: ").concat(e.to_string().as_str()),
            );
        },
    };
    match pipeline.detect_cards(readings) {
        Ok(result) => {
            let ghost cards = card_views(result.detected_cards@);
            let r = respond_success(result);
            assert(r@.detected_cards =~= success_response(cards).detected_cards);
            assert(r@.details =~= success_response(cards).details);
            r
        },
        Err(e) => respond_failure(
            String::from_str("Detection failed: ").concat(e.to_string().as_str()),
        ),
    }
}

/// What the answer to a calibration holds.
pub struct CalibrationResultView {
    pub success: bool,
    pub message: Seq<char>,
    pub screen_width: u32,
    pub screen_height: u32,
    pub recommended_regions: Seq<CaptureRegionInfo>,
    pub success_rate: int,
}

/// The answer to a calibration.
#[derive(Debug)]
pub struct CalibrationResult {
    pub success: bool,
    pub message: String,
    pub screen_width: u32,
    pub screen_height: u32,
    pub recommended_regions: Vec<CaptureRegionInfo>,
    /// The share of regions that could be captured, in thousandths.
    pub success_rate: u32,
}

impl View for CalibrationResult {
    type V = CalibrationResultView;

    open spec fn view(&self) -> CalibrationResultView {
        CalibrationResultView {
            success: self.success,
            message: self.message@,
            screen_width: self.screen_width,
            screen_height: self.screen_height,
            recommended_regions: self.recommended_regions@,
            success_rate: self.success_rate as int,
        }
    }
}

/// The message of a calibration in which `successes` of `tested` regions
/// could be captured and `failures` could not.
pub open spec fn calibration_message(successes: int, failures: int, tested: int) -> Seq<char> {
    if failures == 0 && successes > 0 {
        "Calibration successful! All regions can be captured."@
    } else {
        "Calibration partial. "@ + decimal(successes) + "/"@ + decimal(tested)
            + " regions captured successfully."@
    }
}

/// The answer for a report.
pub open spec fn calibration_answer(report: CalibrationReportView) -> CalibrationResultView {
    CalibrationResultView {
        success: report.failed_captures == 0 && report.successful_captures > 0,
        message: calibration_message(
            report.successful_captures as int,
            report.failed_captures as int,
            report.regions_tested as int,
        ),
        screen_width: report.screen_dimensions.0,
        screen_height: report.screen_dimensions.1,
        recommended_regions: region_infos(report.recommended_regions),
        success_rate: success_share(
            report.successful_captures as int,
            report.failed_captures as int,
        ),
    }
}

impl CalibrationResult {
    /// The answer for a report.
    pub fn from_report(report: CalibrationReport) -> (r: Self)
        ensures
            r@ == calibration_answer(report@),
    {
        let recommended_regions = to_region_infos(report.recommended_regions.as_slice());
        let message = if report.is_successful() {
            String::from_str("Calibration successful! All regions can be captured.")
        } else {
            let mut text = String::from_str("Calibration partial. ");
            text.append(decimal_string(report.successful_captures as i128).as_str());
            text.append("/");
            text.append(decimal_string(report.regions_tested as i128).as_str());
            text.append(" regions captured successfully.");
            text
        };
        CalibrationResult {
            success: report.is_successful(),
            message,
            screen_width: report.screen_dimensions.0,
            screen_height: report.screen_dimensions.1,
            recommended_regions,
            success_rate: report.success_rate(),
        }
    }
}

impl From<CalibrationReport> for CalibrationResult {
    fn from(report: CalibrationReport) -> (r: Self) {
        CalibrationResult::from_report(report)
    }
}

impl vstd::std_specs::convert::FromSpecImpl<CalibrationReport> for CalibrationResult {
    /// The answer holds a message that is made anew: what it is, is stated of
    /// `from_report`.
    open spec fn obeys_from_spec() -> bool {
        false
    }

    open spec fn from_spec(report: CalibrationReport) -> Self {
        arbitrary()
    }
}

/// A calibration: what `calibrate_regions` reports, as an answer. There is
/// always one, also where the display answered nothing.
pub fn calibrate_ocr_regions(
    options: &CardDetectionOptions,
    dimensions: Result<(u32, u32), CaptureError>,
    captures: &Vec<Result<RgbaImage, CaptureError>>,
) -> (r: CalibrationResult)
    ensures
        r@ == calibration_answer(calibration_report(options@, dimensions, captures@)),
{
    match calibrate_regions(options, dimensions, captures) {
        Ok(report) => CalibrationResult::from_report(report),
        Err(e) => CalibrationResult {
            success: false,
            message: String::from_str("Calibration failed: ").concat(e.to_string().as_str()),
            screen_width: 0,
            screen_height: 0,
            recommended_regions: Vec::new(),
            success_rate: 0,
        },
    }
}

/// The regions that the command layer asks for.
#[derive(Debug)]
pub struct SetRegionsRequest {
    pub regions: Vec<CaptureRegionInfo>,
}

/// The answer to a change of the regions.
#[derive(Debug)]
pub struct SetRegionsResult {
    pub success: bool,
    pub message: String,
    pub regions_set: usize,
}

/// Replaces the regions of the settings by those of the request.
pub fn set_capture_regions(request: SetRegionsRequest, options: &mut CardDetectionOptions) -> (r:
    SetRegionsResult)
    ensures
        final(options).capture.regions@ == info_regions(request.regions@),
        final(options).capture.screen_width == old(options).capture.screen_width,
        final(options).capture.screen_height == old(options).capture.screen_height,
        final(options).preprocess == old(options).preprocess,
        final(options).recognize == old(options).recognize,
        final(options).save_debug_images == old(options).save_debug_images,
        final(options).debug_image_path == old(options).debug_image_path,
        final(options).min_overall_confidence == old(options).min_overall_confidence,
        r.success,
        r.regions_set == request.regions@.len(),
        r.message@ == "Set "@ + decimal(request.regions@.len() as int) + " capture regions"@,
{
    let mut regions: Vec<CaptureRegion> = Vec::new();
    let mut i: usize = 0;
    while i < request.regions.len()
        invariant
            i <= request.regions@.len(),
            regions@.len() == i,
            forall|j: int| 0 <= j < i ==> regions@[j] == info_region(request.regions@[j]),
        decreases request.regions.len() - i,
    {
        let info = request.regions[i];
        regions.push(CaptureRegion::new(info.x, info.y, info.width, info.height));
        i += 1;
    }
    assert(regions@ =~= info_regions(request.regions@));
    let count = regions.len();
    options.capture.update_regions(regions);
    let mut message = String::from_str("Set ");
    message.append(decimal_string(count as i128).as_str());
    message.append(" capture regions");
    SetRegionsResult { success: true, message, regions_set: count }
}

/// The regions of the settings.
pub fn get_capture_regions(options: &CardDetectionOptions) -> (r: Vec<CaptureRegionInfo>)
    ensures
        r@ == region_infos(options.capture.regions@),
{
    to_region_infos(options.capture.get_regions())
}

/// Puts the default layout for the screen in place of the regions, where the
/// size of the screen could be told; else the settings stay and the answer
/// says why.
pub fn reset_capture_regions(
    options: &mut CardDetectionOptions,
    dimensions: Result<(u32, u32), CaptureError>,
) -> (r: SetRegionsResult)
    ensures
        final(options).capture.screen_width == old(options).capture.screen_width,
        final(options).capture.screen_height == old(options).capture.screen_height,
        final(options).preprocess == old(options).preprocess,
        final(options).recognize == old(options).recognize,
        final(options).save_debug_images == old(options).save_debug_images,
        final(options).debug_image_path == old(options).debug_image_path,
        final(options).min_overall_confidence == old(options).min_overall_confidence,
        match dimensions {
            Ok((width, height)) => final(options).capture.regions@ == default_layout(width, height)
                && r.success && r.regions_set == 4 && r.message@ == "Reset to "@ + decimal(4)
                + " default regions for "@ + decimal(width as int) + "x"@ + decimal(
                height as int,
            ),
            Err(e) => final(options).capture.regions == old(options).capture.regions && !r.success
                && r.regions_set == 0 && r.message@ == "Failed to get screen dimensions: "@
                + e@.message(),
        },
{
    match dimensions {
        Ok((width, height)) => {
            let default_regions = get_default_card_regions(width, height);
            let count = default_regions.len();
            options.capture.update_regions(default_regions);
            let mut message = String::from_str("Reset to ");
            message.append(decimal_string(count as i128).as_str());
            message.append(" default regions for ");
            message.append(decimal_string(width as i128).as_str());
            message.append("x");
            message.append(decimal_string(height as i128).as_str());
            SetRegionsResult { success: true, message, regions_set: count }
        },
        Err(e) => {
            let message = String::from_str("Failed to get screen dimensions: ").concat(
                e.to_string().as_str(),
            );
            SetRegionsResult { success: false, message, regions_set: 0 }
        },
    }
}

/// A confidence in thousandths, kept between nothing and certainty.
pub open spec fn clamped_confidence(confidence: int) -> int {
    if confidence < 0 {
        0
    } else if confidence > 1000 {
        1000
    } else {
        confidence
    }
}

/// Tunes the settings: the least confidence in a detection, in thousandths
/// and kept between 0 and 1000, and whether prepared images are kept; each
/// only where it is given.
pub fn update_ocr_config(
    options: &mut CardDetectionOptions,
    min_confidence: Option<i64>,
    save_debug: Option<bool>,
) -> (r: bool)
    ensures
        r,
        final(options).min_overall_confidence == match min_confidence {
            Some(confidence) => clamped_confidence(confidence as int),
            None => old(options).min_overall_confidence as int,
        },
        final(options).save_debug_images == match save_debug {
            Some(debug) => debug,
            None => old(options).save_debug_images,
        },
        final(options).capture == old(options).capture,
        final(options).preprocess == old(options).preprocess,
        final(options).recognize == old(options).recognize,
        final(options).debug_image_path == old(options).debug_image_path,
{
    match min_confidence {
        Some(confidence) => {
            options.min_overall_confidence = if confidence < 0 {
                0
            } else if confidence > 1000 {
                1000
            } else {
                confidence
            };
        },
        None => {},
    }
    match save_debug {
        Some(debug) => {
            options.save_debug_images = debug;
        },
        None => {},
    }
    true
}

/// The score of the whole name of each card for a text in lower case.
pub open spec fn whole_name_scores(names: Seq<(Seq<char>, Seq<char>)>, text: Seq<char>) -> Seq<
    Option<i64>,
> {
    Seq::new(names.len(), |i: int| similarity(lowercase(names[i].1), lowercase(text)))
}

/// The message of a diagnosis in which no card fits.
pub open spec fn no_match_message() -> Seq<char> {
    "No matching card found"@
}

/// The diagnosis of one region: the card whose whole name fits the text read
/// there best, the first of the best and whatever its score; or that none
/// fits at all; or the failure that kept the region from being read.
pub fn test_ocr_region(
    region: CaptureRegion,
    card_names: &Vec<(String, String)>,
    reading: Result<OcrResult, String>,
) -> (r: Result<DetectedCardInfo, String>)
    ensures
        match reading {
            Err(message) => r is Err && r->Err_0 == message,
            Ok(read) => match best_position(
                whole_name_scores(name_pairs(card_names@), read.text@),
                i32::MIN - 1,
            ) {
                None => r is Err && r->Err_0@ == no_match_message(),
                Some(k) => r is Ok && r->Ok_0@ == (DetectedCardInfoView {
                    card_id: card_names@[k].0@,
                    card_name: card_names@[k].1@,
                    confidence: 10 * whole_name_scores(
                        name_pairs(card_names@),
                        read.text@,
                    )[k]->0,
                    ocr_confidence: read.confidence as int,
                    match_score: capped(
                        whole_name_scores(name_pairs(card_names@), read.text@)[k]->0 as int,
                    ),
                    raw_text: read.text@,
                    region: region_info(region),
                }),
            },
        },
{
    let read = match reading {
        Ok(read) => read,
        Err(message) => {
            return Err(message);
        },
    };
    let text = to_lowercase(read.text.as_str());
    let mut scores: Vec<Option<i64>> = Vec::new();
    let ghost wanted = whole_name_scores(name_pairs(card_names@), read.text@);
    let mut i: usize = 0;
    while i < card_names.len()
        invariant
            i <= card_names@.len(),
            text@ == lowercase(read.text@),
            wanted == whole_name_scores(name_pairs(card_names@), read.text@),
            scores@.len() == i,
            forall|j: int| 0 <= j < i ==> scores@[j] == wanted[j],
            forall|j: int|
                0 <= j < i && scores@[j] is Some ==> i32::MIN <= (#[trigger] scores@[j])->0
                    <= i32::MAX,
        decreases card_names.len() - i,
    {
        let name = to_lowercase(card_names[i].1.as_str());
        scores.push(score_similarity(name.as_str(), text.as_str()));
        i += 1;
    }
    assert(scores@ =~= wanted);
    match select_best(&scores, i32::MIN as i64 - 1) {
        Some(k) => {
            let score: i64 = scores[k].unwrap();
            Ok(
                DetectedCardInfo {
                    card_id: card_names[k].0.clone(),
                    card_name: card_names[k].1.clone(),
                    confidence: 10 * score,
                    ocr_confidence: read.confidence,
                    match_score: if score > 100 {
                        100
                    } else {
                        score as i32
                    },
                    raw_text: read.text,
                    region: CaptureRegionInfo::from(region),
                },
            )
        },
        None => Err(String::from_str("No matching card found")),
    }
}

} // verus!
