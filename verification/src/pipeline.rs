//! From the readings of the captured regions to the cards that were detected,
//! and the calibration of the regions.

use vstd::prelude::*;
use vstd::std_specs::convert::FromSpecImpl;
use vstd::string::*;
use crate::capture::{
    default_layout, get_default_card_regions, CaptureConfig, CaptureError, CaptureRegion,
    REFERENCE_HEIGHT, REFERENCE_WIDTH,
};
use crate::preprocess::{default_preprocess_config, PreprocessConfig, PreprocessError};
use crate::raster::RgbaImage;
use crate::matching::{
    name_pairs, CardMatchView, CardMatcherView, RecognitionPipeline, RecognitionPipelineView,
};
use crate::recognize::{
    clone_opt_string, default_recognize_config, opt_text, OcrResult, RecognizeConfig,
    RecognizeConfigView, RecognizeError,
};

verus! {

/// Why the pipeline failed.
#[derive(Debug)]
pub enum OcrPipelineError {
    Capture(CaptureError),
    Preprocess(PreprocessError),
    Recognize(RecognizeError),
    Configuration(String),
}

impl OcrPipelineError {
    /// The message of the error, as text.
    pub open spec fn message(self) -> Seq<char> {
        match self {
            OcrPipelineError::Capture(e) => "Capture error: "@ + e@.message(),
            OcrPipelineError::Preprocess(e) => "Preprocess error: "@ + e@.message(),
            OcrPipelineError::Recognize(e) => "Recognize error: "@ + e.message(),
            OcrPipelineError::Configuration(msg) => "Configuration error: "@ + msg@,
        }
    }

    /// The message of the error.
    pub fn to_string(&self) -> (r: String)
        ensures
            r@ == self.message(),
    {
        match self {
            OcrPipelineError::Capture(e) => String::from_str("Capture error: ").concat(
                e.to_string().as_str(),
            ),
            OcrPipelineError::Preprocess(e) => String::from_str("Preprocess error: ").concat(
                e.to_string().as_str(),
            ),
            OcrPipelineError::Recognize(e) => String::from_str("Recognize error: ").concat(
                e.to_string().as_str(),
            ),
            OcrPipelineError::Configuration(msg) => String::from_str(
                "Configuration error: ",
            ).concat(msg.as_str()),
        }
    }
}

impl From<CaptureError> for OcrPipelineError {
    fn from(err: CaptureError) -> (r: Self) {
        OcrPipelineError::Capture(err)
    }
}

impl FromSpecImpl<CaptureError> for OcrPipelineError {
    open spec fn obeys_from_spec() -> bool {
        true
    }

    open spec fn from_spec(err: CaptureError) -> Self {
        OcrPipelineError::Capture(err)
    }
}

impl From<PreprocessError> for OcrPipelineError {
    fn from(err: PreprocessError) -> (r: Self) {
        OcrPipelineError::Preprocess(err)
    }
}

impl FromSpecImpl<PreprocessError> for OcrPipelineError {
    open spec fn obeys_from_spec() -> bool {
        true
    }

    open spec fn from_spec(err: PreprocessError) -> Self {
        OcrPipelineError::Preprocess(err)
    }
}

impl From<RecognizeError> for OcrPipelineError {
    fn from(err: RecognizeError) -> (r: Self) {
        OcrPipelineError::Recognize(err)
    }
}

impl FromSpecImpl<RecognizeError> for OcrPipelineError {
    open spec fn obeys_from_spec() -> bool {
        true
    }

    open spec fn from_spec(err: RecognizeError) -> Self {
        OcrPipelineError::Recognize(err)
    }
}

/// The least confidence in a detection, in thousandths, that the default
/// settings ask for.
pub const DEFAULT_MIN_OVERALL_CONFIDENCE: i64 = 600;

/// The settings of a detection.
#[derive(Debug)]
pub struct CardDetectionOptions {
    /// The regions that are captured.
    pub capture: CaptureConfig,
    /// How each captured image is prepared.
    pub preprocess: PreprocessConfig,
    /// How text is recognised and matched.
    pub recognize: RecognizeConfig,
    /// Whether the prepared images are kept for inspection.
    pub save_debug_images: bool,
    /// Where they are kept.
    pub debug_image_path: Option<String>,
    /// The least confidence in a detection, in thousandths.
    pub min_overall_confidence: i64,
}

/// What the settings of a detection hold.
pub struct CardDetectionOptionsView {
    /// The regions, in the order of their slots.
    pub regions: Seq<CaptureRegion>,
    /// The width of the screen that the regions were laid out for.
    pub screen_width: u32,
    /// The height of that screen.
    pub screen_height: u32,
    pub preprocess: PreprocessConfig,
    pub recognize: RecognizeConfigView,
    pub save_debug_images: bool,
    pub debug_image_path: Option<Seq<char>>,
    /// The least confidence in a detection, in thousandths.
    pub min_overall_confidence: int,
}

impl View for CardDetectionOptions {
    type V = CardDetectionOptionsView;

    open spec fn view(&self) -> CardDetectionOptionsView {
        CardDetectionOptionsView {
            regions: self.capture.regions@,
            screen_width: self.capture.screen_width,
            screen_height: self.capture.screen_height,
            preprocess: self.preprocess,
            recognize: self.recognize@,
            save_debug_images: self.save_debug_images,
            debug_image_path: opt_text(self.debug_image_path),
            min_overall_confidence: self.min_overall_confidence as int,
        }
    }
}

/// The default settings: the base layout on the reference screen, the default
/// preparation and recognition, no images kept, and six tenths as the least
/// confidence.
pub open spec fn default_options() -> CardDetectionOptionsView {
    CardDetectionOptionsView {
        regions: default_layout(REFERENCE_WIDTH, REFERENCE_HEIGHT),
        screen_width: REFERENCE_WIDTH,
        screen_height: REFERENCE_HEIGHT,
        preprocess: default_preprocess_config(),
        recognize: default_recognize_config(),
        save_debug_images: false,
        debug_image_path: None,
        min_overall_confidence: DEFAULT_MIN_OVERALL_CONFIDENCE as int,
    }
}

impl Clone for CardDetectionOptions {
    fn clone(&self) -> (r: Self)
        ensures
            r@ == self@,
    {
        CardDetectionOptions {
            capture: self.capture.clone(),
            preprocess: self.preprocess,
            recognize: self.recognize.clone(),
            save_debug_images: self.save_debug_images,
            debug_image_path: clone_opt_string(&self.debug_image_path),
            min_overall_confidence: self.min_overall_confidence,
        }
    }
}

impl Default for CardDetectionOptions {
    fn default() -> (r: Self)
        ensures
            r@ == default_options(),
    {
        CardDetectionOptions {
            capture: CaptureConfig::default(),
            preprocess: PreprocessConfig::default(),
            recognize: RecognizeConfig::default(),
            save_debug_images: false,
            debug_image_path: None,
            min_overall_confidence: DEFAULT_MIN_OVERALL_CONFIDENCE,
        }
    }
}

impl CardDetectionOptions {
    /// The default settings with the given regions, for the screen whose size
    /// was asked for; the error of that question, if it failed.
    pub fn with_regions(
        regions: Vec<CaptureRegion>,
        dimensions: Result<(u32, u32), CaptureError>,
    ) -> (r: Result<Self, OcrPipelineError>)
        ensures
            match dimensions {
                Ok((width, height)) => r is Ok && r->Ok_0.capture == (CaptureConfig {
                    regions,
                    screen_width: width,
                    screen_height: height,
                }) && r->Ok_0@ == (CardDetectionOptionsView {
                    regions: regions@,
                    screen_width: width,
                    screen_height: height,
                    ..default_options()
                }),
                Err(e) => r is Err && r->Err_0 == OcrPipelineError::Capture(e),
            },
    {
        match CaptureConfig::with_regions(regions, dimensions) {
            Ok(capture) => Ok(
                CardDetectionOptions {
                    capture,
                    preprocess: PreprocessConfig::default(),
                    recognize: RecognizeConfig::default(),
                    save_debug_images: false,
                    debug_image_path: None,
                    min_overall_confidence: DEFAULT_MIN_OVERALL_CONFIDENCE,
                },
            ),
            Err(e) => Err(OcrPipelineError::Capture(e)),
        }
    }

    /// The same settings, with the prepared images kept under `path`.
    pub fn with_debug_images(self, path: String) -> (r: Self)
        ensures
            r == (CardDetectionOptions {
                save_debug_images: true,
                debug_image_path: Some(path),
                ..self
            }),
    {
        CardDetectionOptions {
            capture: self.capture,
            preprocess: self.preprocess,
            recognize: self.recognize,
            save_debug_images: true,
            debug_image_path: Some(path),
            min_overall_confidence: self.min_overall_confidence,
        }
    }
}

/// What a detected card holds.
pub struct DetectedCardView {
    pub card_id: Seq<char>,
    pub card_name: Seq<char>,
    pub region: CaptureRegion,
    pub ocr_confidence: int,
    pub match_score: int,
    pub overall_confidence: int,
    pub raw_ocr_text: Seq<char>,
}

/// A card that was found in a region of the screen.
#[derive(Debug, PartialEq)]
pub struct DetectedCard {
    /// The identifier of the card.
    pub card_id: String,
    /// The name of the card.
    pub card_name: String,
    /// The region in which it was found.
    pub region: CaptureRegion,
    /// The engine's confidence in the text, of 100.
    pub ocr_confidence: i32,
    /// How well the text fits the name, of 100.
    pub match_score: i32,
    /// The confidence in the detection as a whole, in thousandths.
    pub overall_confidence: i64,
    /// The text as it was read.
    pub raw_ocr_text: String,
}

impl View for DetectedCard {
    type V = DetectedCardView;

    open spec fn view(&self) -> DetectedCardView {
        DetectedCardView {
            card_id: self.card_id@,
            card_name: self.card_name@,
            region: self.region,
            ocr_confidence: self.ocr_confidence as int,
            match_score: self.match_score as int,
            overall_confidence: self.overall_confidence as int,
            raw_ocr_text: self.raw_ocr_text@,
        }
    }
}

impl Clone for DetectedCard {
    fn clone(&self) -> (r: Self)
        ensures
            r@ == self@,
    {
        DetectedCard {
            card_id: self.card_id.clone(),
            card_name: self.card_name.clone(),
            region: self.region,
            ocr_confidence: self.ocr_confidence,
            match_score: self.match_score,
            overall_confidence: self.overall_confidence,
            raw_ocr_text: self.raw_ocr_text.clone(),
        }
    }
}

impl DetectedCard {
    /// Whether the confidence in the detection reaches the threshold, in
    /// thousandths.
    pub fn is_confident(&self, threshold: i64) -> (b: bool)
        ensures
            b == (self.overall_confidence >= threshold),
    {
        self.overall_confidence >= threshold
    }
}

/// What the detected cards of a list hold.
pub open spec fn card_views(cards: Seq<DetectedCard>) -> Seq<DetectedCardView> {
    Seq::new(cards.len(), |i: int| cards[i]@)
}

/// The sum of the confidences in the first `n` detections.
pub open spec fn confidence_sum(cards: Seq<DetectedCardView>, n: nat) -> int
    decreases n,
{
    if n == 0 {
        0
    } else {
        confidence_sum(cards, (n - 1) as nat) + cards[n - 1].overall_confidence
    }
}

/// The mean of the confidences in the detections, rounded down; zero where
/// there is none.
pub open spec fn mean_confidence(cards: Seq<DetectedCardView>) -> int {
    if cards.len() == 0 {
        0
    } else {
        confidence_sum(cards, cards.len()) / (cards.len() as int)
    }
}

/// What the result of a detection holds.
pub struct CardDetectionResultView {
    pub detected_cards: Seq<DetectedCardView>,
    pub average_confidence: int,
    pub success: bool,
    pub error_message: Option<Seq<char>>,
}

/// The result of a detection that ran: the cards and the mean of the
/// confidences in them.
pub open spec fn detection_result(cards: Seq<DetectedCardView>) -> CardDetectionResultView {
    CardDetectionResultView {
        detected_cards: cards,
        average_confidence: mean_confidence(cards),
        success: true,
        error_message: None,
    }
}

/// The result of a detection that could not run.
pub open spec fn failed_result(error: Seq<char>) -> CardDetectionResultView {
    CardDetectionResultView {
        detected_cards: Seq::empty(),
        average_confidence: 0,
        success: false,
        error_message: Some(error),
    }
}

/// The cards that one detection found.
#[derive(Debug, PartialEq)]
pub struct CardDetectionResult {
    /// The cards, in the order of their regions.
    pub detected_cards: Vec<DetectedCard>,
    /// The mean of the confidences in them, in thousandths.
    pub average_confidence: i64,
    /// Whether the detection ran.
    pub success: bool,
    /// Why it did not.
    pub error_message: Option<String>,
}

impl View for CardDetectionResult {
    type V = CardDetectionResultView;

    open spec fn view(&self) -> CardDetectionResultView {
        CardDetectionResultView {
            detected_cards: card_views(self.detected_cards@),
            average_confidence: self.average_confidence as int,
            success: self.success,
            error_message: opt_text(self.error_message),
        }
    }
}

/// The sum of a list of 64-bit numbers lies between its length times the
/// least and its length times the greatest of them.
proof fn lemma_sum_bounds(cards: Seq<DetectedCardView>, n: nat)
    requires
        n <= cards.len(),
        forall|i: int|
            0 <= i < cards.len() ==> i64::MIN <= (#[trigger] cards[i]).overall_confidence
                <= i64::MAX,
    ensures
        i64::MIN * n <= confidence_sum(cards, n) <= i64::MAX * n,
    decreases n,
{
    if n > 0 {
        lemma_sum_bounds(cards, (n - 1) as nat);
        assert(i64::MIN * n == i64::MIN * (n - 1) + i64::MIN) by (nonlinear_arith);
        assert(i64::MAX * n == i64::MAX * (n - 1) + i64::MAX) by (nonlinear_arith);
    }
}

/// A sum divided by a count, rounded down.
fn floor_mean(sum: i128, count: usize) -> (r: i64)
    requires
        count > 0,
        i64::MIN * count <= sum <= i64::MAX * count,
    ensures
        r == (sum as int) / (count as int),
{
    let divisor: i128 = count as i128;
    let ghost s: int = sum as int;
    let ghost d: int = count as int;
    proof {
        vstd::arithmetic::div_mod::lemma_fundamental_div_mod(s, d);
        vstd::arithmetic::div_mod::lemma_mod_bound(s, d);
        let q = s / d;
        let m = s % d;
        assert(i64::MIN <= q <= i64::MAX) by (nonlinear_arith)
            requires
                d > 0,
                i64::MIN * d <= s <= i64::MAX * d,
                s == d * q + m,
                0 <= m < d,
        ;
    }
    if sum >= 0 {
        (sum / divisor) as i64
    } else {
        let positive: i128 = -(sum + 1);
        proof {
            // For a negative sum, rounding down is rounding the positive
            // counterpart up.
            let p: int = positive as int;
            let q = p / d;
            let m = p % d;
            vstd::arithmetic::div_mod::lemma_fundamental_div_mod(p, d);
            vstd::arithmetic::div_mod::lemma_mod_bound(p, d);
            assert(s == (-q - 1) * d + (d - 1 - m)) by (nonlinear_arith)
                requires
                    p == d * q + m,
                    p == -(s + 1),
            ;
            vstd::arithmetic::div_mod::lemma_fundamental_div_mod_converse(
                s,
                d,
                -q - 1,
                d - 1 - m,
            );
        }
        (-(positive / divisor) - 1) as i64
    }
}

/// The cards of a list of detections whose confidence reaches the threshold,
/// among the first `n`, in their order.
pub open spec fn confident_upto(cards: Seq<DetectedCard>, threshold: int, n: nat) -> Seq<
    DetectedCard,
>
    decreases n,
{
    if n == 0 {
        Seq::empty()
    } else if cards[n - 1].overall_confidence >= threshold {
        confident_upto(cards, threshold, (n - 1) as nat).push(cards[n - 1])
    } else {
        confident_upto(cards, threshold, (n - 1) as nat)
    }
}

/// The cards that a list of references points to.
pub open spec fn pointed(refs: Seq<&DetectedCard>) -> Seq<DetectedCard> {
    Seq::new(refs.len(), |i: int| *refs[i])
}

impl CardDetectionResult {
    /// The result of a detection that ran.
    pub fn new(detected_cards: Vec<DetectedCard>) -> (r: Self)
        ensures
            r@ == detection_result(card_views(detected_cards@)),
            r.detected_cards == detected_cards,
    {
        let ghost views = card_views(detected_cards@);
        let mut sum: i128 = 0;
        let mut i: usize = 0;
        while i < detected_cards.len()
            invariant
                i <= detected_cards@.len(),
                views == card_views(detected_cards@),
                sum == confidence_sum(views, i as nat),
                i64::MIN * i <= sum <= i64::MAX * i,
            decreases detected_cards.len() - i,
        {
            proof {
                lemma_sum_bounds(views, (i + 1) as nat);
                assert(i64::MIN * i >= i64::MIN * usize::MAX) by (nonlinear_arith)
                    requires
                        0 <= i <= usize::MAX,
                ;
                assert(i64::MAX * i <= i64::MAX * usize::MAX) by (nonlinear_arith)
                    requires
                        0 <= i <= usize::MAX,
                ;
            }
            sum = sum + detected_cards[i].overall_confidence as i128;
            i += 1;
        }
        let average: i64 = if detected_cards.len() == 0 {
            0
        } else {
            floor_mean(sum, detected_cards.len())
        };
        CardDetectionResult {
            detected_cards,
            average_confidence: average,
            success: true,
            error_message: None,
        }
    }

    /// The result of a detection that could not run.
    pub fn failed(error: &str) -> (r: Self)
        ensures
            r@ == failed_result(error@),
    {
        let r = CardDetectionResult {
            detected_cards: Vec::new(),
            average_confidence: 0,
            success: false,
            error_message: Some(String::from_str(error)),
        };
        assert(card_views(r.detected_cards@) =~= Seq::<DetectedCardView>::empty());
        r
    }

    /// The detections whose confidence reaches the threshold, in thousandths.
    pub fn confident_detections(&self, threshold: i64) -> (r: Vec<&DetectedCard>)
        ensures
            pointed(r@) == confident_upto(
                self.detected_cards@,
                threshold as int,
                self.detected_cards@.len(),
            ),
    {
        let mut out: Vec<&DetectedCard> = Vec::new();
        let mut i: usize = 0;
        while i < self.detected_cards.len()
            invariant
                i <= self.detected_cards@.len(),
                pointed(out@) == confident_upto(self.detected_cards@, threshold as int, i as nat),
            decreases self.detected_cards.len() - i,
        {
            let ghost before = pointed(out@);
            if self.detected_cards[i].is_confident(threshold) {
                out.push(&self.detected_cards[i]);
                assert(pointed(out@) =~= before.push(self.detected_cards@[i as int]));
            }
            i += 1;
        }
        out
    }

    /// How many cards were detected.
    pub fn len(&self) -> (n: usize)
        ensures
            n == self.detected_cards@.len(),
    {
        self.detected_cards.len()
    }

    /// Whether no card was detected.
    pub fn is_empty(&self) -> (b: bool)
        ensures
            b == (self.detected_cards@.len() == 0),
    {
        self.detected_cards.len() == 0
    }
}


/// What became of one region before its text is matched: the reading of its
/// image, or the failure that ended its way there.
pub type RegionReading = Result<OcrResult, OcrPipelineError>;

/// What a pipeline holds.
pub struct OcrPipelineView {
    /// Recognition and matching, as the settings and the cards make them.
    pub recognition: RecognitionPipelineView,
    /// The settings.
    pub options: CardDetectionOptionsView,
    /// Identifier and name of each card that the pipeline knows.
    pub names: Seq<(Seq<char>, Seq<char>)>,
}

impl OcrPipelineView {
    /// The region of slot `i`; a region without area where the layout has no
    /// such slot.
    pub open spec fn region_at(self, i: int) -> CaptureRegion {
        if 0 <= i < self.options.regions.len() {
            self.options.regions[i]
        } else {
            CaptureRegion { x: 0, y: 0, width: 0, height: 0 }
        }
    }

    /// A match as the detection of slot `i`.
    pub open spec fn detected(self, i: int, m: CardMatchView) -> DetectedCardView {
        DetectedCardView {
            card_id: m.card_id,
            card_name: m.card_name,
            region: self.region_at(i),
            ocr_confidence: m.ocr_confidence,
            match_score: m.match_score,
            overall_confidence: m.overall_confidence,
            raw_ocr_text: m.ocr_text,
        }
    }

    /// What slot `i` contributes: the card that its reading is matched to, if
    /// the region was read, the reading is confident, a card fits the text,
    /// and the fused confidence reaches the least that is asked for.
    pub open spec fn slot(self, i: int, reading: RegionReading) -> Option<DetectedCardView> {
        match reading {
            Err(_) => None,
            Ok(read) => match self.recognition.match_of(read@) {
                None => None,
                Some(m) => if m.overall_confidence >= self.options.min_overall_confidence {
                    Some(self.detected(i, m))
                } else {
                    None
                },
            },
        }
    }

    /// The detections of the first `n` slots, in the order of the slots.
    pub open spec fn detections_upto(self, readings: Seq<RegionReading>, n: nat) -> Seq<
        DetectedCardView,
    >
        decreases n,
    {
        if n == 0 {
            Seq::empty()
        } else {
            let before = self.detections_upto(readings, (n - 1) as nat);
            match self.slot(n - 1, readings[n - 1]) {
                Some(card) => before.push(card),
                None => before,
            }
        }
    }

    /// The detections of all slots.
    pub open spec fn detections(self, readings: Seq<RegionReading>) -> Seq<DetectedCardView> {
        self.detections_upto(readings, readings.len())
    }
}

/// What one slot contributes does not depend on the other slots: where two
/// lists of readings agree on the first `n` slots but for slot `k`, and slot
/// `k` contributes nothing in either, the detections of those slots are the
/// same. A region that failed contributes nothing.
pub proof fn lemma_failure_is_isolated(
    pipeline: OcrPipelineView,
    first: Seq<RegionReading>,
    second: Seq<RegionReading>,
    k: int,
    n: nat,
)
    requires
        n <= first.len(),
        n <= second.len(),
        forall|i: int| 0 <= i < n && i != k ==> first[i] == second[i],
        0 <= k < n ==> pipeline.slot(k, first[k]) is None && pipeline.slot(k, second[k]) is None,
    ensures
        pipeline.detections_upto(first, n) == pipeline.detections_upto(second, n),
        forall|i: int, e: OcrPipelineError|
            pipeline.slot(i, Err::<OcrResult, OcrPipelineError>(e)) is None,
    decreases n,
{
    if n > 0 {
        lemma_failure_is_isolated(pipeline, first, second, k, (n - 1) as nat);
    }
}

/// A copy of the cards' identifiers and names.
fn clone_names(names: &Vec<(String, String)>) -> (r: Vec<(String, String)>)
    ensures
        name_pairs(r@) == name_pairs(names@),
{
    let mut out: Vec<(String, String)> = Vec::new();
    let mut i: usize = 0;
    while i < names.len()
        invariant
            i <= names@.len(),
            out@.len() == i,
            forall|j: int| 0 <= j < i ==> out@[j].0@ == names@[j].0@ && out@[j].1@ == names@[j].1@,
        decreases names.len() - i,
    {
        out.push((names[i].0.clone(), names[i].1.clone()));
        i += 1;
    }
    assert(name_pairs(out@) =~= name_pairs(names@));
    out
}

/// The whole pipeline: settings, recognition and matching.
pub struct OcrPipeline {
    recognition_pipeline: RecognitionPipeline,
    options: CardDetectionOptions,
    card_names: Vec<(String, String)>,
}

impl View for OcrPipeline {
    type V = OcrPipelineView;

    closed spec fn view(&self) -> OcrPipelineView {
        OcrPipelineView {
            recognition: self.recognition_pipeline@,
            options: self.options@,
            names: name_pairs(self.card_names@),
        }
    }
}

/// The recognition that the settings and the cards make.
pub open spec fn recognition_of(
    names: Seq<(String, String)>,
    config: RecognizeConfigView,
) -> RecognitionPipelineView {
    RecognitionPipelineView {
        engine: config,
        matcher: CardMatcherView { names: name_pairs(names), min_score: config.min_match_score },
    }
}

/// The pipeline that the cards and the settings make.
pub open spec fn pipeline_of(
    names: Seq<(String, String)>,
    options: CardDetectionOptionsView,
) -> OcrPipelineView {
    OcrPipelineView {
        recognition: recognition_of(names, options.recognize),
        options,
        names: name_pairs(names),
    }
}

impl OcrPipeline {
    /// A pipeline for the cards with the settings; without cards there is
    /// none.
    pub fn new(card_names: Vec<(String, String)>, options: CardDetectionOptions) -> (r: Result<
        Self,
        OcrPipelineError,
    >)
        ensures
            card_names@.len() == 0 ==> r is Err && r->Err_0 == OcrPipelineError::Recognize(
                RecognizeError::NoCardNamesAvailable,
            ),
            card_names@.len() > 0 ==> r is Ok && r->Ok_0@ == pipeline_of(card_names@, options@),
    {
        let names = clone_names(&card_names);
        let config = options.recognize.clone();
        assert(names@.len() == name_pairs(names@).len());
        assert(card_names@.len() == name_pairs(card_names@).len());
        match RecognitionPipeline::with_config(names, config) {
            Ok(recognition_pipeline) => Ok(
                OcrPipeline { recognition_pipeline, options, card_names },
            ),
            Err(e) => Err(OcrPipelineError::Recognize(e)),
        }
    }

    /// A pipeline for the cards with the default settings.
    pub fn with_default_options(card_names: Vec<(String, String)>) -> (r: Result<
        Self,
        OcrPipelineError,
    >)
        ensures
            card_names@.len() == 0 ==> r is Err && r->Err_0 == OcrPipelineError::Recognize(
                RecognizeError::NoCardNamesAvailable,
            ),
            card_names@.len() > 0 ==> r is Ok && r->Ok_0@ == pipeline_of(
                card_names@,
                default_options(),
            ),
    {
        Self::new(card_names, CardDetectionOptions::default())
    }

    /// The settings of the pipeline.
    pub fn options(&self) -> (o: &CardDetectionOptions)
        ensures
            o@ == self@.options,
    {
        &self.options
    }

    /// The recognition part of the pipeline.
    pub fn recognition(&self) -> (p: &RecognitionPipeline)
        ensures
            p@ == self@.recognition,
    {
        &self.recognition_pipeline
    }

    /// The card detected in slot `i`, if its reading leads to one.
    pub fn detect_in_slot(&self, i: usize, reading: &RegionReading) -> (r: Option<DetectedCard>)
        ensures
            match r {
                Some(card) => self@.slot(i as int, *reading) == Some(card@),
                None => self@.slot(i as int, *reading) is None,
            },
    {
        let read = match reading {
            Ok(read) => read,
            Err(_) => {
                return None;
            },
        };
        match self.recognition_pipeline.match_reading(read) {
            Some(found) => {
                if found.overall_confidence >= self.options.min_overall_confidence {
                    let region = if i < self.options.capture.regions.len() {
                        self.options.capture.regions[i]
                    } else {
                        CaptureRegion::new(0, 0, 0, 0)
                    };
                    Some(
                        DetectedCard {
                            card_id: found.card_id,
                            card_name: found.card_name,
                            region,
                            ocr_confidence: found.ocr_confidence,
                            match_score: found.match_score,
                            overall_confidence: found.overall_confidence,
                            raw_ocr_text: found.ocr_text,
                        },
                    )
                } else {
                    None
                }
            },
            None => None,
        }
    }

    /// The cards on the screen, from what became of each region: a region
    /// that failed, was not read with confidence or fits no card well enough
    /// is passed over, and the others are reported in the order of the
    /// regions.
    pub fn detect_cards(&self, readings: &Vec<RegionReading>) -> (r: Result<
        CardDetectionResult,
        OcrPipelineError,
    >)
        ensures
            r is Ok,
            r->Ok_0@ == detection_result(self@.detections(readings@)),
    {
        let mut detected_cards: Vec<DetectedCard> = Vec::new();
        let mut i: usize = 0;
        while i < readings.len()
            invariant
                i <= readings@.len(),
                card_views(detected_cards@) == self@.detections_upto(readings@, i as nat),
            decreases readings.len() - i,
        {
            let ghost before = card_views(detected_cards@);
            match self.detect_in_slot(i, &readings[i]) {
                Some(card) => {
                    detected_cards.push(card);
                    assert(card_views(detected_cards@) =~= before.push(detected_cards@.last()@));
                },
                None => {},
            }
            i += 1;
        }
        Ok(CardDetectionResult::new(detected_cards))
    }

    /// Replaces the regions.
    pub fn update_regions(&mut self, regions: Vec<CaptureRegion>)
        ensures
            final(self)@ == (OcrPipelineView {
                options: CardDetectionOptionsView { regions: regions@, ..old(self)@.options },
                ..old(self)@
            }),
    {
        self.options.capture.update_regions(regions);
    }

    /// The regions, in the order of their slots.
    pub fn get_regions(&self) -> (r: &[CaptureRegion])
        ensures
            r@ == self@.options.regions,
    {
        self.options.capture.get_regions()
    }

    /// Identifier and name of each card that the pipeline can recognise.
    pub fn available_card_names(&self) -> (r: &[(String, String)])
        ensures
            name_pairs(r@) == self@.names,
    {
        self.card_names.as_slice()
    }
}

/// One detection with the default settings.
pub fn quick_detect(card_names: Vec<(String, String)>, readings: &Vec<RegionReading>) -> (r: Result<
    CardDetectionResult,
    OcrPipelineError,
>)
    ensures
        card_names@.len() == 0 ==> r is Err && r->Err_0 == OcrPipelineError::Recognize(
            RecognizeError::NoCardNamesAvailable,
        ),
        card_names@.len() > 0 ==> r is Ok && r->Ok_0@ == detection_result(
            pipeline_of(card_names@, default_options()).detections(readings@),
        ),
{
    match OcrPipeline::with_default_options(card_names) {
        Ok(pipeline) => pipeline.detect_cards(readings),
        Err(e) => Err(e),
    }
}

/// How many of the first `n` captures succeeded.
pub open spec fn successes_upto(captures: Seq<Result<RgbaImage, CaptureError>>, n: nat) -> nat
    decreases n,
{
    if n == 0 {
        0
    } else {
        successes_upto(captures, (n - 1) as nat) + if captures[n - 1] is Ok {
            1nat
        } else {
            0nat
        }
    }
}

/// What a calibration found.
#[derive(Debug)]
pub struct CalibrationReport {
    /// Width and height of the screen.
    pub screen_dimensions: (u32, u32),
    /// How many regions were tried.
    pub regions_tested: usize,
    /// How many of them could be captured.
    pub successful_captures: usize,
    /// How many could not.
    pub failed_captures: usize,
    /// The default layout for the screen.
    pub recommended_regions: Vec<CaptureRegion>,
}

impl Clone for CalibrationReport {
    fn clone(&self) -> (r: Self)
        ensures
            r.screen_dimensions == self.screen_dimensions,
            r.regions_tested == self.regions_tested,
            r.successful_captures == self.successful_captures,
            r.failed_captures == self.failed_captures,
            r.recommended_regions@ == self.recommended_regions@,
    {
        CalibrationReport {
            screen_dimensions: self.screen_dimensions,
            regions_tested: self.regions_tested,
            successful_captures: self.successful_captures,
            failed_captures: self.failed_captures,
            recommended_regions: self.recommended_regions.clone(),
        }
    }
}

/// The share of successes, in thousandths and rounded down; zero where
/// nothing was tried.
pub open spec fn success_share(successes: int, failures: int) -> int {
    if successes + failures == 0 {
        0
    } else {
        1000 * successes / (successes + failures)
    }
}

impl CalibrationReport {
    /// Whether every region could be captured, and there was one.
    pub open spec fn spec_is_successful(&self) -> bool {
        self.failed_captures == 0 && self.successful_captures > 0
    }

    /// Whether every region could be captured, and there was one.
    #[verifier::when_used_as_spec(spec_is_successful)]
    pub fn is_successful(&self) -> (b: bool)
        ensures
            b == (self.failed_captures == 0 && self.successful_captures > 0),
    {
        self.failed_captures == 0 && self.successful_captures > 0
    }

    /// The share of regions that could be captured, in thousandths: 750 for
    /// three of four.
    pub fn success_rate(&self) -> (r: u32)
        ensures
            r == success_share(self.successful_captures as int, self.failed_captures as int),
            r <= 1000,
    {
        let successes: u128 = self.successful_captures as u128;
        let total: u128 = successes + self.failed_captures as u128;
        if total == 0 {
            0
        } else {
            assert((1000 * successes) as int / (total as int) <= 1000) by (nonlinear_arith)
                requires
                    0 <= successes <= total,
                    total > 0,
            ;
            (1000 * successes / total) as u32
        }
    }
}

/// What a calibration report holds.
pub struct CalibrationReportView {
    pub screen_dimensions: (u32, u32),
    pub regions_tested: nat,
    pub successful_captures: nat,
    pub failed_captures: nat,
    pub recommended_regions: Seq<CaptureRegion>,
}

impl View for CalibrationReport {
    type V = CalibrationReportView;

    open spec fn view(&self) -> CalibrationReportView {
        CalibrationReportView {
            screen_dimensions: self.screen_dimensions,
            regions_tested: self.regions_tested as nat,
            successful_captures: self.successful_captures as nat,
            failed_captures: self.failed_captures as nat,
            recommended_regions: self.recommended_regions@,
        }
    }
}

/// What a calibration reports. Where the size of the screen was told: that
/// size, the outcomes counted, and the default layout for the screen. Where
/// it was not, no region can be captured: every region of the settings counts
/// as failed, whatever outcomes were handed over, and the report names the
/// screen that the settings were laid out for, with the default layout for
/// it.
pub open spec fn calibration_report(
    options: CardDetectionOptionsView,
    dimensions: Result<(u32, u32), CaptureError>,
    captures: Seq<Result<RgbaImage, CaptureError>>,
) -> CalibrationReportView {
    match dimensions {
        Ok(size) => CalibrationReportView {
            screen_dimensions: size,
            regions_tested: options.regions.len(),
            successful_captures: successes_upto(captures, captures.len()),
            failed_captures: (captures.len() - successes_upto(captures, captures.len())) as nat,
            recommended_regions: default_layout(size.0, size.1),
        },
        Err(_) => CalibrationReportView {
            screen_dimensions: (options.screen_width, options.screen_height),
            regions_tested: options.regions.len(),
            successful_captures: 0,
            failed_captures: options.regions.len(),
            recommended_regions: default_layout(options.screen_width, options.screen_height),
        },
    }
}

/// A display that cannot tell the size of its screen still yields a report:
/// one without a success, with every region of the settings counted as
/// failed, and so not a successful one.
pub proof fn lemma_calibration_without_display(
    options: CardDetectionOptionsView,
    error: CaptureError,
    captures: Seq<Result<RgbaImage, CaptureError>>,
)
    ensures
        ({
            let report = calibration_report(
                options,
                Err::<(u32, u32), CaptureError>(error),
                captures,
            );
            &&& report.successful_captures == 0
            &&& report.failed_captures == options.regions.len()
            &&& report.regions_tested == options.regions.len()
            &&& !(report.failed_captures == 0 && report.successful_captures > 0)
            &&& success_share(report.successful_captures as int, report.failed_captures as int)
                == 0
        }),
{
}

/// Tries the regions of the settings, from what the display answered: the
/// size of the screen and the outcome of capturing each region. There is
/// always a report, also where the display answered nothing.
pub fn calibrate_regions(
    options: &CardDetectionOptions,
    dimensions: Result<(u32, u32), CaptureError>,
    captures: &Vec<Result<RgbaImage, CaptureError>>,
) -> (r: Result<CalibrationReport, OcrPipelineError>)
    ensures
        r is Ok,
        r->Ok_0@ == calibration_report(options@, dimensions, captures@),
        dimensions is Err ==> !r->Ok_0.spec_is_successful(),
{
    let regions_tested = options.capture.get_regions().len();
    let size = match dimensions {
        Ok(size) => size,
        Err(_) => {
            return Ok(
                CalibrationReport {
                    screen_dimensions: (
                        options.capture.screen_width,
                        options.capture.screen_height,
                    ),
                    regions_tested,
                    successful_captures: 0,
                    failed_captures: regions_tested,
                    recommended_regions: get_default_card_regions(
                        options.capture.screen_width,
                        options.capture.screen_height,
                    ),
                },
            );
        },
    };
    let mut successful_captures: usize = 0;
    let mut failed_captures: usize = 0;
    let mut i: usize = 0;
    while i < captures.len()
        invariant
            i <= captures@.len(),
            successful_captures == successes_upto(captures@, i as nat),
            successful_captures + failed_captures == i,
        decreases captures.len() - i,
    {
        match &captures[i] {
            Ok(_) => {
                successful_captures += 1;
            },
            Err(_) => {
                failed_captures += 1;
            },
        }
        i += 1;
    }
    Ok(
        CalibrationReport {
            screen_dimensions: size,
            regions_tested,
            successful_captures,
            failed_captures,
            recommended_regions: get_default_card_regions(size.0, size.1),
        },
    )
}

} // verus!
