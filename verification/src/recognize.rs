//! Reading text from images: the settings of the engine and what is made
//! of its answers.

use vstd::prelude::*;
use vstd::string::*;
use crate::raster::GrayImage;
use crate::text::{decimal, decimal_string, lowercase, to_lowercase, trim, trimmed};

verus! {

/// Why a recognition failed.
#[derive(Debug)]
pub enum RecognizeError {
    TesseractInitFailed(String),
    TesseractError(String),
    NoCardNamesAvailable,
    InvalidImage,
    MatchingFailed(String),
}

impl RecognizeError {
    /// The message of the error, as text.
    pub open spec fn message(self) -> Seq<char> {
        match self {
            RecognizeError::TesseractInitFailed(msg) => "Tesseract initialization failed: "@ + msg@,
            RecognizeError::TesseractError(msg) => "Tesseract error: "@ + msg@,
            RecognizeError::NoCardNamesAvailable => "No card names available for matching"@,
            RecognizeError::InvalidImage => "Invalid image for OCR"@,
            RecognizeError::MatchingFailed(msg) => "Card matching failed: "@ + msg@,
        }
    }

    /// The message of the error.
    pub fn to_string(&self) -> (r: String)
        ensures
            r@ == self.message(),
    {
        match self {
            RecognizeError::TesseractInitFailed(msg) => String::from_str(
                "Tesseract initialization failed: ",
            ).concat(msg.as_str()),
            RecognizeError::TesseractError(msg) => String::from_str("Tesseract error: ").concat(
                msg.as_str(),
            ),
            RecognizeError::NoCardNamesAvailable => String::from_str(
                "No card names available for matching",
            ),
            RecognizeError::InvalidImage => String::from_str("Invalid image for OCR"),
            RecognizeError::MatchingFailed(msg) => String::from_str(
                "Card matching failed: ",
            ).concat(msg.as_str()),
        }
    }
}

/// How text is recognised and when a reading or a match counts.
#[derive(Debug)]
pub struct RecognizeConfig {
    /// Where the engine finds its data; `None` for its own default.
    pub tesseract_data_path: Option<String>,
    /// The language of the text, such as "eng".
    pub language: String,
    /// The page segmentation mode of the engine.
    pub psm: i32,
    /// The engine mode.
    pub oem: i32,
    /// The least confidence, of 100, at which a reading counts.
    pub min_confidence: i32,
    /// The score, of 100, that a match has to exceed.
    pub min_match_score: i32,
    /// The characters that the engine may report; `None` for all.
    pub whitelist: Option<String>,
}

/// The characters of card names.
pub open spec fn default_whitelist() -> Seq<char> {
    "ABCDEFGHIJKLMNOPQRSTUVWXYZabcdefghijklmnopqrstuvwxyz0123456789 '-"@
}

/// The text of an optional string.
pub open spec fn opt_text(s: Option<String>) -> Option<Seq<char>> {
    match s {
        Some(t) => Some(t@),
        None => None,
    }
}

/// What a configuration holds.
pub struct RecognizeConfigView {
    pub tesseract_data_path: Option<Seq<char>>,
    pub language: Seq<char>,
    pub psm: int,
    pub oem: int,
    pub min_confidence: int,
    pub min_match_score: int,
    pub whitelist: Option<Seq<char>>,
}

impl View for RecognizeConfig {
    type V = RecognizeConfigView;

    open spec fn view(&self) -> RecognizeConfigView {
        RecognizeConfigView {
            tesseract_data_path: opt_text(self.tesseract_data_path),
            language: self.language@,
            psm: self.psm as int,
            oem: self.oem as int,
            min_confidence: self.min_confidence as int,
            min_match_score: self.min_match_score as int,
            whitelist: opt_text(self.whitelist),
        }
    }
}

/// The configuration for lines of English text.
pub open spec fn default_recognize_config() -> RecognizeConfigView {
    RecognizeConfigView {
        tesseract_data_path: None,
        language: "eng"@,
        psm: 7,
        oem: 3,
        min_confidence: 60,
        min_match_score: 60,
        whitelist: Some(default_whitelist()),
    }
}

/// A copy of an optional string.
pub fn clone_opt_string(s: &Option<String>) -> (r: Option<String>)
    ensures
        opt_text(r) == opt_text(*s),
{
    match s {
        Some(t) => Some(t.clone()),
        None => None,
    }
}

impl Clone for RecognizeConfig {
    fn clone(&self) -> (r: Self)
        ensures
            r@ == self@,
    {
        RecognizeConfig {
            tesseract_data_path: clone_opt_string(&self.tesseract_data_path),
            language: self.language.clone(),
            psm: self.psm,
            oem: self.oem,
            min_confidence: self.min_confidence,
            min_match_score: self.min_match_score,
            whitelist: clone_opt_string(&self.whitelist),
        }
    }
}

impl Default for RecognizeConfig {
    fn default() -> (r: Self)
        ensures
            r@ == default_recognize_config(),
    {
        RecognizeConfig {
            tesseract_data_path: None,
            language: String::from_str("eng"),
            psm: 7,
            oem: 3,
            min_confidence: 60,
            min_match_score: 60,
            whitelist: Some(
                String::from_str(
                    "ABCDEFGHIJKLMNOPQRSTUVWXYZabcdefghijklmnopqrstuvwxyz0123456789 '-",
                ),
            ),
        }
    }
}

impl RecognizeConfig {
    /// The default configuration for another language.
    pub fn with_language(lang: &str) -> (r: Self)
        ensures
            r@ == (RecognizeConfigView { language: lang@, ..default_recognize_config() }),
    {
        let base = RecognizeConfig::default();
        RecognizeConfig {
            tesseract_data_path: base.tesseract_data_path,
            language: String::from_str(lang),
            psm: base.psm,
            oem: base.oem,
            min_confidence: base.min_confidence,
            min_match_score: base.min_match_score,
            whitelist: base.whitelist,
        }
    }

    /// The same configuration with another set of characters.
    pub fn with_whitelist(self, whitelist: &str) -> (r: Self)
        ensures
            r@ == (RecognizeConfigView { whitelist: Some(whitelist@), ..self@ }),
    {
        RecognizeConfig {
            tesseract_data_path: self.tesseract_data_path,
            language: self.language,
            psm: self.psm,
            oem: self.oem,
            min_confidence: self.min_confidence,
            min_match_score: self.min_match_score,
            whitelist: Some(String::from_str(whitelist)),
        }
    }
}

/// What a reading holds.
pub struct OcrResultView {
    pub text: Seq<char>,
    pub confidence: int,
    pub is_confident: bool,
}

/// Text read from an image, with the engine's confidence in it.
#[derive(Debug, PartialEq)]
pub struct OcrResult {
    /// The text, without white space at its ends.
    pub text: String,
    /// The engine's confidence, of 100.
    pub confidence: i32,
    /// Whether the confidence reaches the least that counts.
    pub is_confident: bool,
}

impl View for OcrResult {
    type V = OcrResultView;

    open spec fn view(&self) -> OcrResultView {
        OcrResultView {
            text: self.text@,
            confidence: self.confidence as int,
            is_confident: self.is_confident,
        }
    }
}

impl Clone for OcrResult {
    fn clone(&self) -> (r: Self)
        ensures
            r@ == self@,
    {
        OcrResult {
            text: self.text.clone(),
            confidence: self.confidence,
            is_confident: self.is_confident,
        }
    }
}

/// The reading of `text` at `confidence`, where `min_confidence` is the least
/// that counts.
pub open spec fn reading_of(
    text: Seq<char>,
    confidence: int,
    min_confidence: int,
) -> OcrResultView {
    OcrResultView {
        text: trimmed(text),
        confidence,
        is_confident: confidence >= min_confidence,
    }
}

/// A text as it is matched: in lower case, without white space at its ends.
pub open spec fn normalized(text: Seq<char>) -> Seq<char> {
    trimmed(lowercase(text))
}

impl OcrResult {
    pub fn new(text: String, confidence: i32, min_confidence: i32) -> (r: Self)
        ensures
            r@ == reading_of(text@, confidence as int, min_confidence as int),
    {
        let text = String::from_str(trim(text.as_str()));
        OcrResult { text, confidence, is_confident: confidence >= min_confidence }
    }

    /// The text in lower case, without white space at its ends.
    pub fn normalized_text(&self) -> (r: String)
        ensures
            r@ == normalized(self.text@),
    {
        let lower = to_lowercase(self.text.as_str());
        String::from_str(trim(lower.as_str()))
    }
}


/// What the text engine answered for one image: the text and its mean
/// confidence, or why it gave none.
pub type EngineReading = Result<(String, i32), RecognizeError>;

/// Whether `r` is the reading of an image from the engine's answer: the
/// answer's text without white space at its ends, with its confidence; the
/// engine's failure; or, for an image without pixels, the refusal of the
/// image.
pub open spec fn is_reading_of(
    r: Result<OcrResult, RecognizeError>,
    empty: bool,
    answer: EngineReading,
    min_confidence: int,
) -> bool {
    if empty {
        r == Err::<OcrResult, RecognizeError>(RecognizeError::InvalidImage)
    } else {
        match answer {
            Ok((text, confidence)) => r is Ok && r->Ok_0@ == reading_of(
                text@,
                confidence as int,
                min_confidence,
            ),
            Err(e) => r == Err::<OcrResult, RecognizeError>(e),
        }
    }
}

/// What the engine is started with.
#[derive(Debug)]
pub struct EngineSetup {
    /// Where the engine finds its data; `None` for its own default.
    pub data_path: Option<String>,
    /// The language of the text.
    pub language: String,
    /// The engine's variables, name and value, in the order in which they
    /// are set.
    pub variables: Vec<(String, String)>,
}

/// Names and values as texts.
pub open spec fn setting_views(v: Seq<(String, String)>) -> Seq<(Seq<char>, Seq<char>)> {
    Seq::new(v.len(), |i: int| (v[i].0@, v[i].1@))
}

/// The engine's variables for a configuration.
pub open spec fn engine_variables(config: RecognizeConfigView) -> Seq<(Seq<char>, Seq<char>)> {
    let modes = seq![
        ("tessedit_pageseg_mode"@, decimal(config.psm)),
        ("oem_mode"@, decimal(config.oem)),
    ];
    match config.whitelist {
        Some(whitelist) => modes.push(("tessedit_char_whitelist"@, whitelist)),
        None => modes,
    }
}

/// The recognition engine's settings.
pub struct OcrEngine {
    config: RecognizeConfig,
}

impl View for OcrEngine {
    type V = RecognizeConfigView;

    closed spec fn view(&self) -> RecognizeConfigView {
        self.config@
    }
}

impl OcrEngine {
    pub fn new() -> (r: Result<Self, RecognizeError>)
        ensures
            r is Ok,
            r->Ok_0@ == default_recognize_config(),
    {
        Ok(OcrEngine { config: RecognizeConfig::default() })
    }

    pub fn with_config(config: RecognizeConfig) -> (r: Result<Self, RecognizeError>)
        ensures
            r is Ok,
            r->Ok_0@ == config@,
    {
        Ok(OcrEngine { config })
    }

    /// The settings that the engine runs with.
    pub fn config(&self) -> (c: &RecognizeConfig)
        ensures
            c@ == self@,
    {
        &self.config
    }

    /// What the engine is started with: where its data lies, the language,
    /// and its variables in the order in which they are set: the page
    /// segmentation mode, the engine mode and, where there is one, the list
    /// of characters.
    pub fn init_tesseract(&self) -> (r: EngineSetup)
        ensures
            opt_text(r.data_path) == self@.tesseract_data_path,
            r.language@ == self@.language,
            setting_views(r.variables@) == engine_variables(self@),
    {
        let mut variables: Vec<(String, String)> = Vec::new();
        variables.push(
            (String::from_str("tessedit_pageseg_mode"), decimal_string(self.config.psm as i128)),
        );
        variables.push((String::from_str("oem_mode"), decimal_string(self.config.oem as i128)));
        match &self.config.whitelist {
            Some(whitelist) => {
                variables.push((String::from_str("tessedit_char_whitelist"), whitelist.clone()));
            },
            None => {},
        }
        assert(setting_views(variables@) =~= engine_variables(self@));
        EngineSetup {
            data_path: clone_opt_string(&self.config.tesseract_data_path),
            language: self.config.language.clone(),
            variables,
        }
    }

    /// The readings of the images, each from what the engine answered for it.
    pub fn recognize_multiple(&self, images: &[GrayImage], answers: Vec<EngineReading>) -> (r: Vec<
        Result<OcrResult, RecognizeError>,
    >)
        requires
            answers@.len() == images@.len(),
        ensures
            r@.len() == images@.len(),
            forall|i: int|
                0 <= i < images@.len() ==> is_reading_of(
                    #[trigger] r@[i],
                    images@[i]@.is_empty(),
                    answers@[i],
                    self@.min_confidence,
                ),
    {
        let mut out: Vec<Result<OcrResult, RecognizeError>> = Vec::new();
        for answer in it: answers
            invariant
                it.seq() == answers@,
                answers@.len() == images@.len(),
                out@.len() == it.index(),
                forall|i: int|
                    0 <= i < it.index() ==> is_reading_of(
                        #[trigger] out@[i],
                        images@[i]@.is_empty(),
                        answers@[i],
                        self@.min_confidence,
                    ),
        {
            let i = out.len();
            out.push(self.recognize(&images[i], answer));
        }
        out
    }

    /// The reading of an image, from what the engine answered for it. An image
    /// without pixels has no reading, whatever the answer.
    pub fn recognize(&self, img: &GrayImage, answer: EngineReading) -> (r: Result<
        OcrResult,
        RecognizeError,
    >)
        ensures
            is_reading_of(r, img@.is_empty(), answer, self@.min_confidence),
    {
        if img.is_empty() {
            return Err(RecognizeError::InvalidImage);
        }
        match answer {
            Ok((text, confidence)) => Ok(
                OcrResult::new(text, confidence, self.config.min_confidence),
            ),
            Err(e) => Err(e),
        }
    }
}

} // verus!
