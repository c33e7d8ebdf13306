//! Card recognition from fixed regions of the screen, for a draft assistant.
//!
//! Regions of the screen are captured, cleaned up, read as text, and the text
//! is matched against the names of the known cards. Fractions (confidences,
//! scale factors, rates) are whole numbers of thousandths throughout. Beside
//! it stands the value of a card in a draft.

pub mod capture;
pub mod commands;
pub mod matching;
pub mod names;
pub mod order;
pub mod pipeline;
pub mod preprocess;
pub mod raster;
pub mod recognize;
pub mod scoring;
pub mod text;
