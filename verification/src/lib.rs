//! Pointwise word-boundary prediction for languages written without spaces.
//!
//! A linear model scores every inter-character gap of a sentence by summing
//! character n-gram, character-type n-gram and dictionary-word contributions
//! against a bias, thresholds each score at zero to decide the word
//! boundaries, and can afterwards assign a tag to every induced token from
//! per-position tag-score matrices.

pub mod char_scorer;
pub mod errors;
pub mod kytea_fullwidth;
pub mod laws;
pub mod model;
pub mod predictor;
pub mod preprocess_kytea_style;
pub mod scores;
pub mod sentence;
pub mod tag_sums;
pub mod type_scorer;
pub mod text;

use vstd::prelude::*;

verus! {

pub use crate::errors::VaporettoError;
pub use crate::kytea_fullwidth::KyteaFullwidthFilter;
pub use crate::model::{
    DictModel, DictWeight, Model, NgramData, NgramModel, TagClassInfo, TagModel, WordWeightRecord,
};
pub use crate::predictor::Predictor;
pub use crate::preprocess_kytea_style::preprocess_kytea_style;
pub use crate::sentence::{BoundaryType, SelfWeight, Sentence, TagScores, Token};

} // verus!
