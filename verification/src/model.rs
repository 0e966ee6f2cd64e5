//! The immutable model a predictor is built from: character and
//! character-type n-gram families, a word dictionary, and the optional
//! tag models.

use vstd::prelude::*;

verus! {

/// A single n-gram pattern and its weight vector.
pub struct NgramData<P> {
    pub ngram: P,
    pub weights: Vec<i32>,
}

/// A family of n-gram patterns sharing one window size.
pub struct NgramModel<P> {
    pub data: Vec<NgramData<P>>,
}

impl<P> NgramModel<P> {
    pub fn new(data: Vec<NgramData<P>>) -> (r: Self)
        ensures
            r.data == data,
    {
        NgramModel { data }
    }
}

/// The three weights of one dictionary word: `right` lands on the gap
/// before the word's first character, `inside` on its internal gaps, and
/// `left` on the gap after its last character.
#[derive(Clone, Copy, Debug, PartialEq, Eq, Structural)]
pub struct DictWeight {
    pub right: i32,
    pub inside: i32,
    pub left: i32,
}

/// A dictionary word with its weights.
pub struct WordWeightRecord {
    pub word: String,
    pub weights: DictWeight,
    pub comment: String,
}

/// The dictionary component of a model.
pub struct DictModel {
    pub dict: Vec<WordWeightRecord>,
}

/// One tag class: its name and its bias.
pub struct TagClassInfo {
    pub name: String,
    pub bias: i32,
}

/// The models that drive tag prediction: per-class biases and the three
/// character n-gram families scoring a token's left context, right context
/// and the token itself.
pub struct TagModel {
    pub class_info: Vec<TagClassInfo>,
    pub left_char_model: NgramModel<String>,
    pub right_char_model: NgramModel<String>,
    pub self_char_model: NgramModel<String>,
}

impl Default for TagModel {
    /// A tag model with no classes and no patterns.
    fn default() -> (r: Self)
        ensures
            r.class_info@.len() == 0,
            r.left_char_model.data@.len() == 0,
            r.right_char_model.data@.len() == 0,
            r.self_char_model.data@.len() == 0,
    {
        TagModel {
            class_info: Vec::new(),
            left_char_model: NgramModel { data: Vec::new() },
            right_char_model: NgramModel { data: Vec::new() },
            self_char_model: NgramModel { data: Vec::new() },
        }
    }
}

/// Everything a predictor is built from.
pub struct Model {
    pub char_ngram_model: NgramModel<String>,
    pub type_ngram_model: NgramModel<Vec<u8>>,
    pub dict_model: DictModel,
    pub bias: i32,
    pub char_window_size: usize,
    pub type_window_size: usize,
    pub tag_model: TagModel,
}

} // verus!
