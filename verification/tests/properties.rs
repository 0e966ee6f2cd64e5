use vaporetto::char_scorer::CharScorer;
use vaporetto::type_scorer::TypeScorer;
use vaporetto::{
    BoundaryType, DictModel, DictWeight, Model, NgramData, NgramModel, Predictor, Sentence,
    TagClassInfo, TagModel, Token, VaporettoError, WordWeightRecord,
};

fn small_char_scorer() -> CharScorer {
    CharScorer::new(
        NgramModel::new(vec![NgramData { ngram: "ら".to_string(), weights: vec![1, 2] }]),
        1,
        DictModel {
            dict: vec![WordWeightRecord {
                word: "我ら".to_string(),
                weights: DictWeight { right: 10, inside: 20, left: 30 },
                comment: "".to_string(),
            }],
        },
    )
    .unwrap()
}

// A larger padding than the window sizes is inert: the slots that stand
// for the gaps hold the same scores.
#[test]
fn padding_invariance_char_scorer() {
    let scorer = small_char_scorer();
    let chars: Vec<char> = "我らは".chars().collect();
    let pad1: usize = 1;
    let pad2: usize = 5;
    let mut ys1 = vec![0i32; 2 + pad1 + 7];
    let mut ys2 = vec![0i32; 2 + pad2 + 7];
    scorer.add_scores(&chars, pad1, &mut ys1);
    scorer.add_scores(&chars, pad2, &mut ys2);
    for g in 0..2 {
        assert_eq!(ys1[pad1 + g], ys2[pad2 + g]);
    }
}

#[test]
fn padding_invariance_type_scorer() {
    let scorer = TypeScorer::new(
        NgramModel::new(vec![NgramData { ngram: b"KH".to_vec(), weights: vec![3, 4, 5] }]),
        2,
    )
    .unwrap();
    let types: Vec<u8> = b"KHHK".to_vec();
    let pad1: usize = 2;
    let pad2: usize = 6;
    let mut ys1 = vec![0i32; 3 + pad1 + 7];
    let mut ys2 = vec![0i32; 3 + pad2 + 7];
    scorer.add_scores(&types, pad1, &mut ys1);
    scorer.add_scores(&types, pad2, &mut ys2);
    for g in 0..3 {
        assert_eq!(ys1[pad1 + g], ys2[pad2 + g]);
    }
}

fn additivity_model(with_char: bool, with_type: bool) -> Model {
    Model {
        char_ngram_model: NgramModel::new(if with_char {
            vec![NgramData { ngram: "ら".to_string(), weights: vec![5, 7] }]
        } else {
            vec![]
        }),
        type_ngram_model: NgramModel::new(if with_type {
            vec![NgramData { ngram: b"H".to_vec(), weights: vec![11] }]
        } else {
            vec![]
        }),
        dict_model: DictModel { dict: vec![] },
        bias: 0,
        char_window_size: 1,
        type_window_size: 1,
        tag_model: TagModel::default(),
    }
}

// The boundary scores are the bias plus the sum of the scorers'
// contributions: scoring with each family alone and adding up gives the
// scores of the combined model.
#[test]
fn additivity_of_scorer_families() {
    let p_char = Predictor::new(additivity_model(true, false), false).unwrap();
    let p_type = Predictor::new(additivity_model(false, true), false).unwrap();
    let p_both = Predictor::new(additivity_model(true, true), false).unwrap();
    let sc = p_char.predict_with_score(Sentence::from_raw("我らは").unwrap());
    let st = p_type.predict_with_score(Sentence::from_raw("我らは").unwrap());
    let sb = p_both.predict_with_score(Sentence::from_raw("我らは").unwrap());
    for g in 0..2 {
        assert_eq!(
            sb.boundary_scores()[g],
            sc.boundary_scores()[g] + st.boundary_scores()[g],
        );
    }
}

// A gap is a word boundary exactly when its score is at least zero; a
// score of exactly zero is a boundary.
#[test]
fn thresholding_follows_score_sign() {
    let model = Model {
        char_ngram_model: NgramModel::new(vec![NgramData {
            ngram: "ら".to_string(),
            weights: vec![1, 2],
        }]),
        type_ngram_model: NgramModel::new(vec![]),
        dict_model: DictModel { dict: vec![] },
        bias: -1,
        char_window_size: 1,
        type_window_size: 1,
        tag_model: TagModel::default(),
    };
    let p = Predictor::new(model, false).unwrap();
    let s = p.predict_with_score(Sentence::from_raw("我らは").unwrap());
    // scores: gap 0 holds -1 + 1 == 0, gap 1 holds -1 + 2 == 1
    assert_eq!([0, 1].as_slice(), s.boundary_scores().as_slice());
    for g in 0..2 {
        assert_eq!(
            s.boundaries()[g] == BoundaryType::WordBoundary,
            s.boundary_scores()[g] >= 0,
        );
    }
    assert_eq!(s.boundaries()[0], BoundaryType::WordBoundary);
}

fn tagging_model() -> Model {
    Model {
        char_ngram_model: NgramModel::new(vec![]),
        type_ngram_model: NgramModel::new(vec![]),
        dict_model: DictModel { dict: vec![] },
        bias: 0,
        char_window_size: 2,
        type_window_size: 2,
        tag_model: TagModel {
            class_info: vec![
                TagClassInfo { name: "A".to_string(), bias: 0 },
                TagClassInfo { name: "B".to_string(), bias: 0 },
                TagClassInfo { name: "C".to_string(), bias: 0 },
            ],
            left_char_model: NgramModel::new(vec![]),
            right_char_model: NgramModel::new(vec![]),
            self_char_model: NgramModel::new(vec![
                NgramData { ngram: "人".to_string(), weights: vec![0, 0, 100] },
                NgramData { ngram: "ぐ人".to_string(), weights: vec![0, 100, 0] },
            ]),
        },
    }
}

// Of the self-weight records on a token's last character, exactly the one
// whose relative start matches the token start contributes: here the token
// is the two characters of the longer pattern, so the single-character
// record is skipped and only the two-character record is added.
#[test]
fn self_weight_single_hit() {
    let p = Predictor::new(tagging_model(), true).unwrap();
    let s = Sentence::from_raw("あぐ人").unwrap();
    let mut s = p.predict(s);
    s.boundaries_mut()
        .copy_from_slice(&[BoundaryType::WordBoundary, BoundaryType::NotWordBoundary]);
    let s = p.fill_tags(s);
    let tokens = s.to_tokenized_vec().unwrap();
    assert_eq!(tokens.len(), 2);
    assert_eq!(tokens[0].surface, "あ");
    assert_eq!(tokens[1], Token { surface: "ぐ人".to_string(), tag: Some("B".to_string()) });
}

// Tag assignment is deterministic in the boundaries and tag scores: two
// identical runs decide the same tags.
#[test]
fn tag_assignment_deterministic() {
    let run = || {
        let p = Predictor::new(tagging_model(), true).unwrap();
        let s = Sentence::from_raw("あぐ人").unwrap();
        let mut s = p.predict(s);
        s.boundaries_mut()
            .copy_from_slice(&[BoundaryType::WordBoundary, BoundaryType::NotWordBoundary]);
        let s = p.fill_tags(s);
        s.to_tokenized_vec().unwrap()
    };
    assert_eq!(run(), run());
}

// A unique maximum decides the tag outright; equal maxima fall to the
// greatest index.
#[test]
fn best_tag_selection() {
    let p = Predictor::new(tagging_model(), true).unwrap();
    assert_eq!(p.best_tag(&vec![9, 3, 1]), "A");
    assert_eq!(p.best_tag(&vec![3, 9, 1]), "B");
    assert_eq!(p.best_tag(&vec![7, 7, 3]), "B");
    assert_eq!(p.best_tag(&vec![4, 4, 4]), "C");
}

#[test]
fn empty_sentence_is_rejected() {
    assert!(matches!(Sentence::from_raw(""), Err(VaporettoError::InvalidInput)));
}

#[test]
fn empty_pattern_is_rejected() {
    let model = Model {
        char_ngram_model: NgramModel::new(vec![NgramData {
            ngram: "".to_string(),
            weights: vec![1],
        }]),
        type_ngram_model: NgramModel::new(vec![]),
        dict_model: DictModel { dict: vec![] },
        bias: 0,
        char_window_size: 1,
        type_window_size: 1,
        tag_model: TagModel::default(),
    };
    assert!(matches!(Predictor::new(model, false), Err(VaporettoError::InvalidModel)));
}

#[test]
fn ragged_tag_rows_are_rejected() {
    let mut model = tagging_model();
    model.tag_model.left_char_model =
        NgramModel::new(vec![NgramData { ngram: "人".to_string(), weights: vec![1, 2] }]);
    assert!(matches!(Predictor::new(model, true), Err(VaporettoError::InvalidModel)));
}

#[test]
fn undecided_boundaries_cannot_be_tokenized() {
    let s = Sentence::from_raw("我ら").unwrap();
    assert!(matches!(s.to_tokenized_vec(), Err(VaporettoError::InvalidInput)));
}

// A one-character sentence has no gaps; prediction leaves no boundaries
// and tagging still decides one tag for the single token.
#[test]
fn single_character_sentence() {
    let p = Predictor::new(tagging_model(), true).unwrap();
    let s = Sentence::from_raw("人").unwrap();
    let s = p.predict(s);
    assert!(s.boundaries().is_empty());
    let s = p.fill_tags(s);
    let tokens = s.to_tokenized_vec().unwrap();
    assert_eq!(tokens.len(), 1);
    assert_eq!(tokens[0].surface, "人");
    // the matching single-character self record lands on the only token
    assert_eq!(tokens[0].tag, Some("C".to_string()));
}

// A predictor built without tag classes hands the sentence back unchanged.
#[test]
fn fill_tags_without_classes_is_a_no_op() {
    let p = Predictor::new(additivity_model(true, true), false).unwrap();
    let s = p.predict(Sentence::from_raw("我らは").unwrap());
    let s = p.fill_tags(s);
    assert!(s.tags().iter().all(|t| t.is_none()));
}
