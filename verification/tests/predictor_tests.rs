use vaporetto::{
    BoundaryType, DictModel, DictWeight, Model, NgramData, NgramModel, Predictor, Sentence,
    TagClassInfo, TagModel, Token, WordWeightRecord,
};

fn generate_model_1() -> Model {
    Model {
        char_ngram_model: NgramModel::new(vec![
            NgramData { ngram: "我ら".to_string(), weights: vec![1, 2, 3, 4, 5] },
            NgramData { ngram: "全世界".to_string(), weights: vec![6, 7, 8, 9] },
            NgramData { ngram: "国民".to_string(), weights: vec![10, 11, 12, 13, 14] },
            NgramData { ngram: "世界".to_string(), weights: vec![15, 16, 17, 18, 19] },
            NgramData { ngram: "界".to_string(), weights: vec![20, 21, 22, 23, 24, 25] },
        ]),
        type_ngram_model: NgramModel::new(vec![
            NgramData { ngram: b"H".to_vec(), weights: vec![26, 27, 28, 29] },
            NgramData { ngram: b"K".to_vec(), weights: vec![30, 31, 32, 33] },
            NgramData { ngram: b"KH".to_vec(), weights: vec![34, 35, 36] },
            NgramData { ngram: b"HK".to_vec(), weights: vec![37, 38, 39] },
        ]),
        dict_model: DictModel {
            dict: vec![
                WordWeightRecord {
                    word: "全世界".to_string(),
                    weights: DictWeight { right: 43, inside: 44, left: 45 },
                    comment: "".to_string(),
                },
                WordWeightRecord {
                    word: "世界".to_string(),
                    weights: DictWeight { right: 43, inside: 44, left: 45 },
                    comment: "".to_string(),
                },
                WordWeightRecord {
                    word: "世".to_string(),
                    weights: DictWeight { right: 40, inside: 41, left: 42 },
                    comment: "".to_string(),
                },
            ],
        },
        bias: -200,
        char_window_size: 3,
        type_window_size: 2,
        tag_model: TagModel::default(),
    }
}

fn generate_model_2() -> Model {
    Model {
        char_ngram_model: NgramModel::new(vec![
            NgramData { ngram: "我ら".to_string(), weights: vec![1, 2, 3] },
            NgramData { ngram: "全世界".to_string(), weights: vec![4, 5] },
            NgramData { ngram: "国民".to_string(), weights: vec![6, 7, 8] },
            NgramData { ngram: "世界".to_string(), weights: vec![9, 10, 11] },
            NgramData { ngram: "界".to_string(), weights: vec![12, 13, 14, 15] },
        ]),
        type_ngram_model: NgramModel::new(vec![
            NgramData { ngram: b"H".to_vec(), weights: vec![16, 17, 18, 19, 20, 21] },
            NgramData { ngram: b"K".to_vec(), weights: vec![22, 23, 24, 25, 26, 27] },
            NgramData { ngram: b"KH".to_vec(), weights: vec![28, 29, 30, 31, 32] },
            NgramData { ngram: b"HK".to_vec(), weights: vec![33, 34, 35, 36, 37] },
        ]),
        dict_model: DictModel {
            dict: vec![
                WordWeightRecord {
                    word: "全世界".to_string(),
                    weights: DictWeight { right: 44, inside: 45, left: 46 },
                    comment: "".to_string(),
                },
                WordWeightRecord {
                    word: "世界".to_string(),
                    weights: DictWeight { right: 41, inside: 42, left: 43 },
                    comment: "".to_string(),
                },
                WordWeightRecord {
                    word: "世".to_string(),
                    weights: DictWeight { right: 38, inside: 39, left: 40 },
                    comment: "".to_string(),
                },
            ],
        },
        bias: -285,
        char_window_size: 2,
        type_window_size: 3,
        tag_model: TagModel::default(),
    }
}

fn generate_model_3() -> Model {
    Model {
        char_ngram_model: NgramModel::new(vec![
            NgramData { ngram: "我ら".to_string(), weights: vec![1, 2, 3] },
            NgramData { ngram: "全世界".to_string(), weights: vec![4, 5] },
            NgramData { ngram: "国民".to_string(), weights: vec![6, 7, 8] },
            NgramData { ngram: "世界".to_string(), weights: vec![9, 10, 11] },
            NgramData { ngram: "界".to_string(), weights: vec![12, 13, 14, 15] },
        ]),
        type_ngram_model: NgramModel::new(vec![
            NgramData { ngram: b"H".to_vec(), weights: vec![16, 17, 18, 19, 20, 21] },
            NgramData { ngram: b"K".to_vec(), weights: vec![22, 23, 24, 25, 26, 27] },
            NgramData { ngram: b"KH".to_vec(), weights: vec![28, 29, 30, 31, 32] },
            NgramData { ngram: b"HK".to_vec(), weights: vec![33, 34, 35, 36, 37] },
        ]),
        dict_model: DictModel {
            dict: vec![
                WordWeightRecord {
                    word: "国民".to_string(),
                    weights: DictWeight { right: 38, inside: 39, left: 40 },
                    comment: "".to_string(),
                },
                WordWeightRecord {
                    word: "世界".to_string(),
                    weights: DictWeight { right: 41, inside: 42, left: 43 },
                    comment: "".to_string(),
                },
                WordWeightRecord {
                    word: "世".to_string(),
                    weights: DictWeight { right: 44, inside: 45, left: 46 },
                    comment: "".to_string(),
                },
            ],
        },
        bias: -285,
        char_window_size: 2,
        type_window_size: 3,
        tag_model: TagModel::default(),
    }
}

fn generate_model_4() -> Model {
    Model {
        char_ngram_model: NgramModel::new(vec![
            NgramData { ngram: "我ら".to_string(), weights: vec![1, 2, 3, 4, 5] },
            NgramData { ngram: "全世界".to_string(), weights: vec![6, 7, 8, 9] },
            NgramData { ngram: "国民".to_string(), weights: vec![10, 11, 12, 13, 14] },
            NgramData { ngram: "世界".to_string(), weights: vec![15, 16, 17, 18, 19] },
            NgramData { ngram: "界".to_string(), weights: vec![20, 21, 22, 23, 24, 25] },
        ]),
        type_ngram_model: NgramModel::new(vec![
            NgramData { ngram: b"H".to_vec(), weights: vec![26, 27, 28, 29] },
            NgramData { ngram: b"K".to_vec(), weights: vec![30, 31, 32, 33] },
            NgramData { ngram: b"KH".to_vec(), weights: vec![34, 35, 36] },
            NgramData { ngram: b"HK".to_vec(), weights: vec![37, 38, 39] },
        ]),
        dict_model: DictModel {
            dict: vec![
                WordWeightRecord {
                    word: "全世界".to_string(),
                    weights: DictWeight { right: 43, inside: 44, left: 45 },
                    comment: "".to_string(),
                },
                WordWeightRecord {
                    word: "世界".to_string(),
                    weights: DictWeight { right: 43, inside: 44, left: 45 },
                    comment: "".to_string(),
                },
                WordWeightRecord {
                    word: "世".to_string(),
                    weights: DictWeight { right: 40, inside: 41, left: 42 },
                    comment: "".to_string(),
                },
                WordWeightRecord {
                    word: "世界の国民".to_string(),
                    weights: DictWeight { right: 43, inside: 44, left: 45 },
                    comment: "".to_string(),
                },
                WordWeightRecord {
                    word: "は全世界".to_string(),
                    weights: DictWeight { right: 43, inside: 44, left: 45 },
                    comment: "".to_string(),
                },
            ],
        },
        bias: -200,
        char_window_size: 3,
        type_window_size: 2,
        tag_model: TagModel::default(),
    }
}

fn generate_model_5() -> Model {
    Model {
        char_ngram_model: NgramModel::new(vec![NgramData {
            ngram: "xxxx".to_string(),
            weights: vec![0],
        }]),
        type_ngram_model: NgramModel::new(vec![NgramData {
            ngram: b"RRRR".to_vec(),
            weights: vec![0],
        }]),
        dict_model: DictModel { dict: vec![] },
        bias: 0,
        char_window_size: 2,
        type_window_size: 2,
        tag_model: TagModel {
            class_info: vec![
                TagClassInfo { name: "名詞".to_string(), bias: 5 },
                TagClassInfo { name: "動詞".to_string(), bias: 3 },
                TagClassInfo { name: "助詞".to_string(), bias: 1 },
            ],
            left_char_model: NgramModel::new(vec![
                NgramData { ngram: "\0人".to_string(), weights: vec![1, 2, 3, 4, 5, 6] },
                NgramData { ngram: "人".to_string(), weights: vec![7, 8, 9, 10, 11, 12] },
                NgramData {
                    ngram: "つなぐ".to_string(),
                    weights: vec![13, 14, 15, 16, 17, 18, 19, 20, 21],
                },
                NgramData { ngram: "ぐ人\0".to_string(), weights: vec![22, 23, 24] },
            ]),
            right_char_model: NgramModel::new(vec![
                NgramData { ngram: "\0人と".to_string(), weights: vec![25, 26, 27, 28, 29, 30] },
                NgramData {
                    ngram: "人を".to_string(),
                    weights: vec![31, 32, 33, 34, 35, 36, 37, 38, 39],
                },
                NgramData { ngram: "を".to_string(), weights: vec![40, 41, 42, 43, 44, 45] },
                NgramData { ngram: "人\0".to_string(), weights: vec![46, 47, 48, 49, 50, 51] },
            ]),
            self_char_model: NgramModel::new(vec![
                NgramData { ngram: "人".to_string(), weights: vec![2, -1, -1] },
                NgramData { ngram: "と".to_string(), weights: vec![0, 0, 0] },
                NgramData { ngram: "つなぐ".to_string(), weights: vec![0, 1, 0] },
                NgramData { ngram: "を".to_string(), weights: vec![0, 0, 0] },
            ]),
        },
    }
}

#[test]
fn test_predict_1() {
    let model = generate_model_1();
    let p = Predictor::new(model, false).unwrap();
    let s = Sentence::from_raw("我らは全世界の国民").unwrap();
    let s = p.predict(s);
    assert_eq!(
        [
            BoundaryType::NotWordBoundary,
            BoundaryType::NotWordBoundary,
            BoundaryType::WordBoundary,
            BoundaryType::WordBoundary,
            BoundaryType::WordBoundary,
            BoundaryType::WordBoundary,
            BoundaryType::WordBoundary,
            BoundaryType::NotWordBoundary,
        ]
        .as_slice(),
        s.boundaries().as_slice(),
    );
}

#[test]
fn test_predict_2() {
    let model = generate_model_2();
    let p = Predictor::new(model, false).unwrap();
    let s = Sentence::from_raw("我らは全世界の国民").unwrap();
    let s = p.predict(s);
    assert_eq!(
        [
            BoundaryType::NotWordBoundary,
            BoundaryType::NotWordBoundary,
            BoundaryType::NotWordBoundary,
            BoundaryType::WordBoundary,
            BoundaryType::WordBoundary,
            BoundaryType::WordBoundary,
            BoundaryType::NotWordBoundary,
            BoundaryType::NotWordBoundary,
        ]
        .as_slice(),
        s.boundaries().as_slice(),
    );
}

#[test]
fn test_predict_3() {
    let model = generate_model_3();
    let p = Predictor::new(model, false).unwrap();
    let s = Sentence::from_raw("我らは全世界の国民").unwrap();
    let s = p.predict(s);
    assert_eq!(
        [
            BoundaryType::NotWordBoundary,
            BoundaryType::NotWordBoundary,
            BoundaryType::NotWordBoundary,
            BoundaryType::WordBoundary,
            BoundaryType::WordBoundary,
            BoundaryType::NotWordBoundary,
            BoundaryType::NotWordBoundary,
            BoundaryType::NotWordBoundary,
        ]
        .as_slice(),
        s.boundaries().as_slice(),
    );
}

#[test]
fn test_predict_4() {
    let model = generate_model_4();
    let p = Predictor::new(model, false).unwrap();
    let s = Sentence::from_raw("我らは全世界の国民").unwrap();
    let s = p.predict(s);
    assert_eq!(
        [
            BoundaryType::NotWordBoundary,
            BoundaryType::WordBoundary,
            BoundaryType::WordBoundary,
            BoundaryType::WordBoundary,
            BoundaryType::WordBoundary,
            BoundaryType::WordBoundary,
            BoundaryType::WordBoundary,
            BoundaryType::WordBoundary,
        ]
        .as_slice(),
        s.boundaries().as_slice(),
    );
}

#[test]
fn test_predict_with_score_1() {
    let model = generate_model_1();
    let p = Predictor::new(model, false).unwrap();
    let s = Sentence::from_raw("我らは全世界の国民").unwrap();
    let s = p.predict_with_score(s);
    assert_eq!(
        [-77, -5, 45, 132, 133, 144, 50, -32].as_slice(),
        s.boundary_scores().as_slice(),
    );
    assert_eq!(
        [
            BoundaryType::NotWordBoundary,
            BoundaryType::NotWordBoundary,
            BoundaryType::WordBoundary,
            BoundaryType::WordBoundary,
            BoundaryType::WordBoundary,
            BoundaryType::WordBoundary,
            BoundaryType::WordBoundary,
            BoundaryType::NotWordBoundary,
        ]
        .as_slice(),
        s.boundaries().as_slice(),
    );
}

#[test]
fn test_predict_with_score_2() {
    let model = generate_model_2();
    let p = Predictor::new(model, false).unwrap();
    let s = Sentence::from_raw("我らは全世界の国民").unwrap();
    let s = p.predict_with_score(s);
    assert_eq!(
        [-138, -109, -39, 57, 104, 34, -79, -114].as_slice(),
        s.boundary_scores().as_slice(),
    );
    assert_eq!(
        [
            BoundaryType::NotWordBoundary,
            BoundaryType::NotWordBoundary,
            BoundaryType::NotWordBoundary,
            BoundaryType::WordBoundary,
            BoundaryType::WordBoundary,
            BoundaryType::WordBoundary,
            BoundaryType::NotWordBoundary,
            BoundaryType::NotWordBoundary,
        ]
        .as_slice(),
        s.boundaries().as_slice(),
    );
}

#[test]
fn test_predict_with_score_3() {
    let model = generate_model_3();
    let p = Predictor::new(model, false).unwrap();
    let s = Sentence::from_raw("我らは全世界の国民").unwrap();
    let s = p.predict_with_score(s);
    assert_eq!(
        [-138, -109, -83, 18, 65, -12, -41, -75].as_slice(),
        s.boundary_scores().as_slice(),
    );
    assert_eq!(
        [
            BoundaryType::NotWordBoundary,
            BoundaryType::NotWordBoundary,
            BoundaryType::NotWordBoundary,
            BoundaryType::WordBoundary,
            BoundaryType::WordBoundary,
            BoundaryType::NotWordBoundary,
            BoundaryType::NotWordBoundary,
            BoundaryType::NotWordBoundary,
        ]
        .as_slice(),
        s.boundaries().as_slice(),
    );
}

#[test]
fn test_predict_with_score_4() {
    let model = generate_model_4();
    let p = Predictor::new(model, false).unwrap();
    let s = Sentence::from_raw("我らは全世界の国民").unwrap();
    let s = p.predict_with_score(s);
    assert_eq!(
        [-77, 38, 89, 219, 221, 233, 94, 12].as_slice(),
        s.boundary_scores().as_slice(),
    );
    assert_eq!(
        [
            BoundaryType::NotWordBoundary,
            BoundaryType::WordBoundary,
            BoundaryType::WordBoundary,
            BoundaryType::WordBoundary,
            BoundaryType::WordBoundary,
            BoundaryType::WordBoundary,
            BoundaryType::WordBoundary,
            BoundaryType::WordBoundary,
        ]
        .as_slice(),
        s.boundaries().as_slice(),
    );
}

#[test]
fn test_predict_with_score_5() {
    let model = generate_model_5();
    let p = Predictor::new(model, true).unwrap();
    let s = Sentence::from_raw("人と人をつなぐ人").unwrap();
    let mut s = p.predict(s);
    assert_eq!(
        [
            1, 2, 3, 11, 13, 15, 10, 11, 12, 7, 8, 9, 10, 11, 12, 13, 14, 15, 16, 17, 18, 41, 43,
            45
        ]
        .as_slice(),
        s.tag_scores.left_scores.as_slice()
    );
    assert_eq!(
        [
            28, 29, 30, 71, 73, 75, 77, 79, 81, 37, 38, 39, 0, 0, 0, 0, 0, 0, 46, 47, 48, 49, 50,
            51
        ]
        .as_slice(),
        s.tag_scores.right_scores.as_slice()
    );

    s.boundaries_mut().copy_from_slice(&[
        BoundaryType::WordBoundary,
        BoundaryType::WordBoundary,
        BoundaryType::WordBoundary,
        BoundaryType::WordBoundary,
        BoundaryType::NotWordBoundary,
        BoundaryType::NotWordBoundary,
        BoundaryType::WordBoundary,
    ]);
    let s = p.fill_tags(s);

    assert_eq!(
        vec![
            Token { surface: "人".to_string(), tag: Some("名詞".to_string()) },
            Token { surface: "と".to_string(), tag: Some("助詞".to_string()) },
            Token { surface: "人".to_string(), tag: Some("名詞".to_string()) },
            Token { surface: "を".to_string(), tag: Some("助詞".to_string()) },
            Token { surface: "つなぐ".to_string(), tag: Some("動詞".to_string()) },
            Token { surface: "人".to_string(), tag: Some("名詞".to_string()) },
        ],
        s.to_tokenized_vec().unwrap(),
    );
}
