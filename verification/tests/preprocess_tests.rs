use vaporetto::{preprocess_kytea_style, KyteaFullwidthFilter};

#[test]
fn ascii_letters_and_digits_become_fullwidth() {
    assert_eq!(preprocess_kytea_style("abcXYZ09"), "ａｂｃＸＹＺ０９");
}

#[test]
fn punctuation_is_remapped() {
    assert_eq!(preprocess_kytea_style("(?)-.,%!"), "（？）−。，％！");
}

#[test]
fn unmapped_characters_stay_themselves() {
    assert_eq!(preprocess_kytea_style("漢あカ ﾃ"), "漢あカ ﾃ");
}

#[test]
fn empty_string_stays_empty() {
    assert_eq!(preprocess_kytea_style(""), "");
}

#[test]
fn filter_matches_preprocess() {
    let f = KyteaFullwidthFilter::default();
    assert_eq!(f.filter("a1?漢"), preprocess_kytea_style("a1?漢"));
    assert_eq!(f.filter("mixed 混在 text!"), "ｍｉｘｅｄ 混在 ｔｅｘｔ！");
}
