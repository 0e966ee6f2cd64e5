//! The half-width to full-width character remap applied before
//! tokenization: ASCII letters and digits and a fixed set of punctuation
//! become their full-width forms; every other character stays itself.

use crate::text::chars_of;
use vstd::prelude::*;

verus! {

/// The full-width form of `c`, or `c` itself where the remap does not
/// apply.
pub open spec fn fullwidth_of(c: char) -> char {
    match c {
        'a' => 'ａ',
        'b' => 'ｂ',
        'c' => 'ｃ',
        'd' => 'ｄ',
        'e' => 'ｅ',
        'f' => 'ｆ',
        'g' => 'ｇ',
        'h' => 'ｈ',
        'i' => 'ｉ',
        'j' => 'ｊ',
        'k' => 'ｋ',
        'l' => 'ｌ',
        'm' => 'ｍ',
        'n' => 'ｎ',
        'o' => 'ｏ',
        'p' => 'ｐ',
        'q' => 'ｑ',
        'r' => 'ｒ',
        's' => 'ｓ',
        't' => 'ｔ',
        'u' => 'ｕ',
        'v' => 'ｖ',
        'w' => 'ｗ',
        'x' => 'ｘ',
        'y' => 'ｙ',
        'z' => 'ｚ',
        'A' => 'Ａ',
        'B' => 'Ｂ',
        'C' => 'Ｃ',
        'D' => 'Ｄ',
        'E' => 'Ｅ',
        'F' => 'Ｆ',
        'G' => 'Ｇ',
        'H' => 'Ｈ',
        'I' => 'Ｉ',
        'J' => 'Ｊ',
        'K' => 'Ｋ',
        'L' => 'Ｌ',
        'M' => 'Ｍ',
        'N' => 'Ｎ',
        'O' => 'Ｏ',
        'P' => 'Ｐ',
        'Q' => 'Ｑ',
        'R' => 'Ｒ',
        'S' => 'Ｓ',
        'T' => 'Ｔ',
        'U' => 'Ｕ',
        'V' => 'Ｖ',
        'W' => 'Ｗ',
        'X' => 'Ｘ',
        'Y' => 'Ｙ',
        'Z' => 'Ｚ',
        '0' => '０',
        '1' => '１',
        '2' => '２',
        '3' => '３',
        '4' => '４',
        '5' => '５',
        '6' => '６',
        '7' => '７',
        '8' => '８',
        '9' => '９',
        '(' => '（',
        ')' => '）',
        '{' => '｛',
        '}' => '｝',
        '<' => '＜',
        '>' => '＞',
        '｢' => '「',
        '｣' => '」',
        '[' => '［',
        ']' => '］',
        '-' => '−',
        '～' => '〜',
        '.' => '。',
        '－' => 'ー',
        '/' => '／',
        '_' => '＿',
        ',' => '，',
        '%' => '％',
        '?' => '？',
        '､' => '、',
        '―' => 'ー',
        '"' => '”',
        '\'' => '’',
        '･' => '・',
        '─' => 'ー',
        '+' => '＋',
        ':' => '：',
        '–' => 'ー',
        '!' => '！',
        '｡' => '。',
        '&' => '＆',
        '*' => '＊',
        '@' => '＠',
        '=' => '＝',
        _ => c,
    }
}

/// Remaps one character to its full-width form.
pub fn to_fullwidth(c: char) -> (r: char)
    ensures
        r == fullwidth_of(c),
{
    match c {
        'a' => 'ａ',
        'b' => 'ｂ',
        'c' => 'ｃ',
        'd' => 'ｄ',
        'e' => 'ｅ',
        'f' => 'ｆ',
        'g' => 'ｇ',
        'h' => 'ｈ',
        'i' => 'ｉ',
        'j' => 'ｊ',
        'k' => 'ｋ',
        'l' => 'ｌ',
        'm' => 'ｍ',
        'n' => 'ｎ',
        'o' => 'ｏ',
        'p' => 'ｐ',
        'q' => 'ｑ',
        'r' => 'ｒ',
        's' => 'ｓ',
        't' => 'ｔ',
        'u' => 'ｕ',
        'v' => 'ｖ',
        'w' => 'ｗ',
        'x' => 'ｘ',
        'y' => 'ｙ',
        'z' => 'ｚ',
        'A' => 'Ａ',
        'B' => 'Ｂ',
        'C' => 'Ｃ',
        'D' => 'Ｄ',
        'E' => 'Ｅ',
        'F' => 'Ｆ',
        'G' => 'Ｇ',
        'H' => 'Ｈ',
        'I' => 'Ｉ',
        'J' => 'Ｊ',
        'K' => 'Ｋ',
        'L' => 'Ｌ',
        'M' => 'Ｍ',
        'N' => 'Ｎ',
        'O' => 'Ｏ',
        'P' => 'Ｐ',
        'Q' => 'Ｑ',
        'R' => 'Ｒ',
        'S' => 'Ｓ',
        'T' => 'Ｔ',
        'U' => 'Ｕ',
        'V' => 'Ｖ',
        'W' => 'Ｗ',
        'X' => 'Ｘ',
        'Y' => 'Ｙ',
        'Z' => 'Ｚ',
        '0' => '０',
        '1' => '１',
        '2' => '２',
        '3' => '３',
        '4' => '４',
        '5' => '５',
        '6' => '６',
        '7' => '７',
        '8' => '８',
        '9' => '９',
        '(' => '（',
        ')' => '）',
        '{' => '｛',
        '}' => '｝',
        '<' => '＜',
        '>' => '＞',
        '｢' => '「',
        '｣' => '」',
        '[' => '［',
        ']' => '］',
        '-' => '−',
        '～' => '〜',
        '.' => '。',
        '－' => 'ー',
        '/' => '／',
        '_' => '＿',
        ',' => '，',
        '%' => '％',
        '?' => '？',
        '､' => '、',
        '―' => 'ー',
        '"' => '”',
        '\'' => '’',
        '･' => '・',
        '─' => 'ー',
        '+' => '＋',
        ':' => '：',
        '–' => 'ー',
        '!' => '！',
        '｡' => '。',
        '&' => '＆',
        '*' => '＊',
        '@' => '＠',
        '=' => '＝',
        _ => c,
    }
}

/// Replaces half-width alphanumerics and symbols with their full-width
/// forms, character for character.
pub fn preprocess_kytea_style(text: &str) -> (r: String)
    ensures
        r@.len() == text@.len(),
        forall|i: int| 0 <= i < text@.len() ==> r@[i] == fullwidth_of(text@[i]),
{
    let chars = chars_of(text);
    let mut out = String::new();
    let mut i: usize = 0;
    while i < chars.len()
        invariant
            i <= chars@.len(),
            chars@ == text@,
            out@.len() == i,
            forall|k: int| 0 <= k < i ==> out@[k] == fullwidth_of(text@[k]),
        decreases chars@.len() - i,
    {
        out.push(to_fullwidth(chars[i]));
        i += 1;
    }
    out
}

} // verus!
