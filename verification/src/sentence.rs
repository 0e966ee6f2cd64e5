//! The mutable working buffer of one prediction: characters, their class
//! codes, the boundary labels between them, scratch score vectors, the
//! per-position tag-score matrices and the per-token tags.

use crate::errors::VaporettoError;
use crate::text::{chars_of, string_from_chars};
use vstd::prelude::*;

verus! {

/// The label of one inter-character gap.
#[derive(Clone, Copy, Debug, PartialEq, Eq, Structural)]
pub enum BoundaryType {
    /// The two characters belong to one word.
    NotWordBoundary,
    /// A word ends between the two characters.
    WordBoundary,
    /// Not yet decided.
    Unknown,
}

/// A tag-score contribution that applies only when a pattern occurrence
/// coincides with a whole token: `start_rel_position` is the occurrence's
/// start relative to one past its end (the negated pattern length).
pub struct SelfWeight {
    pub start_rel_position: i32,
    pub weight: Vec<i32>,
}

/// The three per-position tag-score matrices: `left_scores` and
/// `right_scores` are row-major `n x T`, `self_scores` holds one optional
/// list of self-weights per character.
pub struct TagScores {
    pub left_scores: Vec<i32>,
    pub right_scores: Vec<i32>,
    pub self_scores: Vec<Option<Vec<SelfWeight>>>,
}

impl TagScores {
    /// Empty matrices, before any prediction.
    pub fn new() -> (r: Self)
        ensures
            r.left_scores@.len() == 0,
            r.right_scores@.len() == 0,
            r.self_scores@.len() == 0,
    {
        TagScores { left_scores: Vec::new(), right_scores: Vec::new(), self_scores: Vec::new() }
    }

    /// Resets the matrices for `n` characters and `t` tag classes: both
    /// score matrices all zero, no self-weights anywhere.
    pub fn init(&mut self, n: usize, t: usize)
        requires
            n * t <= usize::MAX,
        ensures
            final(self).left_scores@.len() == n * t,
            final(self).right_scores@.len() == n * t,
            final(self).self_scores@.len() == n,
            forall|i: int| 0 <= i < n * t ==> final(self).left_scores@[i] == 0i32,
            forall|i: int| 0 <= i < n * t ==> final(self).right_scores@[i] == 0i32,
            forall|i: int| 0 <= i < n ==> final(self).self_scores@[i] is None,
    {
        let total = n * t;
        self.left_scores = zero_vec(total);
        self.right_scores = zero_vec(total);
        self.self_scores = Vec::new();
        let mut i: usize = 0;
        while i < n
            invariant
                i <= n,
                self.left_scores@.len() == n * t,
                self.right_scores@.len() == n * t,
                forall|k: int| 0 <= k < n * t ==> self.left_scores@[k] == 0i32,
                forall|k: int| 0 <= k < n * t ==> self.right_scores@[k] == 0i32,
                self.self_scores@.len() == i,
                forall|k: int| 0 <= k < i ==> self.self_scores@[k] is None,
            decreases n - i,
        {
            self.self_scores.push(None);
            i += 1;
        }
    }
}

/// A vector of `len` zeros.
pub fn zero_vec(len: usize) -> (r: Vec<i32>)
    ensures
        r@.len() == len,
        forall|i: int| 0 <= i < len ==> r@[i] == 0i32,
{
    let mut v: Vec<i32> = Vec::new();
    let mut i: usize = 0;
    while i < len
        invariant
            i <= len,
            v@.len() == i,
            forall|k: int| 0 <= k < i ==> v@[k] == 0i32,
        decreases len - i,
    {
        v.push(0i32);
        i += 1;
    }
    v
}

/// One token of a tokenized sentence: its surface form and its tag, if one
/// was assigned.
#[derive(Debug, PartialEq, Eq)]
pub struct Token {
    pub surface: String,
    pub tag: Option<String>,
}

/// The class code of a character: `b'D'` digit, `b'R'` roman letter,
/// `b'H'` hiragana, `b'T'` katakana, `b'K'` kanji, `b'O'` other.
pub open spec fn char_type_of(c: char) -> u8 {
    let u = c as u32;
    if (0x30 <= u <= 0x39) || (0xFF10 <= u <= 0xFF19) {
        68u8  // D
    } else if (0x41 <= u <= 0x5A) || (0x61 <= u <= 0x7A) || (0xFF21 <= u <= 0xFF3A) || (0xFF41
        <= u <= 0xFF5A) {
        82u8  // R
    } else if 0x3040 <= u <= 0x309F {
        72u8  // H
    } else if (0x30A0 <= u <= 0x30FF) || (0x31F0 <= u <= 0x31FF) || (0xFF66 <= u <= 0xFF9F) {
        84u8  // T
    } else if (0x3400 <= u <= 0x4DBF) || (0x4E00 <= u <= 0x9FFF) || (0xF900 <= u <= 0xFAFF) {
        75u8  // K
    } else {
        79u8  // O
    }
}

/// Computes the class code of one character.
pub fn char_type(c: char) -> (r: u8)
    ensures
        r == char_type_of(c),
{
    let u = c as u32;
    if (0x30 <= u && u <= 0x39) || (0xFF10 <= u && u <= 0xFF19) {
        68u8
    } else if (0x41 <= u && u <= 0x5A) || (0x61 <= u && u <= 0x7A) || (0xFF21 <= u && u <= 0xFF3A)
        || (0xFF41 <= u && u <= 0xFF5A) {
        82u8
    } else if 0x3040 <= u && u <= 0x309F {
        72u8
    } else if (0x30A0 <= u && u <= 0x30FF) || (0x31F0 <= u && u <= 0x31FF) || (0xFF66 <= u && u
        <= 0xFF9F) {
        84u8
    } else if (0x3400 <= u && u <= 0x4DBF) || (0x4E00 <= u && u <= 0x9FFF) || (0xF900 <= u && u
        <= 0xFAFF) {
        75u8
    } else {
        79u8
    }
}

/// One input sentence with everything a prediction reads and writes.
pub struct Sentence {
    pub chars: Vec<char>,
    pub char_types: Vec<u8>,
    pub boundaries: Vec<BoundaryType>,
    pub boundary_scores: Vec<i32>,
    pub tag_scores: TagScores,
    pub tags: Vec<Option<String>>,
}

/// A pair of one token's characters and its tag slot.
pub type TokenView = (Seq<char>, Option<String>);

/// The index of the last character of the token that starts at `s`: the
/// first position at or after `s` that carries a word boundary, or the last
/// character of the sentence.
pub open spec fn token_end(bounds: Seq<BoundaryType>, n: int, s: int) -> int
    decreases n - s,
{
    if s >= n - 1 {
        n - 1
    } else if bounds[s] == BoundaryType::WordBoundary {
        s
    } else {
        token_end(bounds, n, s + 1)
    }
}

/// The tokens of the suffix of the sentence that starts at character `s`,
/// as (characters, tag) pairs.
pub open spec fn tokens_from(
    chars: Seq<char>,
    bounds: Seq<BoundaryType>,
    tags: Seq<Option<String>>,
    s: int,
) -> Seq<TokenView>
    decreases chars.len() - s,
{
    let n = chars.len() as int;
    if s < 0 || s >= n {
        Seq::empty()
    } else {
        let e = token_end(bounds, n, s);
        if e < s || e >= n {
            Seq::empty()
        } else {
            seq![(chars.subrange(s, e + 1), tags[e])] + tokens_from(chars, bounds, tags, e + 1)
        }
    }
}

impl Sentence {
    /// Shape invariant: one class code and one tag slot per character, one
    /// boundary label per gap, class codes computed from the characters.
    pub open spec fn wf(&self) -> bool {
        &&& self.chars@.len() >= 1
        &&& self.char_types@.len() == self.chars@.len()
        &&& self.boundaries@.len() == self.chars@.len() - 1
        &&& self.tags@.len() == self.chars@.len()
        &&& forall|i: int|
            0 <= i < self.chars@.len() ==> self.char_types@[i] == char_type_of(self.chars@[i])
    }

    /// Builds a sentence from raw text. Fails exactly on empty text.
    pub fn from_raw(raw: &str) -> (r: Result<Sentence, VaporettoError>)
        ensures
            r is Ok <==> raw@.len() >= 1,
            r matches Ok(s) ==> {
                &&& s.wf()
                &&& s.chars@ == raw@
                &&& s.boundary_scores@.len() == 0
                &&& forall|i: int|
                    0 <= i < s.boundaries@.len() ==> s.boundaries@[i] == BoundaryType::Unknown
                &&& forall|i: int| 0 <= i < s.tags@.len() ==> s.tags@[i] is None
            },
            r is Err ==> r == Result::<Sentence, VaporettoError>::Err(VaporettoError::InvalidInput),
    {
        let chars = chars_of(raw);
        let n = chars.len();
        if n == 0 {
            return Err(VaporettoError::InvalidInput);
        }
        let mut char_types: Vec<u8> = Vec::new();
        let mut i: usize = 0;
        while i < n
            invariant
                i <= n,
                n == chars@.len(),
                char_types@.len() == i,
                forall|k: int| 0 <= k < i ==> char_types@[k] == char_type_of(chars@[k]),
            decreases n - i,
        {
            let t = char_type(chars[i]);
            char_types.push(t);
            i += 1;
        }
        let mut boundaries: Vec<BoundaryType> = Vec::new();
        let mut j: usize = 0;
        while j < n - 1
            invariant
                j <= n - 1,
                n >= 1,
                boundaries@.len() == j,
                forall|k: int| 0 <= k < j ==> boundaries@[k] == BoundaryType::Unknown,
            decreases n - 1 - j,
        {
            boundaries.push(BoundaryType::Unknown);
            j += 1;
        }
        let mut tags: Vec<Option<String>> = Vec::new();
        let mut k: usize = 0;
        while k < n
            invariant
                k <= n,
                tags@.len() == k,
                forall|q: int| 0 <= q < k ==> tags@[q] is None,
            decreases n - k,
        {
            tags.push(None);
            k += 1;
        }
        Ok(
            Sentence {
                chars,
                char_types,
                boundaries,
                boundary_scores: Vec::new(),
                tag_scores: TagScores::new(),
                tags,
            },
        )
    }

    /// The characters of the sentence.
    pub fn chars(&self) -> (r: &Vec<char>)
        ensures
            r@ == self.chars@,
    {
        &self.chars
    }

    /// The boundary labels, one per gap.
    pub fn boundaries(&self) -> (r: &Vec<BoundaryType>)
        ensures
            r@ == self.boundaries@,
    {
        &self.boundaries
    }

    /// Mutable access to the boundary labels, for boundary post-processing
    /// between prediction and tagging.
    pub fn boundaries_mut(&mut self) -> (r: &mut Vec<BoundaryType>)
        ensures
            *r == old(self).boundaries,
            final(self).boundaries == *final(r),
            final(self).chars == old(self).chars,
            final(self).char_types == old(self).char_types,
            final(self).boundary_scores == old(self).boundary_scores,
            final(self).tag_scores == old(self).tag_scores,
            final(self).tags == old(self).tags,
    {
        &mut self.boundaries
    }

    /// The boundary scores left by `predict_with_score`, one per gap.
    pub fn boundary_scores(&self) -> (r: &Vec<i32>)
        ensures
            r@ == self.boundary_scores@,
    {
        &self.boundary_scores
    }

    /// The per-character tag slots filled by `fill_tags`.
    pub fn tags(&self) -> (r: &Vec<Option<String>>)
        ensures
            r@ == self.tags@,
    {
        &self.tags
    }

    /// The tokens induced by the boundary labels, with their tags. Fails
    /// exactly when some boundary is still `Unknown`.
    pub fn to_tokenized_vec(&self) -> (r: Result<Vec<Token>, VaporettoError>)
        requires
            self.wf(),
        ensures
            r is Ok <==> forall|i: int|
                0 <= i < self.boundaries@.len() ==> self.boundaries@[i] != BoundaryType::Unknown,
            r matches Ok(v) ==> token_views(v@) == tokens_from(
                self.chars@,
                self.boundaries@,
                self.tags@,
                0,
            ),
            r is Err ==> r == Result::<Vec<Token>, VaporettoError>::Err(VaporettoError::InvalidInput),
    {
        let n = self.chars.len();
        let mut i: usize = 0;
        while i < n - 1
            invariant
                self.wf(),
                n == self.chars@.len(),
                i <= n - 1,
                forall|k: int| 0 <= k < i ==> self.boundaries@[k] != BoundaryType::Unknown,
            decreases n - 1 - i,
        {
            if matches!(self.boundaries[i], BoundaryType::Unknown) {
                return Err(VaporettoError::InvalidInput);
            }
            i += 1;
        }
        let mut out: Vec<Token> = Vec::new();
        let mut start: usize = 0;
        let ghost all = tokens_from(self.chars@, self.boundaries@, self.tags@, 0);
        let mut pos: usize = 0;
        while pos < n
            invariant
                self.wf(),
                n == self.chars@.len(),
                start <= pos <= n,
                pos == n ==> start == n,
                token_views(out@) + tokens_from(self.chars@, self.boundaries@, self.tags@, start as int)
                    == all,
                forall|q: int| start <= q < pos ==> self.boundaries@[q] != BoundaryType::WordBoundary,
            decreases n - pos,
        {
            let is_end = pos == n - 1 || self.boundaries[pos] == BoundaryType::WordBoundary;
            if is_end {
                let mut piece: Vec<char> = Vec::new();
                let mut q: usize = start;
                while q <= pos
                    invariant
                        start <= q <= pos + 1,
                        pos < n,
                        n == self.chars@.len(),
                        piece@ == self.chars@.subrange(start as int, q as int),
                    decreases pos + 1 - q,
                {
                    piece.push(self.chars[q]);
                    proof {
                        assert(piece@ =~= self.chars@.subrange(start as int, q + 1));
                    }
                    q += 1;
                }
                let surface = string_from_chars(&piece);
                let tag = clone_tag(&self.tags[pos]);
                proof {
                    lemma_token_end_scan(self.boundaries@, n as int, start as int, pos as int);
                }
                let ghost views_before = token_views(out@);
                out.push(Token { surface, tag });
                proof {
                    assert(token_views(out@) =~= views_before + seq![
                        (self.chars@.subrange(start as int, pos + 1), self.tags@[pos as int]),
                    ]);
                }
                start = pos + 1;
            }
            pos += 1;
        }
        proof {
            assert(token_views(out@) =~= all);
        }
        Ok(out)
    }
}

/// The (characters, tag) views of a sequence of tokens.
pub open spec fn token_views(done: Seq<Token>) -> Seq<TokenView> {
    Seq::new(done.len(), |k: int| (done[k].surface@, done[k].tag))
}

/// Clones one tag slot.
fn clone_tag(t: &Option<String>) -> (r: Option<String>)
    ensures
        r == *t,
{
    match t {
        Some(s) => Some(s.clone()),
        None => None,
    }
}

/// If no gap in `[s, i)` is a word boundary and `i` is the sentence's last
/// character or carries one, then the token starting at `s` ends at `i`.
pub proof fn lemma_token_end_scan(bounds: Seq<BoundaryType>, n: int, s: int, i: int)
    requires
        0 <= s <= i < n,
        n - 1 <= bounds.len(),
        forall|j: int| s <= j < i ==> bounds[j] != BoundaryType::WordBoundary,
        i == n - 1 || bounds[i] == BoundaryType::WordBoundary,
    ensures
        token_end(bounds, n, s) == i,
    decreases i - s,
{
    if s < i {
        lemma_token_end_scan(bounds, n, s + 1, i);
    }
}

} // verus!
