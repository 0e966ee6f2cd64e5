//! Character n-gram scorer, which also owns the dictionary scorer, and its
//! tag-scoring extension.

use crate::errors::VaporettoError;
use crate::model::{DictModel, DictWeight, NgramData, NgramModel};
use crate::scores::{
    add_dict_scores, add_ngram_scores_chars, dict_sum, lemma_wrap32_add, ngrams_sum, wrap32,
};
use crate::sentence::TagScores;
use crate::tag_sums::{
    add_left_scores, add_right_scores, cell, collect_self_records, left_cells_sum,
    right_cells_sum, self_records, self_views,
};
use crate::text::{chars_of, copy_weights};
use vstd::prelude::*;

verus! {

/// Width of the trailing guard region of the padded score buffer, in slots.
pub const SIMD_SIZE: usize = 8;

/// Scores boundaries from character n-grams and dictionary words.
pub struct CharScorer {
    pub ngram_pats: Vec<Vec<char>>,
    pub ngram_weights: Vec<Vec<i32>>,
    pub window_size: usize,
    pub dict_words: Vec<Vec<char>>,
    pub dict_weights: Vec<DictWeight>,
}

/// A character n-gram model and dictionary are accepted exactly when every
/// pattern and every word is non-empty.
pub open spec fn char_model_valid(model: NgramModel<String>, dict: DictModel) -> bool {
    &&& forall|k: int| 0 <= k < model.data@.len() ==> #[trigger] model.data@[k].ngram@.len() >= 1
    &&& forall|k: int| 0 <= k < dict.dict@.len() ==> #[trigger] dict.dict@[k].word@.len() >= 1
}

impl CharScorer {
    /// Pattern and weight lists in step.
    pub open spec fn wf(&self) -> bool {
        &&& self.ngram_pats@.len() == self.ngram_weights@.len()
        &&& self.dict_words@.len() == self.dict_weights@.len()
    }

    /// The total character-n-gram and dictionary contribution to gap `g`.
    pub open spec fn gap_sum(&self, chars: Seq<char>, g: int) -> int {
        ngrams_sum(
            self.ngram_pats@,
            self.ngram_weights@,
            chars,
            self.window_size as int,
            g,
            self.ngram_pats@.len() as int,
        ) + dict_sum(self.dict_words@, self.dict_weights@, chars, g, self.dict_words@.len() as int)
    }

    /// Builds the scorer. Fails exactly when some pattern or word is empty.
    pub fn new(model: NgramModel<String>, window_size: usize, dict_model: DictModel) -> (r: Result<
        CharScorer,
        VaporettoError,
    >)
        ensures
            r is Ok <==> char_model_valid(model, dict_model),
            r matches Ok(s) ==> {
                &&& s.wf()
                &&& s.window_size == window_size
                &&& s.ngram_pats@.len() == model.data@.len()
                &&& forall|k: int|
                    0 <= k < model.data@.len() ==> (#[trigger] s.ngram_pats@[k])@
                        == model.data@[k].ngram@ && s.ngram_weights@[k]@ == model.data@[k].weights@
                &&& s.dict_words@.len() == dict_model.dict@.len()
                &&& forall|k: int|
                    0 <= k < dict_model.dict@.len() ==> (#[trigger] s.dict_words@[k])@
                        == dict_model.dict@[k].word@ && s.dict_weights@[k]
                        == dict_model.dict@[k].weights
            },
            r is Err ==> r == Result::<CharScorer, VaporettoError>::Err(VaporettoError::InvalidModel),
    {
        let mut ngram_pats: Vec<Vec<char>> = Vec::new();
        let mut ngram_weights: Vec<Vec<i32>> = Vec::new();
        let mut k: usize = 0;
        while k < model.data.len()
            invariant
                k <= model.data@.len(),
                ngram_pats@.len() == k,
                ngram_weights@.len() == k,
                forall|j: int|
                    0 <= j < k ==> (#[trigger] ngram_pats@[j])@ == model.data@[j].ngram@
                        && ngram_weights@[j]@ == model.data@[j].weights@,
                forall|j: int| 0 <= j < k ==> #[trigger] model.data@[j].ngram@.len() >= 1,
            decreases model.data@.len() - k,
        {
            let d = &model.data[k];
            let pat = chars_of(d.ngram.as_str());
            if pat.len() == 0 {
                return Err(VaporettoError::InvalidModel);
            }
            ngram_pats.push(pat);
            ngram_weights.push(copy_weights(&d.weights));
            k += 1;
        }
        let mut dict_words: Vec<Vec<char>> = Vec::new();
        let mut dict_weights: Vec<DictWeight> = Vec::new();
        let mut q: usize = 0;
        while q < dict_model.dict.len()
            invariant
                q <= dict_model.dict@.len(),
                dict_words@.len() == q,
                dict_weights@.len() == q,
                forall|j: int|
                    0 <= j < q ==> (#[trigger] dict_words@[j])@ == dict_model.dict@[j].word@
                        && dict_weights@[j] == dict_model.dict@[j].weights,
                forall|j: int| 0 <= j < q ==> #[trigger] dict_model.dict@[j].word@.len() >= 1,
            decreases dict_model.dict@.len() - q,
        {
            let rec = &dict_model.dict[q];
            let word = chars_of(rec.word.as_str());
            if word.len() == 0 {
                return Err(VaporettoError::InvalidModel);
            }
            dict_words.push(word);
            dict_weights.push(rec.weights);
            q += 1;
        }
        Ok(CharScorer { ngram_pats, ngram_weights, window_size, dict_words, dict_weights })
    }

    /// Adds the character-n-gram and dictionary contributions into the
    /// padded score buffer.
    pub fn add_scores(&self, chars: &Vec<char>, padding: usize, ys: &mut Vec<i32>)
        requires
            self.wf(),
            self.window_size <= padding,
            padding + chars@.len() <= usize::MAX,
        ensures
            final(ys)@.len() == old(ys)@.len(),
            forall|t: int|
                0 <= t < old(ys)@.len() ==> final(ys)@[t] as int == wrap32(
                    old(ys)@[t] + self.gap_sum(chars@, t - padding),
                ),
    {
        let ghost orig = ys@;
        add_ngram_scores_chars(
            &self.ngram_pats,
            &self.ngram_weights,
            chars,
            self.window_size,
            padding,
            ys,
        );
        let ghost mid = ys@;
        add_dict_scores(&self.dict_words, &self.dict_weights, chars, padding, ys);
        proof {
            assert forall|t: int| 0 <= t < orig.len() implies ys@[t] as int == wrap32(
                orig[t] + self.gap_sum(chars@, t - padding),
            ) by {
                let a = ngrams_sum(
                    self.ngram_pats@,
                    self.ngram_weights@,
                    chars@,
                    self.window_size as int,
                    t - padding,
                    self.ngram_pats@.len() as int,
                );
                let b = dict_sum(
                    self.dict_words@,
                    self.dict_weights@,
                    chars@,
                    t - padding,
                    self.dict_words@.len() as int,
                );
                assert(mid[t] as int == wrap32(orig[t] + a));
                assert(ys@[t] as int == wrap32(mid[t] + b));
                lemma_wrap32_add(orig[t] + a, b);
            }
        }
    }
}

/// The padded haystack the tag models match against: the characters with a
/// sentinel at each end.
pub open spec fn padded(chars: Seq<char>) -> Seq<char> {
    seq!['\0'] + chars + seq!['\0']
}

/// A tag n-gram family is accepted exactly when every pattern is non-empty
/// and every weight vector holds the required number of weights: full rows
/// of `n_tags` when `exact` is false, exactly `n_tags` when it is true.
pub open spec fn tag_family_valid(data: Seq<NgramData<String>>, n_tags: int, exact: bool) -> bool {
    forall|k: int|
        0 <= k < data.len() ==> (#[trigger] data[k].ngram@.len()) >= 1 && (if exact {
            data[k].weights@.len() == n_tags
        } else {
            (data[k].weights@.len() as int) % n_tags == 0
        })
}

/// Converts one tag n-gram family to pattern and weight lists, validating
/// it as `tag_family_valid` asks.
fn convert_tag_family(model: &NgramModel<String>, n_tags: usize, exact: bool) -> (r: Result<
    (Vec<Vec<char>>, Vec<Vec<i32>>),
    VaporettoError,
>)
    requires
        n_tags >= 1,
    ensures
        r is Ok <==> tag_family_valid(model.data@, n_tags as int, exact),
        r matches Ok(pair) ==> {
            &&& pair.0@.len() == model.data@.len()
            &&& pair.1@.len() == model.data@.len()
            &&& forall|k: int|
                0 <= k < model.data@.len() ==> (#[trigger] pair.0@[k])@ == model.data@[k].ngram@
                    && pair.1@[k]@ == model.data@[k].weights@
        },
        r is Err ==> r == Result::<(Vec<Vec<char>>, Vec<Vec<i32>>), VaporettoError>::Err(
            VaporettoError::InvalidModel,
        ),
{
    let mut pats: Vec<Vec<char>> = Vec::new();
    let mut ws: Vec<Vec<i32>> = Vec::new();
    let mut k: usize = 0;
    while k < model.data.len()
        invariant
            k <= model.data@.len(),
            n_tags >= 1,
            pats@.len() == k,
            ws@.len() == k,
            forall|j: int|
                0 <= j < k ==> (#[trigger] pats@[j])@ == model.data@[j].ngram@ && ws@[j]@
                    == model.data@[j].weights@,
            forall|j: int|
                0 <= j < k ==> (#[trigger] model.data@[j].ngram@.len()) >= 1 && (if exact {
                    model.data@[j].weights@.len() == n_tags as int
                } else {
                    (model.data@[j].weights@.len() as int) % (n_tags as int) == 0
                }),
        decreases model.data@.len() - k,
    {
        let d = &model.data[k];
        let pat = chars_of(d.ngram.as_str());
        if pat.len() == 0 {
            return Err(VaporettoError::InvalidModel);
        }
        let ok = if exact {
            d.weights.len() == n_tags
        } else {
            d.weights.len() % n_tags == 0
        };
        if !ok {
            return Err(VaporettoError::InvalidModel);
        }
        pats.push(pat);
        ws.push(copy_weights(&d.weights));
        k += 1;
    }
    Ok((pats, ws))
}

/// The character scorer extended with the three tag-score passes.
pub struct CharScorerWithTags {
    pub base: CharScorer,
    pub n_tags: usize,
    pub left_pats: Vec<Vec<char>>,
    pub left_weights: Vec<Vec<i32>>,
    pub right_pats: Vec<Vec<char>>,
    pub right_weights: Vec<Vec<i32>>,
    pub self_pats: Vec<Vec<char>>,
    pub self_weights: Vec<Vec<i32>>,
}

impl CharScorerWithTags {
    /// Lists in step, at least one tag class, and every self-model weight
    /// row of exactly `n_tags` weights.
    pub open spec fn wf(&self) -> bool {
        &&& self.base.wf()
        &&& self.n_tags >= 1
        &&& self.left_pats@.len() == self.left_weights@.len()
        &&& self.right_pats@.len() == self.right_weights@.len()
        &&& self.self_pats@.len() == self.self_weights@.len()
        &&& forall|k: int|
            0 <= k < self.self_weights@.len() ==> (#[trigger] self.self_weights@[k])@.len()
                == self.n_tags
    }

    /// Builds the scorer. Fails exactly when the boundary models or one of
    /// the three tag families is invalid.
    pub fn new(
        model: NgramModel<String>,
        window_size: usize,
        dict_model: DictModel,
        n_tags: usize,
        left_model: NgramModel<String>,
        right_model: NgramModel<String>,
        self_model: NgramModel<String>,
    ) -> (r: Result<CharScorerWithTags, VaporettoError>)
        requires
            n_tags >= 1,
        ensures
            r is Ok <==> char_model_valid(model, dict_model) && tag_family_valid(
                left_model.data@,
                n_tags as int,
                false,
            ) && tag_family_valid(right_model.data@, n_tags as int, false) && tag_family_valid(
                self_model.data@,
                n_tags as int,
                true,
            ),
            r matches Ok(s) ==> {
                &&& s.wf()
                &&& s.n_tags == n_tags
                &&& s.base.window_size == window_size
                &&& s.base.ngram_pats@.len() == model.data@.len()
                &&& forall|k: int|
                    0 <= k < model.data@.len() ==> (#[trigger] s.base.ngram_pats@[k])@
                        == model.data@[k].ngram@ && s.base.ngram_weights@[k]@
                        == model.data@[k].weights@
                &&& s.base.dict_words@.len() == dict_model.dict@.len()
                &&& forall|k: int|
                    0 <= k < dict_model.dict@.len() ==> (#[trigger] s.base.dict_words@[k])@
                        == dict_model.dict@[k].word@ && s.base.dict_weights@[k]
                        == dict_model.dict@[k].weights
                &&& s.left_pats@.len() == left_model.data@.len()
                &&& forall|k: int|
                    0 <= k < left_model.data@.len() ==> (#[trigger] s.left_pats@[k])@
                        == left_model.data@[k].ngram@ && s.left_weights@[k]@
                        == left_model.data@[k].weights@
                &&& s.right_pats@.len() == right_model.data@.len()
                &&& forall|k: int|
                    0 <= k < right_model.data@.len() ==> (#[trigger] s.right_pats@[k])@
                        == right_model.data@[k].ngram@ && s.right_weights@[k]@
                        == right_model.data@[k].weights@
                &&& s.self_pats@.len() == self_model.data@.len()
                &&& forall|k: int|
                    0 <= k < self_model.data@.len() ==> (#[trigger] s.self_pats@[k])@
                        == self_model.data@[k].ngram@ && s.self_weights@[k]@
                        == self_model.data@[k].weights@
            },
            r is Err ==> r == Result::<CharScorerWithTags, VaporettoError>::Err(
                VaporettoError::InvalidModel,
            ),
    {
        let base = match CharScorer::new(model, window_size, dict_model) {
            Ok(b) => b,
            Err(e) => {
                return Err(VaporettoError::InvalidModel);
            },
        };
        let (left_pats, left_weights) = match convert_tag_family(&left_model, n_tags, false) {
            Ok(p) => p,
            Err(e) => {
                return Err(VaporettoError::InvalidModel);
            },
        };
        let (right_pats, right_weights) = match convert_tag_family(&right_model, n_tags, false) {
            Ok(p) => p,
            Err(e) => {
                return Err(VaporettoError::InvalidModel);
            },
        };
        let (self_pats, self_weights) = match convert_tag_family(&self_model, n_tags, true) {
            Ok(p) => p,
            Err(e) => {
                return Err(VaporettoError::InvalidModel);
            },
        };
        proof {
            assert forall|k: int| 0 <= k < self_weights@.len() implies (
            #[trigger] self_weights@[k])@.len() == n_tags by {
                assert(self_pats@[k]@ == self_model.data@[k].ngram@);
                assert(self_model.data@[k].ngram@.len() >= 1);
                assert(self_weights@[k]@ == self_model.data@[k].weights@);
            }
        }
        Ok(
            CharScorerWithTags {
                base,
                n_tags,
                left_pats,
                left_weights,
                right_pats,
                right_weights,
                self_pats,
                self_weights,
            },
        )
    }

    /// Adds the boundary contributions into the padded score buffer and
    /// fills the three tag-score matrices.
    pub fn add_scores(
        &self,
        chars: &Vec<char>,
        padding: usize,
        ys: &mut Vec<i32>,
        tag_ys: &mut TagScores,
    )
        requires
            self.wf(),
            self.base.window_size <= padding,
            padding + chars@.len() + 8 <= usize::MAX,
            chars@.len() < 0x8000_0000,
            2 * chars@.len() + 2 <= usize::MAX,
            chars@.len() * self.n_tags <= usize::MAX,
            old(tag_ys).left_scores@.len() == chars@.len() * self.n_tags,
            old(tag_ys).right_scores@.len() == chars@.len() * self.n_tags,
            old(tag_ys).self_scores@.len() == chars@.len(),
        ensures
            final(ys)@.len() == old(ys)@.len(),
            forall|t: int|
                0 <= t < old(ys)@.len() ==> final(ys)@[t] as int == wrap32(
                    old(ys)@[t] + self.base.gap_sum(chars@, t - padding),
                ),
            final(tag_ys).left_scores@.len() == old(tag_ys).left_scores@.len(),
            final(tag_ys).right_scores@.len() == old(tag_ys).right_scores@.len(),
            final(tag_ys).self_scores@.len() == old(tag_ys).self_scores@.len(),
            forall|rr: int, c: int|
                0 <= rr < chars@.len() && 0 <= c < self.n_tags ==> cell(
                    final(tag_ys).left_scores@,
                    self.n_tags as int,
                    rr,
                    c,
                ) == wrap32(
                    cell(old(tag_ys).left_scores@, self.n_tags as int, rr, c) + left_cells_sum(
                        self.left_pats@,
                        self.left_weights@,
                        padded(chars@),
                        self.n_tags as int,
                        rr,
                        c,
                        self.left_pats@.len() as int,
                    ),
                ),
            forall|rr: int, c: int|
                0 <= rr < chars@.len() && 0 <= c < self.n_tags ==> cell(
                    final(tag_ys).right_scores@,
                    self.n_tags as int,
                    rr,
                    c,
                ) == wrap32(
                    cell(old(tag_ys).right_scores@, self.n_tags as int, rr, c) + right_cells_sum(
                        self.right_pats@,
                        self.right_weights@,
                        padded(chars@),
                        self.n_tags as int,
                        self.base.window_size as int,
                        rr,
                        c,
                        self.right_pats@.len() as int,
                    ),
                ),
            forall|e: int|
                0 <= e < chars@.len() ==> {
                    let recs = self_records(self.self_pats@, self.self_weights@, chars@, e);
                    &&& ((#[trigger] final(tag_ys).self_scores@[e]) is None <==> recs.len() == 0)
                    &&& (final(tag_ys).self_scores@[e] matches Some(l) ==> self_views(l@) == recs)
                },
    {
        self.base.add_scores(chars, padding, ys);
        let n = chars.len();
        let mut phay: Vec<char> = Vec::new();
        phay.push('\0');
        let mut i: usize = 0;
        while i < n
            invariant
                i <= n,
                n == chars@.len(),
                phay@ == seq!['\0'] + chars@.subrange(0, i as int),
            decreases n - i,
        {
            phay.push(chars[i]);
            proof {
                assert(phay@ =~= seq!['\0'] + chars@.subrange(0, i + 1));
            }
            i += 1;
        }
        phay.push('\0');
        proof {
            assert(chars@.subrange(0, n as int) =~= chars@);
            assert(phay@ =~= padded(chars@));
        }
        add_left_scores(&self.left_pats, &self.left_weights, &phay, self.n_tags, n, &mut tag_ys.left_scores);
        add_right_scores(
            &self.right_pats,
            &self.right_weights,
            &phay,
            self.n_tags,
            self.base.window_size,
            n,
            &mut tag_ys.right_scores,
        );
        let ghost left_after = tag_ys.left_scores@;
        let ghost right_after = tag_ys.right_scores@;
        let mut e: usize = 0;
        while e < n
            invariant
                e <= n,
                n == chars@.len(),
                n < 0x8000_0000,
                self.self_pats@.len() == self.self_weights@.len(),
                tag_ys.left_scores@ == left_after,
                tag_ys.right_scores@ == right_after,
                tag_ys.self_scores@.len() == n,
                forall|j: int|
                    0 <= j < e ==> {
                        let recs = self_records(self.self_pats@, self.self_weights@, chars@, j);
                        &&& ((#[trigger] tag_ys.self_scores@[j]) is None <==> recs.len() == 0)
                        &&& (tag_ys.self_scores@[j] matches Some(l) ==> self_views(l@) == recs)
                    },
            decreases n - e,
        {
            let lst = collect_self_records(&self.self_pats, &self.self_weights, chars, e);
            if lst.len() == 0 {
                tag_ys.self_scores.set(e, None);
            } else {
                proof {
                    assert(self_views(lst@).len() == lst@.len());
                }
                tag_ys.self_scores.set(e, Some(lst));
            }
            e += 1;
        }
    }
}

} // verus!
