//! The predictor: orchestrates the scorers over a padded score buffer,
//! thresholds every gap at zero, and assigns tags to the induced tokens.

use crate::char_scorer::{
    padded, tag_family_valid, char_model_valid, CharScorer, CharScorerWithTags, SIMD_SIZE,
};
use crate::errors::VaporettoError;
use crate::model::Model;
use crate::scores::{lemma_wrap32_add, lemma_wrap32_id, wrap32};
use crate::sentence::{BoundaryType, SelfWeight, Sentence};
use crate::tag_sums::{cell, left_cells_sum, right_cells_sum, self_records, self_views};
use crate::type_scorer::{type_model_valid, TypeScorer};
use vstd::prelude::*;

verus! {

/// The integers of a stored weight row.
pub open spec fn int_row(v: Seq<i32>) -> Seq<int> {
    Seq::new(v.len(), |i: int| v[i] as int)
}

/// The componentwise wrapped sum of two rows.
pub open spec fn vec_wadd(a: Seq<int>, b: Seq<int>) -> Seq<int> {
    Seq::new(a.len(), |i: int| wrap32(a[i] + b[i]))
}

/// Row `r` of a row-major matrix of `tcount` columns.
pub open spec fn row_of(mat: Seq<i32>, tcount: int, r: int) -> Seq<int> {
    Seq::new(tcount as nat, |c: int| cell(mat, tcount, r, c))
}

/// A row of `t` zeros.
pub open spec fn zero_row(t: int) -> Seq<int> {
    Seq::new(t as nat, |c: int| 0)
}

/// A weight row stretched or cut to `t` entries: missing entries are zero.
pub open spec fn row_padded(w: Seq<i32>, t: int) -> Seq<int> {
    Seq::new(
        t as nat,
        |c: int|
            if 0 <= c < w.len() {
                w[c] as int
            } else {
                0
            },
    )
}

/// The self-weight row selected by scanning a list from entry `j`: skip
/// entries whose relative start exceeds `diff`, take the first equal one,
/// and give up at the first smaller one. At most one entry is taken.
pub open spec fn scan_from(l: Seq<SelfWeight>, j: int, diff: int, t: int) -> Seq<int>
    decreases l.len() - j,
{
    if j < 0 || j >= l.len() {
        zero_row(t)
    } else if l[j].start_rel_position > diff {
        scan_from(l, j + 1, diff, t)
    } else if l[j].start_rel_position == diff {
        row_padded(l[j].weight@, t)
    } else {
        zero_row(t)
    }
}

/// The self-weight row that an optional self-score list contributes for a
/// token whose relative start is `diff`.
pub open spec fn scan_list(opt: Option<Vec<SelfWeight>>, diff: int, t: int) -> Seq<int> {
    match opt {
        Option::None => zero_row(t),
        Option::Some(l) => scan_from(l@, 0, diff, t),
    }
}

/// The index of the maximum of `s`, the last one when several are equal.
pub open spec fn argmax_last(s: Seq<int>) -> int
    decreases s.len(),
{
    if s.len() <= 1 {
        0
    } else {
        let r = argmax_last(s.drop_last());
        if s[s.len() - 1] >= s[r] {
            s.len() - 1
        } else {
            r
        }
    }
}

/// `argmax_last` names a position of `s`, and no entry exceeds the one it
/// names.
pub proof fn lemma_argmax_range(s: Seq<int>)
    requires
        s.len() >= 1,
    ensures
        0 <= argmax_last(s) < s.len(),
        forall|i: int| 0 <= i < s.len() ==> #[trigger] s[i] <= s[argmax_last(s)],
        forall|i: int| argmax_last(s) < i < s.len() ==> #[trigger] s[i] < s[argmax_last(s)],
    decreases s.len(),
{
    if s.len() > 1 {
        lemma_argmax_range(s.drop_last());
        let r = argmax_last(s.drop_last());
        assert forall|i: int| 0 <= i < s.len() implies #[trigger] s[i] <= s[argmax_last(s)] by {
            if i < s.len() - 1 {
                assert(s.drop_last()[i] == s[i]);
                assert(s.drop_last()[r] == s[r]);
            }
        }
        assert forall|i: int| argmax_last(s) < i < s.len() implies #[trigger] s[i] < s[argmax_last(
            s,
        )] by {
            if i < s.len() - 1 {
                assert(s.drop_last()[i] == s[i]);
                assert(s.drop_last()[r] == s[r]);
            }
        }
    }
}

/// The character scorer in use: with or without the tag passes.
pub enum CharScorerWrapper {
    Boundary(CharScorer),
    BoundaryAndTags(CharScorerWithTags),
}

/// Predicts word boundaries, and optionally tags, for sentences.
pub struct Predictor {
    pub bias: i32,
    pub char_scorer: CharScorerWrapper,
    pub type_scorer: TypeScorer,
    pub padding: usize,
    pub tag_names: Vec<String>,
    pub tag_bias: Vec<i32>,
}

impl Predictor {
    /// Scorers well formed, the padding at least both window sizes, and one
    /// tag name with one bias per tag class.
    pub open spec fn wf(&self) -> bool {
        &&& self.type_scorer.wf()
        &&& self.padding >= self.type_scorer.window_size
        &&& self.tag_bias@.len() == self.tag_names@.len()
        &&& match self.char_scorer {
            CharScorerWrapper::Boundary(cs) => {
                &&& cs.wf()
                &&& self.padding >= cs.window_size
                &&& self.tag_names@.len() == 0
            },
            CharScorerWrapper::BoundaryAndTags(cs) => {
                &&& cs.wf()
                &&& self.padding >= cs.base.window_size
                &&& self.tag_names@.len() == cs.n_tags
            },
        }
    }

    /// Whether this predictor fills tag scores and assigns tags.
    pub open spec fn has_tags(&self) -> bool {
        self.char_scorer is BoundaryAndTags
    }

    /// The character-side (n-gram and dictionary) contribution to gap `g`.
    pub open spec fn char_part(&self, chars: Seq<char>, g: int) -> int {
        match self.char_scorer {
            CharScorerWrapper::Boundary(cs) => cs.gap_sum(chars, g),
            CharScorerWrapper::BoundaryAndTags(cs) => cs.base.gap_sum(chars, g),
        }
    }

    /// The exact (unwrapped) score of gap `g`: the bias plus every character
    /// n-gram, dictionary and type n-gram contribution.
    pub open spec fn gap_score(&self, chars: Seq<char>, types: Seq<u8>, g: int) -> int {
        self.bias + self.char_part(chars, g) + self.type_scorer.gap_sum(types, g)
    }

    /// The boundary label that a gap score decides: a word boundary exactly
    /// when the wrapped score is at least zero.
    pub open spec fn label_of(&self, chars: Seq<char>, types: Seq<u8>, g: int) -> BoundaryType {
        if wrap32(self.gap_score(chars, types, g)) >= 0 {
            BoundaryType::WordBoundary
        } else {
            BoundaryType::NotWordBoundary
        }
    }

    /// Machine limits under which a sentence of `n` characters can be
    /// scored: the padded buffer length, the tag matrices and the relative
    /// positions all fit their integer types.
    pub open spec fn size_ok(&self, n: int) -> bool {
        &&& self.padding + n + 8 <= usize::MAX
        &&& n < 0x8000_0000
        &&& 2 * n + 2 <= usize::MAX
        &&& n * self.tag_names@.len() <= usize::MAX
    }

    /// Whether a model is accepted: every pattern and dictionary word is
    /// non-empty, and, when tags are predicted and classes exist, the tag
    /// families hold full weight rows.
    pub open spec fn model_valid(model: Model, predict_tags: bool) -> bool {
        &&& char_model_valid(model.char_ngram_model, model.dict_model)
        &&& type_model_valid(model.type_ngram_model)
        &&& (predict_tags && model.tag_model.class_info@.len() > 0 ==> {
            let t = model.tag_model.class_info@.len() as int;
            &&& tag_family_valid(model.tag_model.left_char_model.data@, t, false)
            &&& tag_family_valid(model.tag_model.right_char_model.data@, t, false)
            &&& tag_family_valid(model.tag_model.self_char_model.data@, t, true)
        })
    }

    /// Builds a predictor from a model. The tag passes are selected exactly
    /// when `predict_tags` is set and the model names at least one tag
    /// class. Fails exactly on an invalid model.
    pub fn new(model: Model, predict_tags: bool) -> (r: Result<Predictor, VaporettoError>)
        ensures
            r is Ok <==> Self::model_valid(model, predict_tags),
            r matches Ok(p) ==> {
                &&& p.wf()
                &&& p.bias == model.bias
                &&& p.padding == (if model.char_window_size >= model.type_window_size {
                    model.char_window_size
                } else {
                    model.type_window_size
                })
                &&& p.has_tags() == (predict_tags && model.tag_model.class_info@.len() > 0)
                &&& p.tag_names@.len() == (if predict_tags {
                    model.tag_model.class_info@.len() as int
                } else {
                    0
                })
                &&& forall|i: int|
                    0 <= i < p.tag_names@.len() ==> (#[trigger] p.tag_names@[i])
                        == model.tag_model.class_info@[i].name && p.tag_bias@[i]
                        == model.tag_model.class_info@[i].bias
                &&& p.scorers_match(model)
            },
            r is Err ==> r == Result::<Predictor, VaporettoError>::Err(VaporettoError::InvalidModel),
    {
        let use_tags = predict_tags && model.tag_model.class_info.len() > 0;
        let mut tag_names: Vec<String> = Vec::new();
        let mut tag_bias: Vec<i32> = Vec::new();
        let char_scorer = if use_tags {
            let cls = &model.tag_model.class_info;
            let mut i: usize = 0;
            while i < cls.len()
                invariant
                    i <= cls@.len(),
                    tag_names@.len() == i,
                    tag_bias@.len() == i,
                    forall|j: int|
                        0 <= j < i ==> (#[trigger] tag_names@[j]) == cls@[j].name && tag_bias@[j]
                            == cls@[j].bias,
                decreases cls@.len() - i,
            {
                let name = cls[i].name.clone();
                proof {
                    assert(name == cls@[i as int].name);
                }
                tag_names.push(name);
                tag_bias.push(cls[i].bias);
                i += 1;
            }
            let n_tags = tag_names.len();
            match CharScorerWithTags::new(
                model.char_ngram_model,
                model.char_window_size,
                model.dict_model,
                n_tags,
                model.tag_model.left_char_model,
                model.tag_model.right_char_model,
                model.tag_model.self_char_model,
            ) {
                Ok(s) => CharScorerWrapper::BoundaryAndTags(s),
                Err(e) => {
                    return Err(e);
                },
            }
        } else {
            match CharScorer::new(model.char_ngram_model, model.char_window_size, model.dict_model) {
                Ok(s) => CharScorerWrapper::Boundary(s),
                Err(e) => {
                    return Err(e);
                },
            }
        };
        let type_scorer = match TypeScorer::new(model.type_ngram_model, model.type_window_size) {
            Ok(s) => s,
            Err(e) => {
                return Err(e);
            },
        };
        let padding = if model.char_window_size >= model.type_window_size {
            model.char_window_size
        } else {
            model.type_window_size
        };
        Ok(Predictor { bias: model.bias, char_scorer, type_scorer, padding, tag_names, tag_bias })
    }

    /// The scorers hold exactly the model's patterns, weights, words and
    /// windows.
    pub open spec fn scorers_match(&self, model: Model) -> bool {
        &&& self.type_scorer.window_size == model.type_window_size
        &&& self.type_scorer.pats@.len() == model.type_ngram_model.data@.len()
        &&& forall|k: int|
            0 <= k < model.type_ngram_model.data@.len() ==> (#[trigger] self.type_scorer.pats@[k])@
                == model.type_ngram_model.data@[k].ngram@ && self.type_scorer.weights@[k]@
                == model.type_ngram_model.data@[k].weights@
        &&& match self.char_scorer {
            CharScorerWrapper::Boundary(cs) => Self::char_base_matches(cs, model),
            CharScorerWrapper::BoundaryAndTags(cs) => {
                &&& Self::char_base_matches(cs.base, model)
                &&& cs.left_pats@.len() == model.tag_model.left_char_model.data@.len()
                &&& forall|k: int|
                    0 <= k < model.tag_model.left_char_model.data@.len() ==> (
                    #[trigger] cs.left_pats@[k])@ == model.tag_model.left_char_model.data@[k].ngram@
                        && cs.left_weights@[k]@ == model.tag_model.left_char_model.data@[k].weights@
                &&& cs.right_pats@.len() == model.tag_model.right_char_model.data@.len()
                &&& forall|k: int|
                    0 <= k < model.tag_model.right_char_model.data@.len() ==> (
                    #[trigger] cs.right_pats@[k])@
                        == model.tag_model.right_char_model.data@[k].ngram@ && cs.right_weights@[k]@
                        == model.tag_model.right_char_model.data@[k].weights@
                &&& cs.self_pats@.len() == model.tag_model.self_char_model.data@.len()
                &&& forall|k: int|
                    0 <= k < model.tag_model.self_char_model.data@.len() ==> (
                    #[trigger] cs.self_pats@[k])@ == model.tag_model.self_char_model.data@[k].ngram@
                        && cs.self_weights@[k]@ == model.tag_model.self_char_model.data@[k].weights@
            },
        }
    }

    /// The boundary-side character scorer holds exactly the model's
    /// n-grams, window and dictionary.
    pub open spec fn char_base_matches(cs: CharScorer, model: Model) -> bool {
        &&& cs.window_size == model.char_window_size
        &&& cs.ngram_pats@.len() == model.char_ngram_model.data@.len()
        &&& forall|k: int|
            0 <= k < model.char_ngram_model.data@.len() ==> (#[trigger] cs.ngram_pats@[k])@
                == model.char_ngram_model.data@[k].ngram@ && cs.ngram_weights@[k]@
                == model.char_ngram_model.data@[k].weights@
        &&& cs.dict_words@.len() == model.dict_model.dict@.len()
        &&& forall|k: int|
            0 <= k < model.dict_model.dict@.len() ==> (#[trigger] cs.dict_words@[k])@
                == model.dict_model.dict@[k].word@ && cs.dict_weights@[k]
                == model.dict_model.dict@[k].weights
    }

    /// Everything both prediction entry points guarantee about the scored
    /// sentence, except the final state of `boundary_scores`.
    pub open spec fn predicted(&self, s0: Sentence, r: Sentence) -> bool {
        &&& r.wf()
        &&& r.chars@ == s0.chars@
        &&& r.char_types@ == s0.char_types@
        &&& r.tags@ == s0.tags@
        &&& r.boundaries@.len() == s0.chars@.len() - 1
        &&& forall|g: int|
            0 <= g < r.boundaries@.len() ==> (#[trigger] r.boundaries@[g]) == self.label_of(
                s0.chars@,
                s0.char_types@,
                g,
            )
        &&& (!self.has_tags() ==> r.tag_scores == s0.tag_scores)
        &&& (self.char_scorer matches CharScorerWrapper::BoundaryAndTags(cs) ==> {
            let n = s0.chars@.len() as int;
            let t = self.tag_names@.len() as int;
            &&& r.tag_scores.left_scores@.len() == n * t
            &&& r.tag_scores.right_scores@.len() == n * t
            &&& r.tag_scores.self_scores@.len() == n
            &&& forall|rr: int, c: int|
                0 <= rr < n && 0 <= c < t ==> cell(r.tag_scores.left_scores@, t, rr, c) == wrap32(
                    left_cells_sum(
                        cs.left_pats@,
                        cs.left_weights@,
                        padded(s0.chars@),
                        t,
                        rr,
                        c,
                        cs.left_pats@.len() as int,
                    ),
                )
            &&& forall|rr: int, c: int|
                0 <= rr < n && 0 <= c < t ==> cell(r.tag_scores.right_scores@, t, rr, c) == wrap32(
                    right_cells_sum(
                        cs.right_pats@,
                        cs.right_weights@,
                        padded(s0.chars@),
                        t,
                        cs.base.window_size as int,
                        rr,
                        c,
                        cs.right_pats@.len() as int,
                    ),
                )
            &&& forall|e: int|
                0 <= e < n ==> {
                    let recs = self_records(cs.self_pats@, cs.self_weights@, s0.chars@, e);
                    &&& ((#[trigger] r.tag_scores.self_scores@[e]) is None <==> recs.len() == 0)
                    &&& (r.tag_scores.self_scores@[e] matches Some(l) ==> self_views(l@) == recs)
                }
        })
    }

    /// Runs the scorers and writes the boundary labels; leaves the padded
    /// score buffer in `boundary_scores`.
    fn predict_impl(&self, sentence: Sentence) -> (r: Sentence)
        requires
            self.wf(),
            sentence.wf(),
            self.size_ok(sentence.chars@.len() as int),
        ensures
            self.predicted(sentence, r),
            r.boundary_scores@.len() == sentence.chars@.len() - 1 + self.padding + 7,
            forall|t: int|
                0 <= t < r.boundary_scores@.len() ==> (#[trigger] r.boundary_scores@[t]) as int
                    == wrap32(self.gap_score(sentence.chars@, sentence.char_types@, t - self.padding)),
    {
        let mut sentence = sentence;
        let n = sentence.chars.len();
        let ys_size = n - 1 + self.padding + SIMD_SIZE - 1;
        let mut ys: Vec<i32> = Vec::new();
        let mut i: usize = 0;
        while i < ys_size
            invariant
                i <= ys_size,
                ys@.len() == i,
                forall|t: int| 0 <= t < i ==> ys@[t] == self.bias,
            decreases ys_size - i,
        {
            ys.push(self.bias);
            i += 1;
        }
        let ghost chars0 = sentence.chars@;
        let ghost types0 = sentence.char_types@;
        match &self.char_scorer {
            CharScorerWrapper::Boundary(cs) => {
                cs.add_scores(&sentence.chars, self.padding, &mut ys);
            },
            CharScorerWrapper::BoundaryAndTags(cs) => {
                sentence.tag_scores.init(n, self.tag_names.len());
                let ghost zl = sentence.tag_scores.left_scores@;
                let ghost zr = sentence.tag_scores.right_scores@;
                cs.add_scores(&sentence.chars, self.padding, &mut ys, &mut sentence.tag_scores);
                proof {
                    let t = self.tag_names@.len() as int;
                    let nn = n as int;
                    assert forall|rr: int, c: int| 0 <= rr < nn && 0 <= c < t implies cell(
                        sentence.tag_scores.left_scores@,
                        t,
                        rr,
                        c,
                    ) == wrap32(
                        left_cells_sum(
                            cs.left_pats@,
                            cs.left_weights@,
                            padded(chars0),
                            t,
                            rr,
                            c,
                            cs.left_pats@.len() as int,
                        ),
                    ) by {
                        crate::tag_sums::lemma_row_major_bound(t, nn, rr, c);
                        assert(cell(zl, t, rr, c) == 0);
                    }
                    assert forall|rr: int, c: int| 0 <= rr < nn && 0 <= c < t implies cell(
                        sentence.tag_scores.right_scores@,
                        t,
                        rr,
                        c,
                    ) == wrap32(
                        right_cells_sum(
                            cs.right_pats@,
                            cs.right_weights@,
                            padded(chars0),
                            t,
                            cs.base.window_size as int,
                            rr,
                            c,
                            cs.right_pats@.len() as int,
                        ),
                    ) by {
                        crate::tag_sums::lemma_row_major_bound(t, nn, rr, c);
                        assert(cell(zr, t, rr, c) == 0);
                    }
                }
            },
        }
        let ghost mid = ys@;
        self.type_scorer.add_scores(&sentence.char_types, self.padding, &mut ys);
        proof {
            assert forall|t: int| 0 <= t < ys@.len() implies ys@[t] as int == wrap32(
                self.gap_score(chars0, types0, t - self.padding),
            ) by {
                let c = self.char_part(chars0, t - self.padding);
                let ty = self.type_scorer.gap_sum(types0, t - self.padding);
                assert(mid[t] as int == wrap32(self.bias + c));
                assert(ys@[t] as int == wrap32(mid[t] + ty));
                lemma_wrap32_add(self.bias + c, ty);
            }
        }
        let mut bnd: Vec<BoundaryType> = Vec::new();
        let mut g: usize = 0;
        while g < n - 1
            invariant
                g <= n - 1,
                n >= 1,
                n == chars0.len(),
                self.wf(),
                self.size_ok(n as int),
                ys@.len() == n - 1 + self.padding + 7,
                forall|t: int|
                    0 <= t < ys@.len() ==> (#[trigger] ys@[t]) as int == wrap32(
                        self.gap_score(chars0, types0, t - self.padding),
                    ),
                bnd@.len() == g,
                forall|j: int|
                    0 <= j < g ==> (#[trigger] bnd@[j]) == self.label_of(chars0, types0, j),
            decreases n - 1 - g,
        {
            let y = ys[self.padding + g];
            if y >= 0 {
                bnd.push(BoundaryType::WordBoundary);
            } else {
                bnd.push(BoundaryType::NotWordBoundary);
            }
            g += 1;
        }
        sentence.boundaries = bnd;
        sentence.boundary_scores = ys;
        sentence
    }

    /// Replacing the scratch score buffer does not change whether a
    /// sentence is a correct prediction result.
    proof fn lemma_predicted_scores_irrelevant(&self, s0: Sentence, a: Sentence, b: Sentence)
        requires
            self.predicted(s0, a),
            b.chars == a.chars,
            b.char_types == a.char_types,
            b.boundaries == a.boundaries,
            b.tags == a.tags,
            b.tag_scores == a.tag_scores,
        ensures
            self.predicted(s0, b),
    {
        assert forall|g: int| 0 <= g < b.boundaries@.len() implies (#[trigger] b.boundaries@[g])
            == self.label_of(s0.chars@, s0.char_types@, g) by {
            assert(b.boundaries@[g] == a.boundaries@[g]);
        }
        if self.char_scorer is BoundaryAndTags {
            assert forall|e: int| 0 <= e < s0.chars@.len() implies #[trigger] b.tag_scores.self_scores@[e]
                == a.tag_scores.self_scores@[e] by {}
        }
        assert forall|i: int| 0 <= i < b.chars@.len() implies b.char_types@[i] == crate::sentence::char_type_of(
            b.chars@[i],
        ) by {
            assert(a.char_types@[i] == crate::sentence::char_type_of(a.chars@[i]));
        }
    }

    /// Predicts the word boundaries of a sentence; the scratch score buffer
    /// is cleared before the sentence is handed back.
    pub fn predict(&self, sentence: Sentence) -> (r: Sentence)
        requires
            self.wf(),
            sentence.wf(),
            self.size_ok(sentence.chars@.len() as int),
        ensures
            self.predicted(sentence, r),
            r.boundary_scores@.len() == 0,
    {
        let ghost s0 = sentence;
        let mut sentence = self.predict_impl(sentence);
        let ghost a = sentence;
        sentence.boundary_scores = Vec::new();
        proof {
            self.lemma_predicted_scores_irrelevant(s0, a, sentence);
        }
        sentence
    }

    /// Predicts the word boundaries of a sentence and leaves the score of
    /// gap `g` in `boundary_scores[g]`.
    pub fn predict_with_score(&self, sentence: Sentence) -> (r: Sentence)
        requires
            self.wf(),
            sentence.wf(),
            self.size_ok(sentence.chars@.len() as int),
        ensures
            self.predicted(sentence, r),
            r.boundary_scores@.len() == sentence.chars@.len() - 1,
            forall|g: int|
                0 <= g < r.boundary_scores@.len() ==> (#[trigger] r.boundary_scores@[g]) as int
                    == wrap32(self.gap_score(sentence.chars@, sentence.char_types@, g)),
    {
        let ghost s0 = sentence;
        let mut sentence = self.predict_impl(sentence);
        let ghost a = sentence;
        let n = sentence.chars.len();
        let ghost chars0 = sentence.chars@;
        let ghost types0 = sentence.char_types@;
        let mut trimmed: Vec<i32> = Vec::new();
        let mut g: usize = 0;
        while g < n - 1
            invariant
                g <= n - 1,
                n >= 1,
                n == sentence.chars@.len(),
                self.size_ok(n as int),
                chars0 == sentence.chars@,
                types0 == sentence.char_types@,
                sentence.boundary_scores@.len() == n - 1 + self.padding + 7,
                forall|t: int|
                    0 <= t < sentence.boundary_scores@.len() ==> (
                    #[trigger] sentence.boundary_scores@[t]) as int == wrap32(
                        self.gap_score(chars0, types0, t - self.padding),
                    ),
                trimmed@.len() == g,
                forall|j: int|
                    0 <= j < g ==> (#[trigger] trimmed@[j]) as int == wrap32(
                        self.gap_score(chars0, types0, j),
                    ),
            decreases n - 1 - g,
        {
            trimmed.push(sentence.boundary_scores[self.padding + g]);
            g += 1;
        }
        sentence.boundary_scores = trimmed;
        proof {
            self.lemma_predicted_scores_irrelevant(s0, a, sentence);
        }
        sentence
    }
}

/// The tag-score accumulator and the current token's start at entry to
/// gap `i`: the running scores of the token that is still open there.
pub open spec fn tag_state(
    bounds: Seq<BoundaryType>,
    left: Seq<i32>,
    bias: Seq<i32>,
    t: int,
    i: int,
) -> (Seq<int>, int)
    decreases i,
{
    if i <= 0 {
        (vec_wadd(int_row(bias), row_of(left, t, 0)), 0)
    } else {
        let prev = tag_state(bounds, left, bias, t, i - 1);
        if bounds[i - 1] == BoundaryType::WordBoundary {
            (vec_wadd(int_row(bias), row_of(left, t, i)), i)
        } else {
            prev
        }
    }
}

/// The tag index decided for the token that ends at gap `i`: the
/// accumulator plus right row `i` plus the matching self-weight, maximised.
pub open spec fn tag_choice(
    bounds: Seq<BoundaryType>,
    left: Seq<i32>,
    right: Seq<i32>,
    selfs: Seq<Option<Vec<SelfWeight>>>,
    bias: Seq<i32>,
    t: int,
    i: int,
) -> int {
    let (acc, lbi) = tag_state(bounds, left, bias, t, i);
    let acc1 = vec_wadd(acc, row_of(right, t, i));
    let acc2 = vec_wadd(acc1, scan_list(selfs[i], lbi - i - 1, t));
    argmax_last(acc2)
}

/// The tag index decided for the final token of a sentence of `n`
/// characters.
pub open spec fn final_tag_choice(
    bounds: Seq<BoundaryType>,
    left: Seq<i32>,
    right: Seq<i32>,
    selfs: Seq<Option<Vec<SelfWeight>>>,
    bias: Seq<i32>,
    t: int,
    n: int,
) -> int {
    let (acc, lbi) = tag_state(bounds, left, bias, t, n - 1);
    let acc1 = vec_wadd(acc, row_of(right, t, n - 1));
    let acc2 = vec_wadd(acc1, scan_list(selfs[n - 1], lbi - n, t));
    argmax_last(acc2)
}

/// What the tag slots hold after tag assignment: the decided tag name on
/// every character that ends a token, the old value elsewhere.
pub open spec fn filled_tags(
    bounds: Seq<BoundaryType>,
    left: Seq<i32>,
    right: Seq<i32>,
    selfs: Seq<Option<Vec<SelfWeight>>>,
    bias: Seq<i32>,
    names: Seq<String>,
    tags0: Seq<Option<String>>,
    t: int,
    n: int,
) -> Seq<Option<String>> {
    Seq::new(
        n as nat,
        |i: int|
            if i == n - 1 {
                Option::Some(names[final_tag_choice(bounds, left, right, selfs, bias, t, n)])
            } else if bounds[i] == BoundaryType::WordBoundary {
                Option::Some(names[tag_choice(bounds, left, right, selfs, bias, t, i)])
            } else {
                tags0[i]
            },
    )
}

/// Adds row `r` of a matrix into the accumulator, wrapped.
fn add_mat_row(acc: &mut Vec<i32>, mat: &Vec<i32>, tcount: usize, r: usize, nrows: usize)
    requires
        tcount >= 1,
        old(acc)@.len() == tcount,
        mat@.len() == nrows * tcount,
        nrows * tcount <= usize::MAX,
        r < nrows,
    ensures
        final(acc)@.len() == tcount,
        int_row(final(acc)@) == vec_wadd(int_row(old(acc)@), row_of(mat@, tcount as int, r as int)),
{
    let ghost orig = acc@;
    let mut c: usize = 0;
    while c < tcount
        invariant
            c <= tcount,
            tcount >= 1,
            acc@.len() == tcount,
            orig.len() == tcount,
            mat@.len() == nrows * tcount,
            nrows * tcount <= usize::MAX,
            r < nrows,
            forall|j: int|
                0 <= j < tcount ==> (#[trigger] acc@[j]) as int == (if j < c {
                    wrap32(orig[j] + cell(mat@, tcount as int, r as int, j))
                } else {
                    orig[j] as int
                }),
        decreases tcount - c,
    {
        proof {
            crate::tag_sums::lemma_row_major_bound(tcount as int, nrows as int, r as int, c as int);
        }
        let v = crate::scores::wadd(acc[c], mat[r * tcount + c]);
        acc.set(c, v);
        c += 1;
    }
    proof {
        assert(int_row(final(acc)@) =~= vec_wadd(
            int_row(orig),
            row_of(mat@, tcount as int, r as int),
        ));
    }
}

/// Sets the accumulator to the bias plus row `r` of a matrix, wrapped: the
/// opening scores of a token that starts at character `r`.
fn reset_acc(acc: &mut Vec<i32>, bias: &Vec<i32>, mat: &Vec<i32>, tcount: usize, r: usize, nrows: usize)
    requires
        tcount >= 1,
        old(acc)@.len() == tcount,
        bias@.len() == tcount,
        mat@.len() == nrows * tcount,
        nrows * tcount <= usize::MAX,
        r < nrows,
    ensures
        final(acc)@.len() == tcount,
        int_row(final(acc)@) == vec_wadd(int_row(bias@), row_of(mat@, tcount as int, r as int)),
{
    let mut c: usize = 0;
    while c < tcount
        invariant
            c <= tcount,
            tcount >= 1,
            acc@.len() == tcount,
            bias@.len() == tcount,
            mat@.len() == nrows * tcount,
            nrows * tcount <= usize::MAX,
            r < nrows,
            forall|j: int|
                0 <= j < c ==> (#[trigger] acc@[j]) as int == wrap32(
                    bias@[j] + cell(mat@, tcount as int, r as int, j),
                ),
        decreases tcount - c,
    {
        proof {
            crate::tag_sums::lemma_row_major_bound(tcount as int, nrows as int, r as int, c as int);
        }
        let v = crate::scores::wadd(bias[c], mat[r * tcount + c]);
        acc.set(c, v);
        c += 1;
    }
    proof {
        assert(int_row(final(acc)@) =~= vec_wadd(
            int_row(bias@),
            row_of(mat@, tcount as int, r as int),
        ));
    }
}

/// Adds into the accumulator the self-weight row that the list selects for
/// relative token start `diff`.
fn apply_self(acc: &mut Vec<i32>, opt: &Option<Vec<SelfWeight>>, diff: i32)
    requires
        old(acc)@.len() >= 1,
    ensures
        final(acc)@.len() == old(acc)@.len(),
        int_row(final(acc)@) == vec_wadd(
            int_row(old(acc)@),
            scan_list(*opt, diff as int, old(acc)@.len() as int),
        ),
{
    let ghost orig = acc@;
    let ghost t = acc@.len() as int;
    match opt {
        Option::None => {
            proof {
                assert forall|j: int| 0 <= j < t implies orig[j] as int == wrap32(
                    orig[j] + zero_row(t)[j],
                ) by {
                    lemma_wrap32_id(orig[j] as int);
                }
                assert(int_row(acc@) =~= vec_wadd(int_row(orig), scan_list(*opt, diff as int, t)));
            }
        },
        Option::Some(l) => {
            let mut j: usize = 0;
            let mut done = false;
            while !done && j < l.len()
                invariant
                    j <= l@.len(),
                    acc@.len() == t,
                    orig.len() == t,
                    t >= 1,
                    !done ==> acc@ == orig && scan_from(l@, 0, diff as int, t) == scan_from(
                        l@,
                        j as int,
                        diff as int,
                        t,
                    ),
                    done ==> int_row(acc@) == vec_wadd(
                        int_row(orig),
                        scan_from(l@, 0, diff as int, t),
                    ),
                decreases (if done { 0int } else { l@.len() - j + 1 }),
            {
                let sw = &l[j];
                if sw.start_rel_position > diff {
                    j += 1;
                } else if sw.start_rel_position == diff {
                    let ghost sel = scan_from(l@, j as int, diff as int, t);
                    proof {
                        assert(sel == row_padded(l@[j as int].weight@, t));
                    }
                    let w = &sw.weight;
                    let mut c: usize = 0;
                    while c < acc.len()
                        invariant
                            c <= t,
                            acc@.len() == t,
                            orig.len() == t,
                            j < l@.len(),
                            w@ == l@[j as int].weight@,
                            l@[j as int].start_rel_position == diff,
                            sel == row_padded(l@[j as int].weight@, t),
                            forall|q: int|
                                0 <= q < t ==> (#[trigger] acc@[q]) as int == (if q < c {
                                    wrap32(orig[q] + sel[q])
                                } else {
                                    orig[q] as int
                                }),
                        decreases t - c,
                    {
                        if c < w.len() {
                            proof {
                                assert(sel[c as int] == w@[c as int] as int);
                            }
                            let v = crate::scores::wadd(acc[c], w[c]);
                            acc.set(c, v);
                        } else {
                            proof {
                                assert(sel[c as int] == 0);
                                lemma_wrap32_id(orig[c as int] as int);
                            }
                        }
                        c += 1;
                    }
                    proof {
                        assert(int_row(acc@) =~= vec_wadd(
                            int_row(orig),
                            scan_from(l@, 0, diff as int, t),
                        ));
                    }
                    done = true;
                } else {
                    proof {
                        assert(scan_from(l@, j as int, diff as int, t) == zero_row(t));
                        assert forall|q: int| 0 <= q < t implies orig[q] as int == wrap32(
                            orig[q] + zero_row(t)[q],
                        ) by {
                            lemma_wrap32_id(orig[q] as int);
                        }
                        assert(int_row(acc@) =~= vec_wadd(
                            int_row(orig),
                            scan_from(l@, 0, diff as int, t),
                        ));
                    }
                    done = true;
                }
            }
            proof {
                if !done {
                    assert(scan_from(l@, j as int, diff as int, t) == zero_row(t));
                    assert forall|q: int| 0 <= q < t implies orig[q] as int == wrap32(
                        orig[q] + zero_row(t)[q],
                    ) by {
                        lemma_wrap32_id(orig[q] as int);
                    }
                    assert(int_row(acc@) =~= vec_wadd(
                        int_row(orig),
                        scan_from(l@, 0, diff as int, t),
                    ));
                }
            }
        },
    }
}

impl Predictor {
    /// The name of the best-scoring tag class: the greatest score wins,
    /// and among equal greatest scores the one with the greatest index.
    pub fn best_tag(&self, scores: &Vec<i32>) -> (r: String)
        requires
            self.wf(),
            self.tag_names@.len() >= 1,
            scores@.len() == self.tag_names@.len(),
        ensures
            r == self.tag_names@[argmax_last(int_row(scores@))],
    {
        let mut best: usize = 0;
        let mut i: usize = 1;
        while i < scores.len()
            invariant
                1 <= i <= scores@.len(),
                best < i,
                scores@.len() >= 1,
                best as int == argmax_last(int_row(scores@).subrange(0, i as int)),
            decreases scores@.len() - i,
        {
            let ghost pre = int_row(scores@).subrange(0, i as int);
            let ghost cur = int_row(scores@).subrange(0, i + 1);
            proof {
                assert(cur.drop_last() =~= pre);
                assert(cur[i as int] == scores@[i as int] as int);
                lemma_argmax_range(pre);
            }
            if scores[i] >= scores[best] {
                best = i;
            }
            i += 1;
        }
        proof {
            assert(int_row(scores@).subrange(0, scores@.len() as int) =~= int_row(scores@));
        }
        self.tag_names[best].clone()
    }

    /// Assigns one tag per token, walking the decided boundaries once. The
    /// caller finalizes the boundaries first; for a predictor built without
    /// tag classes the sentence is handed back unchanged.
    pub fn fill_tags(&self, sentence: Sentence) -> (r: Sentence)
        requires
            self.wf(),
            sentence.wf(),
            self.tag_names@.len() >= 1 ==> {
                let n = sentence.chars@.len() as int;
                let t = self.tag_names@.len() as int;
                &&& n < 0x8000_0000
                &&& n * t <= usize::MAX
                &&& sentence.tag_scores.left_scores@.len() == n * t
                &&& sentence.tag_scores.right_scores@.len() == n * t
                &&& sentence.tag_scores.self_scores@.len() == n
            },
        ensures
            r.chars == sentence.chars,
            r.char_types == sentence.char_types,
            r.boundaries == sentence.boundaries,
            r.boundary_scores == sentence.boundary_scores,
            r.tag_scores == sentence.tag_scores,
            r.tags@.len() == sentence.tags@.len(),
            self.tag_names@.len() == 0 ==> r.tags == sentence.tags,
            self.tag_names@.len() >= 1 ==> r.tags@ == filled_tags(
                sentence.boundaries@,
                sentence.tag_scores.left_scores@,
                sentence.tag_scores.right_scores@,
                sentence.tag_scores.self_scores@,
                self.tag_bias@,
                self.tag_names@,
                sentence.tags@,
                self.tag_names@.len() as int,
                sentence.chars@.len() as int,
            ),
    {
        let mut sentence = sentence;
        if self.tag_names.len() == 0 {
            return sentence;
        }
        let ghost s_in = sentence;
        let ghost tags0 = sentence.tags@;
        let ghost bounds = sentence.boundaries@;
        let ghost left = sentence.tag_scores.left_scores@;
        let ghost right = sentence.tag_scores.right_scores@;
        let ghost selfs = sentence.tag_scores.self_scores@;
        let ghost bias = self.tag_bias@;
        let n = sentence.chars.len();
        let tcount = self.tag_names.len();
        let ghost tt = tcount as int;
        let mut acc = crate::sentence::zero_vec(tcount);
        reset_acc(&mut acc, &self.tag_bias, &sentence.tag_scores.left_scores, tcount, 0, n);
        let mut lbi: usize = 0;
        let mut i: usize = 0;
        proof {
            assert(tag_state(bounds, left, bias, tt, 0) == (
                vec_wadd(int_row(bias), row_of(left, tt, 0)),
                0int,
            ));
        }
        while i < n - 1
            invariant
                i <= n - 1,
                n >= 1,
                self.wf(),
                self.tag_names@.len() == tcount,
                tcount >= 1,
                tt == tcount as int,
                n == sentence.chars@.len(),
                n < 0x8000_0000,
                n * tcount <= usize::MAX,
                sentence.wf(),
                sentence.chars == s_in.chars,
                sentence.char_types == s_in.char_types,
                sentence.boundaries == s_in.boundaries,
                sentence.boundary_scores == s_in.boundary_scores,
                sentence.tag_scores == s_in.tag_scores,
                sentence.boundaries@ == bounds,
                sentence.tag_scores.left_scores@ == left,
                sentence.tag_scores.right_scores@ == right,
                sentence.tag_scores.self_scores@ == selfs,
                bias == self.tag_bias@,
                left.len() == n * tcount,
                right.len() == n * tcount,
                selfs.len() == n,
                acc@.len() == tcount,
                lbi <= i,
                int_row(acc@) == tag_state(bounds, left, bias, tt, i as int).0,
                lbi as int == tag_state(bounds, left, bias, tt, i as int).1,
                sentence.tags@.len() == n,
                forall|j: int|
                    0 <= j < i ==> (#[trigger] sentence.tags@[j]) == (if bounds[j]
                        == BoundaryType::WordBoundary {
                        Option::Some(
                            self.tag_names@[tag_choice(bounds, left, right, selfs, bias, tt, j)],
                        )
                    } else {
                        tags0[j]
                    }),
                forall|j: int| i <= j < n ==> (#[trigger] sentence.tags@[j]) == tags0[j],
            decreases n - 1 - i,
        {
            if sentence.boundaries[i] == BoundaryType::WordBoundary {
                add_mat_row(&mut acc, &sentence.tag_scores.right_scores, tcount, i, n);
                let diff: i32 = lbi as i32 - i as i32 - 1;
                apply_self(&mut acc, &sentence.tag_scores.self_scores[i], diff);
                proof {
                    lemma_argmax_range(int_row(acc@));
                }
                let name = self.best_tag(&acc);
                proof {
                    assert(name == self.tag_names@[tag_choice(
                        bounds,
                        left,
                        right,
                        selfs,
                        bias,
                        tt,
                        i as int,
                    )]);
                }
                sentence.tags.set(i, Some(name));
                reset_acc(
                    &mut acc,
                    &self.tag_bias,
                    &sentence.tag_scores.left_scores,
                    tcount,
                    i + 1,
                    n,
                );
                lbi = i + 1;
            }
            proof {
                assert(tag_state(bounds, left, bias, tt, i + 1) == (if bounds[i as int]
                    == BoundaryType::WordBoundary {
                    (vec_wadd(int_row(bias), row_of(left, tt, i + 1)), i + 1)
                } else {
                    tag_state(bounds, left, bias, tt, i as int)
                }));
            }
            i += 1;
        }
        add_mat_row(&mut acc, &sentence.tag_scores.right_scores, tcount, n - 1, n);
        let diff: i32 = lbi as i32 - n as i32;
        apply_self(&mut acc, &sentence.tag_scores.self_scores[n - 1], diff);
        proof {
            lemma_argmax_range(int_row(acc@));
        }
        let name = self.best_tag(&acc);
        proof {
            assert(name == self.tag_names@[final_tag_choice(
                bounds,
                left,
                right,
                selfs,
                bias,
                tt,
                n as int,
            )]);
        }
        sentence.tags.set(n - 1, Some(name));
        proof {
            assert(sentence.tags@ =~= filled_tags(
                bounds,
                left,
                right,
                selfs,
                bias,
                self.tag_names@,
                tags0,
                tt,
                n as int,
            ));
        }
        sentence
    }
}

} // verus!
