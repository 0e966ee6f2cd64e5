//! The library's general laws, stated and proved once: padding invariance,
//! additivity of the gap scores, the thresholding rule, determinism of tag
//! assignment, argmax behaviour without ties, and the single-hit rule of
//! the self-weight scan.

use crate::predictor::{
    argmax_last, filled_tags, row_padded, scan_from, zero_row, CharScorerWrapper, Predictor,
};
use crate::scores::{dict_sum, ngrams_sum, wrap32};
use crate::sentence::{BoundaryType, SelfWeight, Sentence};
use vstd::prelude::*;

verus! {

/// The wrapped score that a scoring pass leaves in slot `t` of a buffer
/// padded by `padding`: slot `padding + g` holds the score of gap `g`.
pub open spec fn padded_slot(
    p: Predictor,
    chars: Seq<char>,
    types: Seq<u8>,
    padding: int,
    t: int,
) -> int {
    wrap32(p.gap_score(chars, types, t - padding))
}

/// Padding invariance: two score buffers filled with any two paddings at
/// least the window sizes hold the same scores in the slots that stand for
/// the gaps, so trimming each by its own padding yields the same boundary
/// scores.
pub proof fn lemma_padding_invariance(
    p: Predictor,
    chars: Seq<char>,
    types: Seq<u8>,
    ys1: Seq<i32>,
    ys2: Seq<i32>,
    pad1: int,
    pad2: int,
    n: int,
)
    requires
        ys1.len() >= pad1 + n - 1,
        ys2.len() >= pad2 + n - 1,
        pad1 >= 0,
        pad2 >= 0,
        forall|t: int|
            0 <= t < ys1.len() ==> (#[trigger] ys1[t]) as int == padded_slot(p, chars, types, pad1, t),
        forall|t: int|
            0 <= t < ys2.len() ==> (#[trigger] ys2[t]) as int == padded_slot(p, chars, types, pad2, t),
    ensures
        forall|g: int| 0 <= g < n - 1 ==> ys1[pad1 + g] == #[trigger] ys2[pad2 + g],
{
    assert forall|g: int| 0 <= g < n - 1 implies ys1[pad1 + g] == #[trigger] ys2[pad2 + g] by {
        assert(ys1[pad1 + g] as int == padded_slot(p, chars, types, pad1, pad1 + g));
        assert(ys2[pad2 + g] as int == padded_slot(p, chars, types, pad2, pad2 + g));
    }
}

/// Additivity: every gap score is the bias plus the character-n-gram sum,
/// the dictionary sum and the type-n-gram sum for that gap.
pub proof fn lemma_additivity(p: Predictor, chars: Seq<char>, types: Seq<u8>, g: int)
    ensures
        p.gap_score(chars, types, g) == p.bias + p.char_part(chars, g) + p.type_scorer.gap_sum(
            types,
            g,
        ),
        p.char_scorer matches CharScorerWrapper::Boundary(cs) ==> p.char_part(chars, g)
            == ngrams_sum(
            cs.ngram_pats@,
            cs.ngram_weights@,
            chars,
            cs.window_size as int,
            g,
            cs.ngram_pats@.len() as int,
        ) + dict_sum(cs.dict_words@, cs.dict_weights@, chars, g, cs.dict_words@.len() as int),
        p.char_scorer matches CharScorerWrapper::BoundaryAndTags(cs) ==> p.char_part(chars, g)
            == ngrams_sum(
            cs.base.ngram_pats@,
            cs.base.ngram_weights@,
            chars,
            cs.base.window_size as int,
            g,
            cs.base.ngram_pats@.len() as int,
        ) + dict_sum(
            cs.base.dict_words@,
            cs.base.dict_weights@,
            chars,
            g,
            cs.base.dict_words@.len() as int,
        ),
{
}

/// Thresholding: a gap is labelled a word boundary exactly when its score
/// is at least zero. This holds of every sentence that
/// `predict_with_score` hands back.
pub proof fn lemma_thresholding(p: Predictor, s0: Sentence, r: Sentence)
    requires
        p.predicted(s0, r),
        r.boundary_scores@.len() == s0.chars@.len() - 1,
        forall|g: int|
            0 <= g < r.boundary_scores@.len() ==> (#[trigger] r.boundary_scores@[g]) as int
                == wrap32(p.gap_score(s0.chars@, s0.char_types@, g)),
    ensures
        forall|g: int|
            0 <= g < r.boundaries@.len() ==> ((#[trigger] r.boundaries@[g])
                == BoundaryType::WordBoundary <==> r.boundary_scores@[g] >= 0),
{
    assert forall|g: int| 0 <= g < r.boundaries@.len() implies ((#[trigger] r.boundaries@[g])
        == BoundaryType::WordBoundary <==> r.boundary_scores@[g] >= 0) by {
        assert(r.boundaries@[g] == p.label_of(s0.chars@, s0.char_types@, g));
        assert(r.boundary_scores@[g] as int == wrap32(p.gap_score(s0.chars@, s0.char_types@, g)));
    }
}

/// Tag determinism: the assigned tags are a function of the boundaries,
/// the tag-score matrices, the tag biases and the tag names alone; equal
/// inputs give equal tags.
pub proof fn lemma_tag_determinism(
    bounds: Seq<BoundaryType>,
    left: Seq<i32>,
    right: Seq<i32>,
    selfs: Seq<Option<Vec<SelfWeight>>>,
    bias: Seq<i32>,
    names: Seq<String>,
    tags1: Seq<Option<String>>,
    tags2: Seq<Option<String>>,
    t: int,
    n: int,
)
    ensures
        forall|i: int|
            0 <= i < n && (i == n - 1 || bounds[i] == BoundaryType::WordBoundary)
                ==> #[trigger] filled_tags(bounds, left, right, selfs, bias, names, tags1, t, n)[i]
                == filled_tags(bounds, left, right, selfs, bias, names, tags2, t, n)[i],
{
}

/// Argmax without ties: where one entry strictly exceeds every other, the
/// chosen tag index is that entry's index, which is then also the lowest
/// index attaining the maximum.
pub proof fn lemma_argmax_unique_max(s: Seq<int>, m: int)
    requires
        s.len() >= 1,
        0 <= m < s.len(),
        forall|i: int| 0 <= i < s.len() && i != m ==> #[trigger] s[i] < s[m],
    ensures
        argmax_last(s) == m,
    decreases s.len(),
{
    if s.len() > 1 {
        let pre = s.drop_last();
        if m == s.len() - 1 {
            crate::predictor::lemma_argmax_range(pre);
            let r = argmax_last(pre);
            assert(pre[r] == s[r]);
        } else {
            lemma_argmax_unique_max(pre, m);
            assert(pre[m] == s[m]);
            assert(s[s.len() - 1] < s[m]);
        }
    }
}

/// Self-weight single hit: the scan of a self-score list yields either the
/// zero row or the weight row of exactly one record, and that record's
/// relative start equals `diff`.
pub proof fn lemma_self_single_hit(l: Seq<SelfWeight>, j: int, diff: int, t: int)
    requires
        0 <= j <= l.len(),
    ensures
        scan_from(l, j, diff, t) == zero_row(t) || exists|k: int|
            j <= k < l.len() && (#[trigger] l[k].start_rel_position) == diff && scan_from(
                l,
                j,
                diff,
                t,
            ) == row_padded(l[k].weight@, t),
    decreases l.len() - j,
{
    if j < l.len() {
        if l[j].start_rel_position > diff {
            lemma_self_single_hit(l, j + 1, diff, t);
        } else if l[j].start_rel_position == diff {
            assert(l[j].start_rel_position == diff);
        }
    }
}

} // verus!
