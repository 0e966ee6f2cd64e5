//! Character-type n-gram scorer: the same windowed geometry as the
//! character scorer, over the sequence of class codes.

use crate::errors::VaporettoError;
use crate::model::NgramModel;
use crate::scores::{add_ngram_scores_bytes, ngrams_sum, wrap32};
use crate::text::copy_weights;
use vstd::prelude::*;

verus! {

/// Scores boundaries from n-grams of character class codes.
pub struct TypeScorer {
    pub pats: Vec<Vec<u8>>,
    pub weights: Vec<Vec<i32>>,
    pub window_size: usize,
}

/// A type n-gram model is accepted exactly when every pattern is non-empty.
pub open spec fn type_model_valid(model: NgramModel<Vec<u8>>) -> bool {
    forall|k: int| 0 <= k < model.data@.len() ==> #[trigger] model.data@[k].ngram@.len() >= 1
}

impl TypeScorer {
    /// One pattern list and one weight list, in step.
    pub open spec fn wf(&self) -> bool {
        self.pats@.len() == self.weights@.len()
    }

    /// The total type-n-gram contribution to gap `g` of the sentence whose
    /// class codes are `types`.
    pub open spec fn gap_sum(&self, types: Seq<u8>, g: int) -> int {
        ngrams_sum(self.pats@, self.weights@, types, self.window_size as int, g, self.pats@.len() as int)
    }

    /// Builds the scorer. Fails exactly when some pattern is empty.
    pub fn new(model: NgramModel<Vec<u8>>, window_size: usize) -> (r: Result<
        TypeScorer,
        VaporettoError,
    >)
        ensures
            r is Ok <==> type_model_valid(model),
            r matches Ok(s) ==> {
                &&& s.wf()
                &&& s.window_size == window_size
                &&& s.pats@.len() == model.data@.len()
                &&& forall|k: int|
                    0 <= k < model.data@.len() ==> (#[trigger] s.pats@[k])@ == model.data@[k].ngram@
                        && s.weights@[k]@ == model.data@[k].weights@
            },
            r is Err ==> r == Result::<TypeScorer, VaporettoError>::Err(VaporettoError::InvalidModel),
    {
        let mut pats: Vec<Vec<u8>> = Vec::new();
        let mut weights: Vec<Vec<i32>> = Vec::new();
        let mut k: usize = 0;
        while k < model.data.len()
            invariant
                k <= model.data@.len(),
                pats@.len() == k,
                weights@.len() == k,
                forall|j: int|
                    0 <= j < k ==> (#[trigger] pats@[j])@ == model.data@[j].ngram@ && weights@[j]@
                        == model.data@[j].weights@,
                forall|j: int| 0 <= j < k ==> #[trigger] model.data@[j].ngram@.len() >= 1,
            decreases model.data@.len() - k,
        {
            let d = &model.data[k];
            if d.ngram.len() == 0 {
                return Err(VaporettoError::InvalidModel);
            }
            pats.push(copy_bytes(&d.ngram));
            weights.push(copy_weights(&d.weights));
            k += 1;
        }
        Ok(TypeScorer { pats, weights, window_size })
    }

    /// Adds the type-n-gram contributions into the padded score buffer.
    pub fn add_scores(&self, types: &Vec<u8>, padding: usize, ys: &mut Vec<i32>)
        requires
            self.wf(),
            self.window_size <= padding,
            padding + types@.len() <= usize::MAX,
        ensures
            final(ys)@.len() == old(ys)@.len(),
            forall|t: int|
                0 <= t < old(ys)@.len() ==> final(ys)@[t] as int == wrap32(
                    old(ys)@[t] + self.gap_sum(types@, t - padding),
                ),
    {
        add_ngram_scores_bytes(&self.pats, &self.weights, types, self.window_size, padding, ys);
    }
}

/// A fresh vector with the same bytes.
pub fn copy_bytes(v: &Vec<u8>) -> (r: Vec<u8>)
    ensures
        r@ == v@,
{
    let mut out: Vec<u8> = Vec::new();
    let mut i: usize = 0;
    while i < v.len()
        invariant
            i <= v@.len(),
            out@ == v@.subrange(0, i as int),
        decreases v@.len() - i,
    {
        out.push(v[i]);
        proof {
            assert(out@ =~= v@.subrange(0, i + 1));
        }
        i += 1;
    }
    proof {
        assert(out@ =~= v@);
    }
    out
}

} // verus!
