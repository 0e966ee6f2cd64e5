//! A string filter applying the half-width to full-width remap, usable
//! wherever a reusable filter value is wanted.

use crate::preprocess_kytea_style::{fullwidth_of, preprocess_kytea_style};
use vstd::prelude::*;

verus! {

/// Half-width to full-width filter over whole strings.
#[derive(Clone, Copy)]
pub struct KyteaFullwidthFilter;

impl KyteaFullwidthFilter {
    /// Remaps every character of `string` to its full-width form.
    pub fn filter(&self, string: &str) -> (r: String)
        ensures
            r@.len() == string@.len(),
            forall|i: int| 0 <= i < string@.len() ==> r@[i] == fullwidth_of(string@[i]),
    {
        preprocess_kytea_style(string)
    }
}

impl Default for KyteaFullwidthFilter {
    /// The filter; it carries no state.
    fn default() -> (r: Self) {
        KyteaFullwidthFilter
    }
}

} // verus!
