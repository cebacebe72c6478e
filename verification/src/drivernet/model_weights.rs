//! The parameters of a trained compatibility model.

use vstd::prelude::*;

verus! {

pub const FEATURE_COUNT: usize = 24;

pub const STRATEGY_COUNT: usize = 7;

/// One trained linear model: a row of weights, a bias and a margin per
/// strategy, and the centre and scale of each feature.
pub struct ModelWeights {
    pub schema: u32,
    pub corpus_root: u64,
    pub model_root: u64,
    pub weights: [[i32; FEATURE_COUNT]; STRATEGY_COUNT],
    pub bias: [i32; STRATEGY_COUNT],
    pub feature_center: [i16; FEATURE_COUNT],
    pub feature_scale: [i16; FEATURE_COUNT],
    pub minimum_margin: [i32; STRATEGY_COUNT],
}

} // verus!
