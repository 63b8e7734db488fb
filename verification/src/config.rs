//! Cognitive configuration: choices that are not timings.
use vstd::prelude::*;

verus! {

/// Aggregation mode for spreading activation: how activation arriving at
/// the same memory by different paths is combined.
#[derive(Debug, Clone, Copy, PartialEq, Eq, Structural)]
pub enum SpreadingAggregation {
    /// Keep maximum activation (prevents runaway, default)
    Max,
    /// Sum all activations (classical spreading activation)
    Sum,
}

impl Default for SpreadingAggregation {
    /// `Max`
    fn default() -> (a: Self)
        ensures
            a == SpreadingAggregation::Max,
    {
        SpreadingAggregation::Max
    }
}

} // verus!
