//! What the loop is run with.

use vstd::prelude::*;
use crate::labels::ModelVariant;
use crate::preview::PreviewMode;
use crate::rounding::{div_round, round_div};

verus! {

/// The settings of the loop.
#[derive(Clone, Copy, Debug, PartialEq, Eq, Structural)]
pub struct PipelineConfig {
    /// Time between two cycles, in milliseconds.
    pub period_ms: u64,
    /// The score, in millionths, that a row must reach to count as a detection.
    pub threshold: i64,
    pub model: ModelVariant,
    pub preview: PreviewMode,
    /// Whether the loop reports what it does.
    pub verbose: bool,
    /// Whether a detection suppresses only detections of its own class.
    pub per_class: bool,
}

/// The period, in milliseconds, of a loop that runs `rate` thousandths of a
/// cycle each second: a thousand seconds over the rate, to the nearest
/// millisecond.
pub open spec fn period_of(rate: int) -> int
    recommends
        rate > 0,
{
    round_div(1_000_000, rate)
}

/// The period of a loop of the given rate; none for a rate of zero.
pub fn period_ms(rate: u32) -> (r: Option<u64>)
    ensures
        r is Some <==> rate > 0,
        r matches Some(p) ==> p == period_of(rate as int),
{
    if rate == 0 {
        None
    } else {
        proof {
            crate::rounding::lemma_round_div_bound(1_000_000, rate as int, 1_000_000);
            assert(1_000_000 * (rate as int) >= 1_000_000) by (nonlinear_arith)
                requires
                    rate >= 1,
            ;
        }
        Some(div_round(1_000_000, rate as i128) as u64)
    }
}

impl PipelineConfig {
    /// The settings for a loop of `rate` thousandths of a cycle each second;
    /// none for a rate of zero. Suppression is across classes.
    pub fn new(
        rate: u32,
        threshold: i64,
        model: ModelVariant,
        preview: PreviewMode,
        verbose: bool,
    ) -> (r: Option<PipelineConfig>)
        ensures
            r is Some <==> rate > 0,
            r matches Some(c) ==> c == (PipelineConfig {
                period_ms: period_of(rate as int) as u64,
                threshold,
                model,
                preview,
                verbose,
                per_class: false,
            }),
    {
        match period_ms(rate) {
            None => None,
            Some(period_ms) => Some(
                PipelineConfig { period_ms, threshold, model, preview, verbose, per_class: false },
            ),
        }
    }
}

impl Default for PipelineConfig {
    /// Half a cycle each second, a threshold of 0.4, model A, the largest
    /// preview, no reporting, suppression across classes.
    fn default() -> (c: PipelineConfig)
        ensures
            c == (PipelineConfig {
                period_ms: 2_000,
                threshold: 400_000,
                model: ModelVariant::A,
                preview: PreviewMode::High,
                verbose: false,
                per_class: false,
            }),
    {
        PipelineConfig {
            period_ms: 2_000,
            threshold: 400_000,
            model: ModelVariant::A,
            preview: PreviewMode::High,
            verbose: false,
            per_class: false,
        }
    }
}

/// The default period is that of half a cycle each second.
pub proof fn lemma_default_period()
    ensures
        period_of(500) == 2_000,
{
    assert((2 * 1_000_000int + 500) / (2 * 500int) == 2_000);
}

} // verus!
