use vstd::prelude::*;

verus! {

/// # Loss Metric
///
/// Evaluates the predictive accuracy of the scoring engine against actual market outcomes.
pub struct LossMetric;

/// # Precision Metric
///
/// Computes the precision of LONG, SHORT, and NEUTRAL predictions.
pub struct PrecisionMetric;

/// # Profit-Loss Metric
///
/// Computes trading stats to eval the performance of the algorithm in terms of profit/loss.
pub struct ProfitLossMetric;

/// Computes statistics for different metrics.
///
/// Extremely useful for development and analysis.
pub struct StatsMetric;

impl LossMetric {
    /// The name under which the metric is registered.
    pub fn name(&self) -> (s: String)
        ensures
            s@ == "loss"@,
    {
        "loss".to_string()
    }
}

impl PrecisionMetric {
    /// The name under which the metric is registered.
    pub fn name(&self) -> (s: String)
        ensures
            s@ == "precision"@,
    {
        "precision".to_string()
    }
}

impl ProfitLossMetric {
    /// The name under which the metric is registered.
    pub fn name(&self) -> (s: String)
        ensures
            s@ == "profit_loss"@,
    {
        "profit_loss".to_string()
    }
}

impl StatsMetric {
    /// The name under which the metric is registered.
    pub fn name(&self) -> (s: String)
        ensures
            s@ == "stats"@,
    {
        "stats".to_string()
    }
}

} // verus!
