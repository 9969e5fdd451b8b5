use vstd::prelude::*;

verus! {

/// # Macro Veto Indicator
///
/// Evaluates the long-term structural trend of the asset to determine if counter-trend trades should be strictly vetoed.
pub struct MacroVeto {
    /// If true, SHORT signals are blocked because the asset is in a confirmed uptrend.
    pub veto_shorts: Vec<bool>,
    /// If true, LONG signals are blocked because the asset is in a confirmed downtrend.
    pub veto_longs: Vec<bool>,
}

impl MacroVeto {
    /// Creates a veto indicator that has not been computed yet.
    pub fn new() -> (v: Self)
        ensures
            v.veto_shorts@ == Seq::<bool>::empty(),
            v.veto_longs@ == Seq::<bool>::empty(),
    {
        Self { veto_shorts: Vec::new(), veto_longs: Vec::new() }
    }

    /// The name under which the indicator is registered.
    pub fn name() -> (s: String)
        ensures
            s@ == "macro_veto"@,
    {
        "macro_veto".to_string()
    }

    /// Returns true once the veto series have been filled.
    pub fn is_computed(&self) -> (b: bool)
        ensures
            b == (self.veto_shorts@.len() > 0),
    {
        !self.veto_shorts.is_empty()
    }

    /// Whether short signals are vetoed at bar `i`; bars without a value are
    /// not vetoed.
    pub fn vetoes_short_at(&self, i: usize) -> (b: bool)
        ensures
            b == (i < self.veto_shorts@.len() && self.veto_shorts@[i as int]),
    {
        i < self.veto_shorts.len() && self.veto_shorts[i]
    }

    /// Whether long signals are vetoed at bar `i`; bars without a value are
    /// not vetoed.
    pub fn vetoes_long_at(&self, i: usize) -> (b: bool)
        ensures
            b == (i < self.veto_longs@.len() && self.veto_longs@[i as int]),
    {
        i < self.veto_longs.len() && self.veto_longs[i]
    }
}

} // verus!
