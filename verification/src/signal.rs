use vstd::prelude::*;

verus! {

/// The trading decision produced by the final score.
#[derive(Clone, Copy, Debug, PartialEq, Eq, Structural)]
pub enum Decision {
    Long,
    Short,
    Neutral,
}

/// The coarse classification of an aggregated score signal.
#[derive(Clone, Copy, Debug, PartialEq, Eq, Structural)]
pub enum FinalScore {
    Long,
    Short,
    Neutral,
}

/// The dimensions along which indicators contribute score records.
#[derive(Clone, Copy, Debug, PartialEq, Eq, Structural)]
pub enum ScoreType {
    Direction,
    Quality,
    Strength,
    Volatility,
}

/// Where the final score lies against the decision thresholds. The long
/// threshold is positive and the short threshold negative, so a score above
/// the long threshold is positive and one below the short threshold negative.
#[derive(Clone, Copy, Debug, PartialEq, Eq, Structural)]
pub enum ScoreZone {
    AboveLong,
    Between,
    BelowShort,
}

/// The decision for a score in `zone` when the macro trend vetoes shorts
/// and/or longs: a vetoed side stands aside.
pub open spec fn zone_decision(zone: ScoreZone, veto_shorts: bool, veto_longs: bool) -> Decision {
    match zone {
        ScoreZone::AboveLong => if veto_longs {
            Decision::Neutral
        } else {
            Decision::Long
        },
        ScoreZone::BelowShort => if veto_shorts {
            Decision::Neutral
        } else {
            Decision::Short
        },
        ScoreZone::Between => Decision::Neutral,
    }
}

/// The label under which a [Decision] is shown to users.
pub open spec fn decision_label(d: Decision) -> Seq<char> {
    match d {
        Decision::Long => "LONG"@,
        Decision::Short => "SHORT"@,
        Decision::Neutral => "NEUTRAL"@,
    }
}

/// The label under which a [FinalScore] is shown to users.
pub open spec fn final_score_label(f: FinalScore) -> Seq<char> {
    match f {
        FinalScore::Long => "Long"@,
        FinalScore::Short => "Short"@,
        FinalScore::Neutral => "Neutral"@,
    }
}

/// Categorical mismatch between a predicted and a realised decision, in
/// half units of loss: 0 for an exact match, 1 when exactly one side stands
/// aside (neutral), 2 when the two sides are opposite.
pub open spec fn decision_mismatch(pred: Decision, target: Decision) -> nat {
    if pred == target {
        0
    } else if pred == Decision::Neutral || target == Decision::Neutral {
        1
    } else {
        2
    }
}

/// Categorical mismatch between two [FinalScore] classifications, in half
/// units of loss, with the same table as [decision_mismatch].
pub open spec fn final_score_mismatch(pred: FinalScore, target: FinalScore) -> nat {
    if pred == target {
        0
    } else if pred == FinalScore::Neutral || target == FinalScore::Neutral {
        1
    } else {
        2
    }
}

/// Lowest admissible value of a score record of the given type.
pub open spec fn score_lower_bound(ty: ScoreType) -> int {
    match ty {
        ScoreType::Strength => 0,
        _ => -1,
    }
}

/// Highest admissible value of a score record of the given type.
pub open spec fn score_upper_bound(ty: ScoreType) -> int {
    1
}

impl Decision {
    /// Returns the display label: `LONG`, `SHORT` or `NEUTRAL`.
    pub fn label(&self) -> (s: String)
        ensures
            s@ == decision_label(*self),
    {
        match self {
            Decision::Long => "LONG".to_string(),
            Decision::Short => "SHORT".to_string(),
            Decision::Neutral => "NEUTRAL".to_string(),
        }
    }

    /// Returns true for decisions that open a position (long or short).
    pub fn is_trade(&self) -> (b: bool)
        ensures
            b == (*self != Decision::Neutral),
    {
        !matches!(self, Decision::Neutral)
    }

    /// The categorical decision loss in half units: 0 = exact match,
    /// 1 = neutral mismatch, 2 = opposite side.
    pub fn mismatch_halves(pred: Decision, target: Decision) -> (h: u8)
        ensures
            h == decision_mismatch(pred, target),
    {
        match (pred, target) {
            (Decision::Long, Decision::Long)
            | (Decision::Short, Decision::Short)
            | (Decision::Neutral, Decision::Neutral) => 0,
            (Decision::Neutral, _) | (_, Decision::Neutral) => 1,
            _ => 2,
        }
    }
}

impl Decision {
    /// The decision for a final score in `zone`: long above the long
    /// threshold, short below the short threshold, neutral in between; a
    /// side vetoed by the macro trend is neutralised.
    pub fn from_zone(zone: ScoreZone, veto_shorts: bool, veto_longs: bool) -> (d: Decision)
        ensures
            d == zone_decision(zone, veto_shorts, veto_longs),
            (d == Decision::Long) <==> (zone == ScoreZone::AboveLong && !veto_longs),
            (d == Decision::Short) <==> (zone == ScoreZone::BelowShort && !veto_shorts),
            zone == ScoreZone::Between ==> d == Decision::Neutral,
    {
        match zone {
            ScoreZone::AboveLong => {
                if veto_longs {
                    Decision::Neutral
                } else {
                    Decision::Long
                }
            },
            ScoreZone::BelowShort => {
                if veto_shorts {
                    Decision::Neutral
                } else {
                    Decision::Short
                }
            },
            ScoreZone::Between => Decision::Neutral,
        }
    }
}

impl FinalScore {
    /// Returns the display label: `Long`, `Short` or `Neutral`.
    pub fn label(&self) -> (s: String)
        ensures
            s@ == final_score_label(*self),
    {
        match self {
            FinalScore::Long => "Long".to_string(),
            FinalScore::Short => "Short".to_string(),
            FinalScore::Neutral => "Neutral".to_string(),
        }
    }

    /// Returns true for classifications that take a trade (long or short).
    pub fn is_trade(&self) -> (b: bool)
        ensures
            b == (*self != FinalScore::Neutral),
    {
        matches!(self, FinalScore::Long | FinalScore::Short)
    }

    /// The final classification loss in half units: 0 = exact match,
    /// 1 = neutral mismatch, 2 = opposite side.
    pub fn mismatch_halves(pred: FinalScore, target: FinalScore) -> (h: u8)
        ensures
            h == final_score_mismatch(pred, target),
    {
        match (pred, target) {
            (FinalScore::Long, FinalScore::Long) => 0,
            (FinalScore::Short, FinalScore::Short) => 0,
            (FinalScore::Neutral, FinalScore::Neutral) => 0,
            (FinalScore::Neutral, _) => 1,
            (_, FinalScore::Neutral) => 1,
            _ => 2,
        }
    }
}

impl ScoreType {
    /// Lowest admissible value of a record of this type
    /// (0 for strength, -1 for the others).
    pub fn lower_bound(&self) -> (b: i8)
        ensures
            b == score_lower_bound(*self),
    {
        match self {
            ScoreType::Strength => 0,
            _ => -1,
        }
    }

    /// Highest admissible value of a record of this type (always 1).
    pub fn upper_bound(&self) -> (b: i8)
        ensures
            b == score_upper_bound(*self),
    {
        1
    }
}

/// The decision loss table is symmetric, vanishes exactly on a match and
/// never exceeds a full unit (two halves).
pub proof fn lemma_decision_mismatch_laws(pred: Decision, target: Decision)
    ensures
        decision_mismatch(pred, target) == decision_mismatch(target, pred),
        (decision_mismatch(pred, target) == 0) <==> (pred == target),
        decision_mismatch(pred, target) <= 2,
        (decision_mismatch(pred, target) == 2) <==> (pred != Decision::Neutral && target
            != Decision::Neutral && pred != target),
{
}

/// A side vetoed by the macro trend is never the decision, and without
/// vetoes the decision follows the score's zone.
pub proof fn lemma_veto_blocks_side(zone: ScoreZone, veto_shorts: bool, veto_longs: bool)
    ensures
        veto_shorts ==> zone_decision(zone, veto_shorts, veto_longs) != Decision::Short,
        veto_longs ==> zone_decision(zone, veto_shorts, veto_longs) != Decision::Long,
        !veto_shorts && !veto_longs ==> zone_decision(zone, veto_shorts, veto_longs) == match zone {
            ScoreZone::AboveLong => Decision::Long,
            ScoreZone::BelowShort => Decision::Short,
            ScoreZone::Between => Decision::Neutral,
        },
{
}

/// The decision is long exactly above the long threshold without a veto of
/// longs, short exactly below the short threshold without a veto of shorts,
/// and a score between the thresholds is neutral whatever the vetoes.
pub proof fn lemma_zone_decision_laws(zone: ScoreZone, veto_shorts: bool, veto_longs: bool)
    ensures
        (zone_decision(zone, veto_shorts, veto_longs) == Decision::Long) <==> (zone
            == ScoreZone::AboveLong && !veto_longs),
        (zone_decision(zone, veto_shorts, veto_longs) == Decision::Short) <==> (zone
            == ScoreZone::BelowShort && !veto_shorts),
        zone == ScoreZone::Between ==> zone_decision(zone, veto_shorts, veto_longs)
            == Decision::Neutral,
{
}

/// The final classification loss table is symmetric, vanishes exactly on a
/// match and never exceeds a full unit (two halves).
pub proof fn lemma_final_score_mismatch_laws(pred: FinalScore, target: FinalScore)
    ensures
        final_score_mismatch(pred, target) == final_score_mismatch(target, pred),
        (final_score_mismatch(pred, target) == 0) <==> (pred == target),
        final_score_mismatch(pred, target) <= 2,
{
}

} // verus!
