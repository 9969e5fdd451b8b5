use vstd::prelude::*;

use crate::signal::Decision;

verus! {

/// Which sides a ticker may be traded on.
#[derive(Clone, Copy, Debug, PartialEq, Eq, Structural)]
pub struct TradeGate {
    pub longs_enabled: bool,
    pub shorts_enabled: bool,
}

/// The decision that is actually traded: a long or short decision survives
/// only if that side is enabled, everything else stands aside.
pub open spec fn gated_decision(gate: TradeGate, d: Decision) -> Decision {
    if gate.longs_enabled && d == Decision::Long {
        Decision::Long
    } else if gate.shorts_enabled && d == Decision::Short {
        Decision::Short
    } else {
        Decision::Neutral
    }
}

/// The restrictions of a gate, as shown to users.
pub open spec fn gate_specifics(gate: TradeGate) -> Seq<Seq<char>> {
    (if gate.longs_enabled {
        Seq::<Seq<char>>::empty()
    } else {
        seq!["no longs"@]
    }) + (if gate.shorts_enabled {
        Seq::<Seq<char>>::empty()
    } else {
        seq!["no shorts"@]
    })
}

impl TradeGate {
    /// The side that may be traded for `decision` under this gate.
    pub fn apply(&self, decision: Decision) -> (d: Decision)
        ensures
            d == gated_decision(*self, decision),
            (d == Decision::Long) <==> (self.longs_enabled && decision == Decision::Long),
            (d == Decision::Short) <==> (self.shorts_enabled && decision == Decision::Short),
    {
        if self.longs_enabled && decision == Decision::Long {
            Decision::Long
        } else if self.shorts_enabled && decision == Decision::Short {
            Decision::Short
        } else {
            Decision::Neutral
        }
    }

    /// Lists the disabled sides: `no longs`, then `no shorts`.
    pub fn specifics(&self) -> (v: Vec<String>)
        ensures
            v@.map_values(|s: String| s@) == gate_specifics(*self),
    {
        let mut v: Vec<String> = Vec::new();
        if !self.longs_enabled {
            v.push("no longs".to_string());
        }
        if !self.shorts_enabled {
            v.push("no shorts".to_string());
        }
        assert(v@.map_values(|s: String| s@) =~= gate_specifics(*self));
        v
    }
}

/// A gated decision never takes a side that is disabled, and with both
/// sides enabled the decision is kept as it is. It is long exactly when
/// longs are enabled and the decision is long, and short exactly when shorts
/// are enabled and the decision is short: whether the other side is enabled
/// never matters.
pub proof fn lemma_gate_laws(gate: TradeGate, d: Decision)
    ensures
        gated_decision(gate, d) == Decision::Long ==> gate.longs_enabled,
        gated_decision(gate, d) == Decision::Short ==> gate.shorts_enabled,
        gated_decision(gate, d) == d || gated_decision(gate, d) == Decision::Neutral,
        gate.longs_enabled && gate.shorts_enabled ==> gated_decision(gate, d) == d,
        (gated_decision(gate, d) == Decision::Long) <==> (gate.longs_enabled && d
            == Decision::Long),
        (gated_decision(gate, d) == Decision::Short) <==> (gate.shorts_enabled && d
            == Decision::Short),
        gated_decision(gate, d) == Decision::Long ==> gated_decision(
            TradeGate { longs_enabled: gate.longs_enabled, shorts_enabled: !gate.shorts_enabled },
            d,
        ) == Decision::Long,
{
}

} // verus!
