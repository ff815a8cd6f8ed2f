use vstd::prelude::*;

verus! {

/// How the phase of a bin is taken from its in-phase and quadrature parts.
#[derive(Debug, Clone, Copy, PartialEq, Eq, Structural)]
pub enum PhaseRule {
    /// A quarter turn: the bin points straight along the quadrature axis.
    QuarterTurn,
    /// A quarter turn backwards.
    NegativeQuarterTurn,
    /// The arctangent of quadrature over in-phase, as it is.
    Arctangent,
    /// The arctangent, moved on by half a turn.
    ArctangentPlusHalfTurn,
    /// The arctangent, moved back by half a turn.
    ArctangentMinusHalfTurn,
}

/// Number of half turns that a rule adds to the arctangent.
pub open spec fn spec_half_turns(rule: PhaseRule) -> int {
    match rule {
        PhaseRule::ArctangentPlusHalfTurn => 1,
        PhaseRule::ArctangentMinusHalfTurn => -1,
        _ => 0,
    }
}

/// The rule for a bin, by the signs of its parts.
///
/// Without an in-phase part the phase is a quarter turn towards the
/// quadrature part. Otherwise it is the arctangent of their ratio, which
/// only tells the right half plane: a bin with a negative in-phase part lies
/// half a turn away, on the side of its quadrature part.
pub open spec fn spec_phase_rule(
    in_phase_zero: bool,
    in_phase_negative: bool,
    quadrature_negative: bool,
) -> PhaseRule {
    if in_phase_zero {
        if quadrature_negative {
            PhaseRule::NegativeQuarterTurn
        } else {
            PhaseRule::QuarterTurn
        }
    } else if !in_phase_negative {
        PhaseRule::Arctangent
    } else if quadrature_negative {
        PhaseRule::ArctangentMinusHalfTurn
    } else {
        PhaseRule::ArctangentPlusHalfTurn
    }
}

/// Chooses how to take the phase of a bin from what is known of the signs of
/// its in-phase and quadrature parts.
pub fn phase_rule(in_phase_zero: bool, in_phase_negative: bool, quadrature_negative: bool) -> (rule:
    PhaseRule)
    ensures
        rule == spec_phase_rule(in_phase_zero, in_phase_negative, quadrature_negative),
{
    if in_phase_zero {
        if quadrature_negative {
            PhaseRule::NegativeQuarterTurn
        } else {
            PhaseRule::QuarterTurn
        }
    } else if in_phase_negative {
        if quadrature_negative {
            PhaseRule::ArctangentMinusHalfTurn
        } else {
            PhaseRule::ArctangentPlusHalfTurn
        }
    } else {
        PhaseRule::Arctangent
    }
}

/// Half a turn is added only in the left half plane, and then towards the
/// side of the quadrature part, so that the phase stays within half a turn
/// of zero. The mirror image of a bin gets the mirrored rule.
pub proof fn lemma_phase_rule_quadrants(
    in_phase_zero: bool,
    in_phase_negative: bool,
    quadrature_negative: bool,
)
    ensures
        ({
            let rule = spec_phase_rule(in_phase_zero, in_phase_negative, quadrature_negative);
            let mirrored = spec_phase_rule(in_phase_zero, in_phase_negative, !quadrature_negative);
            &&& spec_half_turns(rule) != 0 <==> !in_phase_zero && in_phase_negative
            &&& spec_half_turns(rule) == 1 ==> !quadrature_negative
            &&& spec_half_turns(rule) == -1 ==> quadrature_negative
            &&& spec_half_turns(mirrored) == -spec_half_turns(rule)
            &&& (rule == PhaseRule::QuarterTurn <==> mirrored == PhaseRule::NegativeQuarterTurn)
        }),
{
}

} // verus!
