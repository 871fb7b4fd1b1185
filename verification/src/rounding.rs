//! How a value that lies between two floats is settled on one of them.

use vstd::prelude::*;

verus! {

/// The rounding of a value that no float holds exactly.
#[derive(Clone, Copy, Debug, PartialEq, Eq, Hash, Structural)]
pub enum RoundingKind {
    /// To the nearest float; halfway, to the one whose mantissa is even.
    NearestTieEven,
    /// To the nearest float; halfway, to the one farther from zero.
    NearestTieAwayZero,
    /// To the nearest float that is not below the value.
    TowardPositiveInfinity,
    /// To the nearest float that is not above the value.
    TowardNegativeInfinity,
    /// To the nearest float that is not farther from zero than the value.
    TowardZero,
}

impl RoundingKind {
    /// Whether a magnitude is rounded up, away from zero, when it lies
    /// `rem / divisor` above the candidate with mantissa `quotient`, and the
    /// value has the sign that `negative` gives.
    pub open spec fn rounds_up(
        self,
        negative: bool,
        quotient: nat,
        rem: nat,
        divisor: nat,
    ) -> bool {
        match self {
            RoundingKind::NearestTieEven => 2 * rem > divisor || (2 * rem == divisor && quotient
                % 2 == 1),
            RoundingKind::NearestTieAwayZero => 2 * rem >= divisor,
            RoundingKind::TowardPositiveInfinity => !negative && rem > 0,
            RoundingKind::TowardNegativeInfinity => negative && rem > 0,
            RoundingKind::TowardZero => false,
        }
    }
}

/// Where a remainder lies in the gap between a candidate and the next float.
#[derive(Clone, Copy, Debug, PartialEq, Eq, Structural)]
pub enum Remainder {
    /// The value is the candidate.
    Exact,
    /// The value is above the candidate and below halfway.
    BelowHalf,
    /// The value is halfway.
    Half,
    /// The value is above halfway.
    AboveHalf,
}

impl Remainder {
    /// The place of `rem / divisor` in the gap.
    pub open spec fn of(rem: nat, divisor: nat) -> Remainder {
        if rem == 0 {
            Remainder::Exact
        } else if 2 * rem < divisor {
            Remainder::BelowHalf
        } else if 2 * rem == divisor {
            Remainder::Half
        } else {
            Remainder::AboveHalf
        }
    }
}

/// Decide whether a magnitude is rounded up, from the place of the value in
/// the gap above the candidate.
pub fn round_up(kind: RoundingKind, negative: bool, odd: bool, place: Remainder) -> (r: bool)
    ensures
        forall|quotient: nat, rem: nat, divisor: nat|
            #![trigger kind.rounds_up(negative, quotient, rem, divisor)]
            divisor > 0 && place == Remainder::of(rem, divisor) && odd == (quotient % 2 == 1)
                ==> r == kind.rounds_up(negative, quotient, rem, divisor),
{
    match kind {
        RoundingKind::NearestTieEven => match place {
            Remainder::AboveHalf => true,
            Remainder::Half => odd,
            _ => false,
        },
        RoundingKind::NearestTieAwayZero => match place {
            Remainder::AboveHalf => true,
            Remainder::Half => true,
            _ => false,
        },
        RoundingKind::TowardPositiveInfinity => !negative && !matches!(place, Remainder::Exact),
        RoundingKind::TowardNegativeInfinity => negative && !matches!(place, Remainder::Exact),
        RoundingKind::TowardZero => false,
    }
}

} // verus!
