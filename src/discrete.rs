use vstd::prelude::*;

verus! {

/// `x` held to the range of `i64`.
pub open spec fn clamp_i64(x: int) -> int {
    if x < i64::MIN {
        i64::MIN as int
    } else if x > i64::MAX {
        i64::MAX as int
    } else {
        x
    }
}

/// The value a discrete random walk proposes from `current`: `magnitude`
/// added when `up` holds and subtracted otherwise, saturating at the
/// bounds of `i64` rather than wrapping.
pub open spec fn proposal_spec(current: i64, magnitude: u64, up: bool) -> int {
    if up {
        clamp_i64(current + magnitude)
    } else {
        clamp_i64(current - magnitude)
    }
}

/// Move `current` by `magnitude` in the direction that `up` chooses,
/// saturating at the bounds of `i64`.
pub fn propose_discrete(current: i64, magnitude: u64, up: bool) -> (r: i64)
    ensures
        r == proposal_spec(current, magnitude, up),
{
    let wide: i128 = if up {
        current as i128 + magnitude as i128
    } else {
        current as i128 - magnitude as i128
    };
    if wide < i64::MIN as i128 {
        i64::MIN
    } else if wide > i64::MAX as i128 {
        i64::MAX
    } else {
        wide as i64
    }
}

/// Away from the bounds of `i64`, a move up by `m` is undone by a move
/// down by `m`, and the other way round: the proposal is symmetric.
pub proof fn lemma_proposal_symmetric(current: i64, magnitude: u64, up: bool)
    requires
        i64::MIN + magnitude <= current <= i64::MAX - magnitude,
    ensures
        proposal_spec(proposal_spec(current, magnitude, up) as i64, magnitude, !up) == current,
{
}

} // verus!
