//! The bounded brightness ramp.
//!
//! A transition from one brightness to another is applied as a sequence of
//! intermediate values rather than a jump.  Large jumps take coarse steps
//! one time unit apart; small jumps take unit steps with proportionally
//! longer pauses.  Either way the whole transition fits a fixed time budget
//! of about `TRANSITION_SPEED` units, and the last applied value is exactly
//! the target.

use vstd::prelude::*;

verus! {

/// Time budget of one full transition, in clock units.
pub const TRANSITION_SPEED: u64 = 200;

/// The per-tick step size of a ramp across a distance `diff`.
pub open spec fn step_size(diff: u64) -> int {
    if diff >= TRANSITION_SPEED {
        diff as int / (TRANSITION_SPEED as int)
    } else {
        1
    }
}

/// The pause between ticks of a ramp across a distance `diff`.
pub open spec fn pause_units(diff: u64) -> int {
    if diff >= TRANSITION_SPEED {
        1
    } else {
        TRANSITION_SPEED as int / (diff as int)
    }
}

/// The values a ramp applies in order: from `current`, by `step` toward
/// `target`, never moving past it, until `target` itself is reached.
pub open spec fn ramp_seq(current: u64, target: u64, step: u64) -> Seq<u64>
    decreases
            (if current < target {
                target - current
            } else {
                current - target
            }),
{
    if step == 0 || current == target {
        Seq::empty()
    } else if current < target {
        let next: u64 = if target - current <= step {
            target
        } else {
            (current + step) as u64
        };
        seq![next] + ramp_seq(next, target, step)
    } else {
        let next: u64 = if current - target <= step {
            target
        } else {
            (current - step) as u64
        };
        seq![next] + ramp_seq(next, target, step)
    }
}

/// A ramp always terminates: it applies at most one value per unit of
/// distance between the two brightnesses.
pub proof fn lemma_ramp_seq_len(current: u64, target: u64, step: u64)
    requires
        step >= 1,
    ensures
        ramp_seq(current, target, step).len() <= (if current < target {
            target - current
        } else {
            current - target
        }),
    decreases
            (if current < target {
                target - current
            } else {
                current - target
            }),
{
    if current != target {
        let next: u64 = if current < target {
            if target - current <= step {
                target
            } else {
                (current + step) as u64
            }
        } else {
            if current - target <= step {
                target
            } else {
                (current - step) as u64
            }
        };
        lemma_ramp_seq_len(next, target, step);
    }
}

/// Step size and tick pause for a transition across `diff`.
pub fn ramp_params(diff: u64) -> (sp: (u64, u64))
    requires
        diff >= 1,
    ensures
        sp.0 == step_size(diff),
        sp.1 == pause_units(diff),
        1 <= sp.0 <= diff,
{
    if diff >= TRANSITION_SPEED {
        (diff / TRANSITION_SPEED, 1)
    } else {
        (1, TRANSITION_SPEED / diff)
    }
}

/// Builds the sequence of brightness values one ramp applies.  It is empty
/// exactly when there is nothing to do, and otherwise ends on the target.
pub fn ramp_steps(current: u64, target: u64, step: u64) -> (v: Vec<u64>)
    requires
        step >= 1,
    ensures
        v@ == ramp_seq(current, target, step),
        current == target ==> v@.len() == 0,
        current != target ==> v@.len() >= 1 && v@.last() == target,
{
    let mut v: Vec<u64> = Vec::new();
    let mut cur: u64 = current;
    while cur != target
        invariant
            step >= 1,
            ramp_seq(current, target, step) == v@ + ramp_seq(cur, target, step),
            v@.len() == 0 ==> cur == current,
            v@.len() >= 1 ==> v@.last() == cur,
        decreases
                (if cur < target {
                    target - cur
                } else {
                    cur - target
                }),
    {
        let next: u64 = if cur < target {
            if target - cur <= step {
                target
            } else {
                cur + step
            }
        } else {
            if cur - target <= step {
                target
            } else {
                cur - step
            }
        };
        proof {
            assert(ramp_seq(cur, target, step) == seq![next] + ramp_seq(next, target, step));
            assert(v@ + (seq![next] + ramp_seq(next, target, step)) =~= v@.push(next)
                + ramp_seq(next, target, step));
        }
        v.push(next);
        cur = next;
    }
    proof {
        assert(v@ + ramp_seq(cur, target, step) =~= v@);
    }
    v
}

} // verus!
