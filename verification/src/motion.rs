//! The motion integrator: each tick adds `velocity * delta_time` to an
//! actor's horizontal position. With micropixel positions and
//! microsecond deltas the update is exact, so position after N equal
//! ticks is exactly linear in N.

use vstd::prelude::*;

verus! {

/// The exact new horizontal position after one tick of `dt_micros` at
/// constant `velocity`.
pub open spec fn moved_x(x: i64, velocity: i64, dt_micros: u64) -> int {
    x + velocity * dt_micros
}

/// One motion step. The bounds in `requires` are the machine limit: the
/// exact result must fit the position's type.
pub fn step_position(x: i64, velocity: i64, dt_micros: u64) -> (r: i64)
    requires
        i64::MIN <= moved_x(x, velocity, dt_micros) <= i64::MAX,
    ensures
        r as int == moved_x(x, velocity, dt_micros),
{
    proof {
        assert(velocity * dt_micros == moved_x(x, velocity, dt_micros) - x);
    }
    let product: i128 = (velocity as i128) * (dt_micros as i128);
    let moved: i128 = (x as i128) + product;
    moved as i64
}

/// The position after `ticks` motion steps of `dt_micros` each at
/// constant `velocity`.
pub open spec fn position_after(x: int, velocity: int, dt_micros: int, ticks: nat) -> int
    decreases ticks,
{
    if ticks == 0 {
        x
    } else {
        position_after(x, velocity, dt_micros, (ticks - 1) as nat) + velocity * dt_micros
    }
}

/// Motion linearity law: the position after `ticks` equal steps at
/// constant velocity equals the initial position plus
/// `velocity * dt_micros * ticks`, exactly.
pub proof fn lemma_motion_linear(x: int, velocity: int, dt_micros: int, ticks: nat)
    ensures
        position_after(x, velocity, dt_micros, ticks) == x + velocity * dt_micros * ticks,
    decreases ticks,
{
    let step = velocity * dt_micros;
    if ticks == 0 {
        assert(step * ticks == 0) by (nonlinear_arith)
            requires
                ticks == 0,
        ;
    } else {
        let prev = (ticks - 1) as nat;
        lemma_motion_linear(x, velocity, dt_micros, prev);
        assert(position_after(x, velocity, dt_micros, ticks) == position_after(
            x,
            velocity,
            dt_micros,
            prev,
        ) + step);
        assert(step * prev + step == step * ticks) by (nonlinear_arith)
            requires
                prev + 1 == ticks,
        ;
    }
}

} // verus!
