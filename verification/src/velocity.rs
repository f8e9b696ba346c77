//! Linear velocity and the Euler integrator that advances positions.

use vstd::prelude::*;
use crate::fixed::{div_tz, sat64, sat_narrow, MAX_DT, SCALE};
use crate::vec3::{SpecVec3, Vec3};
use crate::GameState;

verus! {

/// Linear velocity of an entity, in world units per second (stored in
/// fixed-point sub-units).
#[derive(Clone, Copy, Debug, PartialEq, Eq, Structural)]
pub struct Velocity {
    pub velocity: Vec3,
}

impl Velocity {
    /// Wrap a vector as a velocity component.
    pub fn new(vel: Vec3) -> (v: Velocity)
        ensures
            v.velocity == vel,
    {
        Velocity { velocity: vel }
    }
}

/// Snapshot row of an entity that has both a position and a velocity.
#[derive(Clone, Copy, Debug, PartialEq, Eq, Structural)]
pub struct MovingBody {
    pub position: Vec3,
    pub velocity: Velocity,
}

/// One coordinate after an Euler step: the displacement is
/// velocity times dt, scaled back to coordinate sub-units, truncated
/// toward zero, and the result is clipped to the `i64` range.
pub open spec fn step_coord(p: int, v: int, dt: int) -> int {
    sat64(p + div_tz(v * dt, SCALE as int))
}

/// Position of `b` after one Euler step of length `dt`.
pub open spec fn stepped_position(b: MovingBody, dt: int) -> SpecVec3 {
    SpecVec3 {
        x: step_coord(b.position@.x, b.velocity.velocity@.x, dt),
        y: step_coord(b.position@.y, b.velocity.velocity@.y, dt),
        z: step_coord(b.position@.z, b.velocity.velocity@.z, dt),
    }
}

/// Advance one coordinate by its velocity over `dt`.
fn step_coord_exec(p: i64, v: i64, dt: i64) -> (r: i64)
    requires
        0 <= dt <= MAX_DT,
    ensures
        r as int == step_coord(p as int, v as int, dt as int),
{
    proof {
        crate::fixed::lemma_mul_bound(v as int, 0x8000_0000_0000_0000, dt as int, MAX_DT as int);
    }
    let disp: i128 = (v as i128) * (dt as i128) / (SCALE as i128);
    proof {
        crate::fixed::lemma_div_tz_le(
            (v as int) * (dt as int),
            SCALE as int,
            0x8000_0000_0000_0000 * MAX_DT as int,
        );
    }
    sat_narrow((p as i128) + disp)
}

/// Euler integration of position from velocity, gated on the game phase.
///
/// While the phase is anything but `Running` every entity is left exactly
/// as it was, whatever `dt`; otherwise every position advances by
/// velocity times `dt` and no velocity changes.
pub fn velocity_update(bodies: &mut Vec<MovingBody>, dt: i64, game_state: &GameState)
    requires
        0 <= dt <= MAX_DT,
    ensures
        final(bodies)@.len() == old(bodies)@.len(),
        *game_state != GameState::Running ==> forall|i: int|
            0 <= i < old(bodies)@.len() ==> final(bodies)@[i] == old(bodies)@[i],
        *game_state == GameState::Running ==> forall|i: int|
            0 <= i < old(bodies)@.len() ==> {
                &&& (#[trigger] final(bodies)@[i]).velocity == old(bodies)@[i].velocity
                &&& final(bodies)@[i].position@ == stepped_position(old(bodies)@[i], dt as int)
            },
{
    if *game_state != GameState::Running {
        return ;
    }
    let n = bodies.len();
    let mut i: usize = 0;
    while i < n
        invariant
            n == old(bodies)@.len(),
            bodies@.len() == n,
            0 <= i <= n,
            0 <= dt <= MAX_DT,
            forall|k: int| i <= k < n ==> #[trigger] bodies@[k] == old(bodies)@[k],
            forall|k: int| 0 <= k < i ==> {
                &&& (#[trigger] bodies@[k]).velocity == old(bodies)@[k].velocity
                &&& bodies@[k].position@ == stepped_position(old(bodies)@[k], dt as int)
            },
        decreases n - i,
    {
        let b = bodies[i];
        let p = Vec3 {
            x: step_coord_exec(b.position.x, b.velocity.velocity.x, dt),
            y: step_coord_exec(b.position.y, b.velocity.velocity.y, dt),
            z: step_coord_exec(b.position.z, b.velocity.velocity.z, dt),
        };
        bodies[i] = MovingBody { position: p, velocity: b.velocity };
        i = i + 1;
    }
}

} // verus!
