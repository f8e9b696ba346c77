//! Bullet kinematics: what a newly fired bullet looks like, computed
//! from the shooter's state.  Spawning the entity (and the shot sound)
//! is the job of external collaborators.

use vstd::prelude::*;
use crate::collision::Collision;
use crate::fixed::{div_tz, iabs, div_q, lemma_div_tz_le, lemma_mul_bound, MAX_COORD, MAX_SPEED, SCALE};
use crate::gravity::Gravity;
use crate::vec3::{SpecVec3, Vec3};
use crate::EntityType;

verus! {

/// Speed of a bullet relative to its shooter, in sub-units per second.
pub const RELATIVE_BULLET_SPEED: i64 = 40_000;

/// Bounding radius of a bullet, in sub-units.
pub const BULLET_RADIUS: i64 = 100;

/// Mass of a bullet, in sub-units.
pub const BULLET_MASS: i64 = 100;

/// Largest barrel length accepted, in sub-units.
pub const MAX_BARREL_LENGTH: i64 = 1_000_000;

/// Everything needed to spawn a bullet entity.
#[derive(Clone, Copy, Debug, PartialEq, Eq, Structural)]
pub struct BulletSpawn {
    pub position: Vec3,
    pub velocity: Vec3,
    pub collision: Collision,
    pub gravity: Gravity,
}

/// One component of the bullet's start position: the shooter's position
/// advanced along the facing direction by the barrel length.
pub open spec fn bullet_position_c(p: int, f: int, barrel: int) -> int {
    p + div_tz(barrel * f, SCALE as int)
}

/// One component of the bullet's velocity: the shooter's velocity plus
/// the relative bullet speed along the facing direction.
pub open spec fn bullet_velocity_c(v: int, f: int) -> int {
    v + div_tz(RELATIVE_BULLET_SPEED * f, SCALE as int)
}

/// Compute the state of a newly fired bullet.
///
/// `shooter_facing` is a unit vector scaled by [`SCALE`]; the bullet
/// starts one barrel length along it and moves with the shooter plus
/// [`RELATIVE_BULLET_SPEED`] along it.  The bullet's collider and
/// gravity carry [`BULLET_MASS`], [`BULLET_RADIUS`] and the `Bullet`
/// entity type.
pub fn fire_bullet(
    shooter_position: Vec3,
    shooter_velocity: Vec3,
    shooter_facing: Vec3,
    shooter_barrel_length: i64,
) -> (b: BulletSpawn)
    requires
        shooter_position@.within(MAX_COORD as int),
        shooter_velocity@.within(MAX_SPEED as int),
        shooter_facing@.within(2 * SCALE as int),
        0 <= shooter_barrel_length <= MAX_BARREL_LENGTH,
    ensures
        b.position@ == (SpecVec3 {
            x: bullet_position_c(
                shooter_position@.x,
                shooter_facing@.x,
                shooter_barrel_length as int,
            ),
            y: bullet_position_c(
                shooter_position@.y,
                shooter_facing@.y,
                shooter_barrel_length as int,
            ),
            z: bullet_position_c(
                shooter_position@.z,
                shooter_facing@.z,
                shooter_barrel_length as int,
            ),
        }),
        b.velocity@ == (SpecVec3 {
            x: bullet_velocity_c(shooter_velocity@.x, shooter_facing@.x),
            y: bullet_velocity_c(shooter_velocity@.y, shooter_facing@.y),
            z: bullet_velocity_c(shooter_velocity@.z, shooter_facing@.z),
        }),
        b.collision == (Collision {
            mass: BULLET_MASS,
            radius: BULLET_RADIUS,
            ctype: EntityType::Bullet,
        }),
        b.gravity == (Gravity { mass: BULLET_MASS }),
{
    let px = bullet_pos_comp(shooter_position.x, shooter_facing.x, shooter_barrel_length);
    let py = bullet_pos_comp(shooter_position.y, shooter_facing.y, shooter_barrel_length);
    let pz = bullet_pos_comp(shooter_position.z, shooter_facing.z, shooter_barrel_length);
    let vx = bullet_vel_comp(shooter_velocity.x, shooter_facing.x);
    let vy = bullet_vel_comp(shooter_velocity.y, shooter_facing.y);
    let vz = bullet_vel_comp(shooter_velocity.z, shooter_facing.z);
    BulletSpawn {
        position: Vec3 { x: px, y: py, z: pz },
        velocity: Vec3 { x: vx, y: vy, z: vz },
        collision: Collision { mass: BULLET_MASS, radius: BULLET_RADIUS, ctype: EntityType::Bullet },
        gravity: Gravity { mass: BULLET_MASS },
    }
}

/// One bullet start-position component.
fn bullet_pos_comp(p: i64, f: i64, barrel: i64) -> (r: i64)
    requires
        iabs(p as int) <= MAX_COORD as int,
        iabs(f as int) <= 2 * SCALE as int,
        0 <= barrel <= MAX_BARREL_LENGTH,
    ensures
        r as int == bullet_position_c(p as int, f as int, barrel as int),
{
    proof {
        lemma_mul_bound(barrel as int, MAX_BARREL_LENGTH as int, f as int, 2 * SCALE as int);
        lemma_div_tz_le(
            (barrel as int) * (f as int),
            SCALE as int,
            MAX_BARREL_LENGTH as int * (2 * SCALE as int),
        );
    }
    let off: i128 = div_q((barrel as i128) * (f as i128), SCALE as i128);
    (p as i128 + off) as i64
}

/// One bullet velocity component.
fn bullet_vel_comp(v: i64, f: i64) -> (r: i64)
    requires
        iabs(v as int) <= MAX_SPEED as int,
        iabs(f as int) <= 2 * SCALE as int,
    ensures
        r as int == bullet_velocity_c(v as int, f as int),
{
    proof {
        lemma_mul_bound(RELATIVE_BULLET_SPEED as int, RELATIVE_BULLET_SPEED as int, f as int, 2 * SCALE as int);
        lemma_div_tz_le(
            RELATIVE_BULLET_SPEED as int * (f as int),
            SCALE as int,
            RELATIVE_BULLET_SPEED as int * (2 * SCALE as int),
        );
    }
    let off: i128 = div_q((RELATIVE_BULLET_SPEED as i128) * (f as i128), SCALE as i128);
    (v as i128 + off) as i64
}

} // verus!
