//! Enemy weapon control: which enemies open fire this frame.
//!
//! An enemy whose weapon cooldown has elapsed fires at the first player
//! within targeting distance: it emits a fire command aimed straight at
//! that player and restarts its cooldown.  A player at exactly the
//! enemy's own position is a degenerate target (the aim direction is
//! undefined) and is passed over.  Spawning the bullet from the command
//! is the job of an external collaborator.

use vstd::prelude::*;
use crate::cooldown::Cooldown;
use crate::fixed::{
    div_tz, iabs, is_isqrt, isqrt, isqrt_u, div_q, lemma_div_tz_le, lemma_isqrt, lemma_mul_bound,
    MAX_BODIES, MAX_COORD, MAX_TIME, SCALE,
};
use crate::vec3::{dist_sq, lemma_len_sq_bounds, SpecVec3, Vec3};

verus! {

/// How long an enemy weapon stays cold after firing, in milliseconds.
pub const ENEMY_WEAPON_COOLDOWN_DURATION: i64 = 2_500;

/// How far ahead of the enemy ship its bullets spawn, in sub-units:
/// 1.2 times the player ship radius.
pub const ENEMY_BARREL_LENGTH: i64 = 2_400;

/// How close a player must be for an enemy to open fire, in sub-units.
pub const ENEMY_TARGETING_DISTANCE: i64 = 50_000;

/// Enemy component: the weapon cooldown.
#[derive(Clone, Copy, Debug, Default, PartialEq, Eq, Structural)]
pub struct Enemy {
    pub enemy_weapon_cooldown: Cooldown,
}

/// Snapshot row of an enemy ship: its identifier, its `Enemy` component
/// and its spatial state.
#[derive(Clone, Copy, Debug, PartialEq, Eq, Structural)]
pub struct EnemyRow {
    pub entity: u64,
    pub enemy: Enemy,
    pub position: Vec3,
    pub velocity: Vec3,
}

/// An order to fire one bullet: the shooter's state and aim direction
/// (a unit vector scaled by [`SCALE`]).
#[derive(Clone, Copy, Debug, PartialEq, Eq, Structural)]
pub struct FireCommand {
    pub shooter_position: Vec3,
    pub shooter_velocity: Vec3,
    pub shooter_facing: Vec3,
}

/// The player at `ppos` is a valid target for an enemy at `epos`:
/// within targeting distance and not at the very same point.
pub open spec fn targetable(ppos: SpecVec3, epos: SpecVec3) -> bool {
    1 <= dist_sq(ppos, epos) < ENEMY_TARGETING_DISTANCE * ENEMY_TARGETING_DISTANCE
}

/// Index of the first valid target at or after `from`, or the number of
/// players if there is none.
pub open spec fn first_target(players: Seq<Vec3>, epos: SpecVec3, from: int) -> int
    decreases players.len() - from,
{
    if from < 0 || from >= players.len() {
        players.len() as int
    } else if targetable(players[from]@, epos) {
        from
    } else {
        first_target(players, epos, from + 1)
    }
}

/// Aim direction from `epos` at `ppos`: the unit vector scaled by
/// [`SCALE`].
pub open spec fn aim_at(ppos: SpecVec3, epos: SpecVec3) -> SpecVec3 {
    let d = ppos.minus(epos);
    let dist = isqrt(d.len_sq());
    SpecVec3 {
        x: div_tz(d.x * SCALE, dist),
        y: div_tz(d.y * SCALE, dist),
        z: div_tz(d.z * SCALE, dist),
    }
}

/// Enemy `i` opens fire at time `now`: its cooldown has elapsed and a
/// valid target exists.
pub open spec fn enemy_fires(rows: Seq<EnemyRow>, players: Seq<Vec3>, now: int, i: int) -> bool {
    &&& now > rows[i].enemy.enemy_weapon_cooldown.until_time
    &&& first_target(players, rows[i].position@, 0) < players.len()
}

/// The fire command enemy `i` emits when it fires.
pub open spec fn fire_of(rows: Seq<EnemyRow>, players: Seq<Vec3>, i: int) -> FireCommand {
    let j = first_target(players, rows[i].position@, 0);
    FireCommand {
        shooter_position: rows[i].position,
        shooter_velocity: rows[i].velocity,
        shooter_facing: (Vec3 {
            x: aim_at(players[j]@, rows[i].position@).x as i64,
            y: aim_at(players[j]@, rows[i].position@).y as i64,
            z: aim_at(players[j]@, rows[i].position@).z as i64,
        }),
    }
}

/// The fire commands of enemies `0..upto`, in index order.
pub open spec fn fires_upto(
    rows: Seq<EnemyRow>,
    players: Seq<Vec3>,
    now: int,
    upto: int,
) -> Seq<FireCommand>
    decreases upto,
{
    if upto <= 0 {
        Seq::empty()
    } else if enemy_fires(rows, players, now, upto - 1) {
        fires_upto(rows, players, now, upto - 1).push(fire_of(rows, players, upto - 1))
    } else {
        fires_upto(rows, players, now, upto - 1)
    }
}

/// What the first-target index means: when it lands inside the player
/// list, that player is a valid target.
proof fn lemma_first_target(players: Seq<Vec3>, epos: SpecVec3, from: int)
    requires
        0 <= from <= players.len(),
    ensures
        from <= first_target(players, epos, from) <= players.len(),
        first_target(players, epos, from) < players.len() ==> targetable(
            players[first_target(players, epos, from)]@,
            epos,
        ),
    decreases players.len() - from,
{
    if from < players.len() && !targetable(players[from]@, epos) {
        lemma_first_target(players, epos, from + 1);
    }
}

/// Find the first valid target for an enemy at `epos`.
fn find_target(players: &Vec<Vec3>, epos: Vec3) -> (t: usize)
    requires
        forall|i: int| 0 <= i < players@.len() ==> (#[trigger] players@[i])@.within(
            MAX_COORD as int,
        ),
        epos@.within(MAX_COORD as int),
    ensures
        t as int == first_target(players@, epos@, 0),
        t <= players@.len(),
{
    let n = players.len();
    let mut j: usize = 0;
    while j < n
        invariant
            n == players@.len(),
            forall|i: int| 0 <= i < n ==> (#[trigger] players@[i])@.within(MAX_COORD as int),
            epos@.within(MAX_COORD as int),
            0 <= j <= n,
            first_target(players@, epos@, 0) == first_target(players@, epos@, j as int),
        decreases n - j,
    {
        let p = players[j];
        let dx: i128 = (p.x as i128) - (epos.x as i128);
        let dy: i128 = (p.y as i128) - (epos.y as i128);
        let dz: i128 = (p.z as i128) - (epos.z as i128);
        proof {
            lemma_len_sq_bounds(p@.minus(epos@), 2 * MAX_COORD as int);
            lemma_mul_bound(dx as int, 2_000_000_000, dx as int, 2_000_000_000);
            lemma_mul_bound(dy as int, 2_000_000_000, dy as int, 2_000_000_000);
            lemma_mul_bound(dz as int, 2_000_000_000, dz as int, 2_000_000_000);
        }
        let q: i128 = dx * dx + dy * dy + dz * dz;
        assert(q as int == dist_sq(p@, epos@));
        if q >= 1 && q < (ENEMY_TARGETING_DISTANCE as i128) * (ENEMY_TARGETING_DISTANCE as i128) {
            return j;
        }
        j = j + 1;
    }
    n
}

/// Aim direction from `epos` at `ppos` as executable code.
fn aim_at_exec(ppos: Vec3, epos: Vec3) -> (f: Vec3)
    requires
        ppos@.within(MAX_COORD as int),
        epos@.within(MAX_COORD as int),
        1 <= dist_sq(ppos@, epos@),
    ensures
        f@ == aim_at(ppos@, epos@),
        f@.within(2 * SCALE as int),
{
    let dx: i128 = (ppos.x as i128) - (epos.x as i128);
    let dy: i128 = (ppos.y as i128) - (epos.y as i128);
    let dz: i128 = (ppos.z as i128) - (epos.z as i128);
    proof {
        lemma_len_sq_bounds(ppos@.minus(epos@), 2 * MAX_COORD as int);
        lemma_mul_bound(dx as int, 2_000_000_000, dx as int, 2_000_000_000);
        lemma_mul_bound(dy as int, 2_000_000_000, dy as int, 2_000_000_000);
        lemma_mul_bound(dz as int, 2_000_000_000, dz as int, 2_000_000_000);
    }
    let q: i128 = dx * dx + dy * dy + dz * dz;
    let dist: i128 = isqrt_u(q as u128) as i128;
    proof {
        lemma_isqrt(q as int);
        assert(1 <= dist && iabs(dx as int) <= dist && iabs(dy as int) <= dist && iabs(
            dz as int,
        ) <= dist) by (nonlinear_arith)
            requires
                1 <= q,
                is_isqrt(q as int, dist as int),
                (dx as int) * (dx as int) <= q,
                (dy as int) * (dy as int) <= q,
                (dz as int) * (dz as int) <= q,
        ;
    }
    let fx = aim_comp(dx, dist);
    let fy = aim_comp(dy, dist);
    let fz = aim_comp(dz, dist);
    Vec3 { x: fx, y: fy, z: fz }
}

/// One component of a scaled unit vector.
fn aim_comp(dc: i128, dist: i128) -> (r: i64)
    requires
        1 <= dist <= 0x8000_0000_0000_0000,
        iabs(dc as int) <= dist,
    ensures
        r as int == div_tz((dc as int) * SCALE, dist as int),
        iabs(r as int) <= SCALE as int,
{
    proof {
        lemma_mul_bound(dc as int, dist as int, SCALE as int, SCALE as int);
        lemma_div_tz_le((dc as int) * SCALE, dist as int, dist as int * SCALE);
        crate::fixed::lemma_div_tz_mul_cancel(SCALE as int, dist as int);
        assert(dist as int * SCALE == SCALE as int * dist) by (nonlinear_arith);
    }
    let r: i128 = div_q(dc * (SCALE as i128), dist);
    r as i64
}

/// One frame of enemy weapon control.
///
/// Each enemy whose cooldown has elapsed fires at the first player in
/// range, if any: its cooldown restarts and a fire command is emitted,
/// in enemy index order.  Nothing else about the enemies changes.
pub fn enemies_update(enemies: &mut Vec<EnemyRow>, players: &Vec<Vec3>, now: i64) -> (fires: Vec<
    FireCommand,
>)
    requires
        0 <= now <= MAX_TIME,
        old(enemies)@.len() <= MAX_BODIES,
        forall|i: int| 0 <= i < old(enemies)@.len() ==> (#[trigger] old(
            enemies,
        )@[i]).position@.within(MAX_COORD as int),
        forall|i: int| 0 <= i < players@.len() ==> (#[trigger] players@[i])@.within(
            MAX_COORD as int,
        ),
    ensures
        final(enemies)@.len() == old(enemies)@.len(),
        forall|i: int| 0 <= i < old(enemies)@.len() ==> {
            &&& (#[trigger] final(enemies)@[i]).entity == old(enemies)@[i].entity
            &&& final(enemies)@[i].position == old(enemies)@[i].position
            &&& final(enemies)@[i].velocity == old(enemies)@[i].velocity
            &&& final(enemies)@[i].enemy.enemy_weapon_cooldown.until_time as int == (
            if enemy_fires(old(enemies)@, players@, now as int, i) {
                now + ENEMY_WEAPON_COOLDOWN_DURATION
            } else {
                old(enemies)@[i].enemy.enemy_weapon_cooldown.until_time as int
            })
        },
        fires@ == fires_upto(old(enemies)@, players@, now as int, old(enemies)@.len() as int),
{
    let ghost rows = enemies@;
    let n = enemies.len();
    let mut fires: Vec<FireCommand> = Vec::new();
    let mut i: usize = 0;
    while i < n
        invariant
            n == rows.len(),
            enemies@.len() == n,
            0 <= now <= MAX_TIME,
            forall|t: int| 0 <= t < n ==> (#[trigger] rows[t]).position@.within(MAX_COORD as int),
            forall|t: int| 0 <= t < players@.len() ==> (#[trigger] players@[t])@.within(
                MAX_COORD as int,
            ),
            0 <= i <= n,
            forall|t: int| i <= t < n ==> #[trigger] enemies@[t] == rows[t],
            forall|t: int| 0 <= t < i ==> {
                &&& (#[trigger] enemies@[t]).entity == rows[t].entity
                &&& enemies@[t].position == rows[t].position
                &&& enemies@[t].velocity == rows[t].velocity
                &&& enemies@[t].enemy.enemy_weapon_cooldown.until_time as int == (
                if enemy_fires(rows, players@, now as int, t) {
                    now + ENEMY_WEAPON_COOLDOWN_DURATION
                } else {
                    rows[t].enemy.enemy_weapon_cooldown.until_time as int
                })
            },
            fires@ == fires_upto(rows, players@, now as int, i as int),
        decreases n - i,
    {
        let e = enemies[i];
        if e.enemy.enemy_weapon_cooldown.over(now) {
            let t = find_target(players, e.position);
            if t < players.len() {
                proof {
                    lemma_first_target(players@, e.position@, 0);
                    assert(targetable(players@[t as int]@, e.position@));
                }
                let facing = aim_at_exec(players[t], e.position);
                fires.push(
                    FireCommand {
                        shooter_position: e.position,
                        shooter_velocity: e.velocity,
                        shooter_facing: facing,
                    },
                );
                let mut cd = e.enemy.enemy_weapon_cooldown;
                cd.reset(now, ENEMY_WEAPON_COOLDOWN_DURATION);
                enemies[i] = EnemyRow {
                    entity: e.entity,
                    enemy: Enemy { enemy_weapon_cooldown: cd },
                    position: e.position,
                    velocity: e.velocity,
                };
            }
        }
        i = i + 1;
    }
    fires
}

} // verus!
