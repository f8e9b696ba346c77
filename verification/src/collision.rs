//! Pairwise collision detection and response.
//!
//! For every unordered pair of colliders whose spheres overlap, the engine
//! applies a spring impulse proportional to the penetration depth that
//! pushes the two apart, and consults a gameplay interaction matrix keyed
//! by the pair's entity types: depending on the types and the relative
//! speed, the pair may trigger a sound, despawn requests, or a transition
//! of the game phase.  A pair whose members sit at exactly the same point
//! is degenerate and skipped for the frame.

use vstd::prelude::*;
use crate::audio::SoundEffect;
use crate::cooldown::Cooldown;
use crate::fixed::{
    div_tz, Wide3, iabs, is_isqrt, isqrt, isqrt_u, div_q, lemma_div_tz_le, lemma_isqrt, lemma_mul_bound,
    sat_narrow, MAX_BODIES, MAX_COORD, MAX_DT, MAX_MASS, MAX_RADIUS, MAX_SPEED, MAX_TIME,
};
use crate::vec3::{dist_sq, lemma_len_sq_bounds, sat_v3, SpecVec3, Vec3};
use crate::{EntityType, GameState};

verus! {

/// Collision component of an entity: its collision mass, its bounding
/// radius and its gameplay type.
#[derive(Clone, Copy, Debug, PartialEq, Eq, Structural)]
pub struct Collision {
    pub mass: i64,
    pub radius: i64,
    pub ctype: EntityType,
}

/// Spring constant of the push-apart impulse, as a plain multiplier.
pub const COLLISION_SPRING_CONSTANT: i64 = 2048;

/// Relative speed (sub-units per second) above which an asteroid impact
/// kills the player.
pub const LETHAL_RELATIVE_VELOCITY_OF_ASTEROID: i64 = 3_000;

/// The asteroid threshold compared against squared relative speeds.
pub const LETHAL_RELATIVE_VELOCITY_OF_ASTEROID_SQUARED: i64 =
    LETHAL_RELATIVE_VELOCITY_OF_ASTEROID * LETHAL_RELATIVE_VELOCITY_OF_ASTEROID;

/// Relative speed (sub-units per second) above which a bullet impact is
/// lethal.
pub const LETHAL_RELATIVE_VELOCITY_OF_BULLET: i64 = 10_000;

/// The bullet threshold compared against squared relative speeds.
pub const LETHAL_RELATIVE_VELOCITY_OF_BULLET_SQUARED: i64 =
    LETHAL_RELATIVE_VELOCITY_OF_BULLET * LETHAL_RELATIVE_VELOCITY_OF_BULLET;

/// How long the shared collision-impact sound stays silenced after it
/// fires, in milliseconds.
pub const ASTEROID_COLLISION_SOUND_DURATION: i64 = 1_000;

/// Largest magnitude of a single pair's velocity change, per component:
/// `COLLISION_SPRING_CONSTANT * 2 * MAX_RADIUS * MAX_DT`.
pub const COL_DELTA_LIMIT: i64 = 4_096_000_000_000_000_000;

/// Snapshot row of a collidable entity: its identifier, position,
/// velocity and `Collision` component.
#[derive(Clone, Copy, Debug, PartialEq, Eq, Structural)]
pub struct CollisionBody {
    pub entity: u64,
    pub position: Vec3,
    pub velocity: Vec3,
    pub collision: Collision,
}

/// A row the collision pass accepts: bounded position and velocity, and a
/// positive, bounded mass and radius.
pub open spec fn wf_collision_body(b: CollisionBody) -> bool {
    &&& b.position@.within(MAX_COORD as int)
    &&& b.velocity@.within(MAX_SPEED as int)
    &&& 1 <= b.collision.mass <= MAX_MASS
    &&& 1 <= b.collision.radius <= MAX_RADIUS
}

/// The two collision spheres overlap.
pub open spec fn overlapping(a: CollisionBody, b: CollisionBody) -> bool {
    let cr = a.collision.radius + b.collision.radius;
    dist_sq(a.position@, b.position@) <= cr * cr
}

/// The pair sits at exactly the same point: the push-apart direction is
/// undefined, so the pair is skipped for the frame.
pub open spec fn degenerate(a: CollisionBody, b: CollisionBody) -> bool {
    dist_sq(a.position@, b.position@) == 0
}

/// Squared relative speed of a pair, in squared sub-units.
pub open spec fn rel_speed_sq(a: CollisionBody, b: CollisionBody) -> int {
    a.velocity@.minus(b.velocity@).len_sq()
}

/// Everything the collision pass accumulates besides velocity changes:
/// the game phase, the shared impact-sound cooldown deadline, and the
/// sounds and despawn requests emitted so far, in order.
pub ghost struct CollisionPassState {
    pub game_state: GameState,
    pub cooldown: int,
    pub sounds: Seq<SoundEffect>,
    pub despawns: Seq<u64>,
}

/// The phase after a lethal hit: the session is lost, unless it had
/// already ended — `Lost` and `Won` are one-way terminal.
pub open spec fn lose_unless_ended(s: GameState) -> GameState {
    if s.spec_is_terminal() {
        s
    } else {
        GameState::Lost
    }
}

/// The gameplay interaction matrix, on a pair already ordered by entity
/// type rank.  Unlisted ordered pairs are explicitly a no-op.  No arm
/// moves the phase out of `Lost` or `Won`: an ended session keeps its
/// outcome.
pub open spec fn interaction_matrix(
    s: CollisionPassState,
    o1: CollisionBody,
    o2: CollisionBody,
    now: int,
) -> CollisionPassState {
    match (o1.collision.ctype, o2.collision.ctype) {
        (EntityType::Asteroid, EntityType::Asteroid) => s,
        (EntityType::Asteroid, EntityType::Earth) => s,
        (EntityType::Asteroid, EntityType::Player) => {
            if rel_speed_sq(o1, o2) > LETHAL_RELATIVE_VELOCITY_OF_ASTEROID_SQUARED {
                CollisionPassState {
                    game_state: lose_unless_ended(s.game_state),
                    cooldown: s.cooldown,
                    sounds: s.sounds.push(SoundEffect::SpaceshipCrash),
                    despawns: s.despawns.push(o2.entity),
                }
            } else if now > s.cooldown {
                CollisionPassState {
                    game_state: s.game_state,
                    cooldown: now + ASTEROID_COLLISION_SOUND_DURATION,
                    sounds: s.sounds.push(SoundEffect::AsteroidCollision),
                    despawns: s.despawns,
                }
            } else {
                s
            }
        },
        (EntityType::Earth, EntityType::Player) => {
            if s.game_state == GameState::Running {
                CollisionPassState {
                    game_state: GameState::Won,
                    cooldown: s.cooldown,
                    sounds: s.sounds.push(SoundEffect::GameWin),
                    despawns: s.despawns,
                }
            } else {
                s
            }
        },
        (EntityType::Bullet, EntityType::Player) => {
            if rel_speed_sq(o1, o2) > LETHAL_RELATIVE_VELOCITY_OF_BULLET_SQUARED {
                CollisionPassState {
                    game_state: lose_unless_ended(s.game_state),
                    cooldown: s.cooldown,
                    sounds: s.sounds.push(SoundEffect::SpaceshipCrash),
                    despawns: s.despawns.push(o1.entity).push(o2.entity),
                }
            } else if now > s.cooldown {
                CollisionPassState {
                    game_state: s.game_state,
                    cooldown: now + ASTEROID_COLLISION_SOUND_DURATION,
                    sounds: s.sounds.push(SoundEffect::AsteroidCollision),
                    despawns: s.despawns,
                }
            } else {
                s
            }
        },
        (EntityType::Bullet, EntityType::Alien) => {
            if rel_speed_sq(o1, o2) > LETHAL_RELATIVE_VELOCITY_OF_BULLET_SQUARED {
                CollisionPassState {
                    game_state: s.game_state,
                    cooldown: s.cooldown,
                    sounds: s.sounds.push(SoundEffect::SpaceshipCrash),
                    despawns: s.despawns.push(o1.entity).push(o2.entity),
                }
            } else if now > s.cooldown {
                CollisionPassState {
                    game_state: s.game_state,
                    cooldown: now + ASTEROID_COLLISION_SOUND_DURATION,
                    sounds: s.sounds.push(SoundEffect::AsteroidCollision),
                    despawns: s.despawns,
                }
            } else {
                s
            }
        },
        _ => s,
    }
}

/// Gameplay outcome of one colliding pair, in either input order: the
/// pair is first ordered canonically by entity type rank, which collapses
/// the symmetric permutations into one matrix lookup.
pub open spec fn interaction_step(
    s: CollisionPassState,
    a: CollisionBody,
    b: CollisionBody,
    now: int,
) -> CollisionPassState {
    if a.collision.ctype.spec_rank() <= b.collision.ctype.spec_rank() {
        interaction_matrix(s, a, b, now)
    } else {
        interaction_matrix(s, b, a, now)
    }
}

/// Effect of one (ordered) pair on the pass state: only an overlapping,
/// non-degenerate pair consults the interaction matrix.
pub open spec fn pair_step(
    s: CollisionPassState,
    rows: Seq<CollisionBody>,
    i: int,
    j: int,
    now: int,
) -> CollisionPassState {
    if overlapping(rows[i], rows[j]) && !degenerate(rows[i], rows[j]) {
        interaction_step(s, rows[i], rows[j], now)
    } else {
        s
    }
}

/// Fold of `pair_step` over the pairs of `i` with each later entity,
/// starting at the given `j` and running to the end of the row list.
pub open spec fn events_row(
    rows: Seq<CollisionBody>,
    now: int,
    s: CollisionPassState,
    i: int,
    j: int,
) -> CollisionPassState
    decreases rows.len() - j,
{
    if j >= rows.len() {
        s
    } else {
        events_row(rows, now, pair_step(s, rows, i, j, now), i, j + 1)
    }
}

/// Fold of `pair_step` over all unordered pairs from the given `i` on,
/// each visited once, in lexicographic index order — the order in which
/// the pass visits pairs, which matters because the phase and the
/// cooldown evolve along the way.
pub open spec fn events_rows(
    rows: Seq<CollisionBody>,
    now: int,
    s: CollisionPassState,
    i: int,
) -> CollisionPassState
    decreases rows.len() - i,
{
    if i >= rows.len() {
        s
    } else {
        events_rows(rows, now, events_row(rows, now, s, i, i + 1), i + 1)
    }
}

/// The gameplay outcome of one whole collision pass over `rows`.
pub open spec fn collision_events(
    rows: Seq<CollisionBody>,
    now: int,
    s: CollisionPassState,
) -> CollisionPassState {
    events_rows(rows, now, s, 0)
}

/// One component of the spring impulse for penetration `comp` along
/// displacement component `dc` at distance `dist` (sub-units).
pub open spec fn col_impulse_c(comp: int, dt: int, dc: int, dist: int) -> int {
    div_tz(COLLISION_SPRING_CONSTANT * comp * dt * dc, dist)
}

/// Velocity change of entity `k` due to entity `o` in one collision pass:
/// the pair's spring impulse divided by `k`'s own collision mass, pushing
/// `k` away from `o`.  Pairs that do not overlap, and degenerate pairs,
/// contribute nothing.
pub open spec fn col_contrib(rows: Seq<CollisionBody>, k: int, o: int, dt: int) -> SpecVec3 {
    let a = rows[k];
    let b = rows[o];
    let d = a.position@.minus(b.position@);
    let q = d.len_sq();
    let cr = a.collision.radius + b.collision.radius;
    if q == 0 || q > cr * cr {
        SpecVec3::zero()
    } else {
        let dist = isqrt(q);
        let comp = cr - dist;
        let ma = a.collision.mass as int;
        SpecVec3 {
            x: div_tz(col_impulse_c(comp, dt, d.x, dist), ma),
            y: div_tz(col_impulse_c(comp, dt, d.y, dist), ma),
            z: div_tz(col_impulse_c(comp, dt, d.z, dist), ma),
        }
    }
}

/// Sum of the collision contributions to entity `k` from entities
/// `0..upto`, skipping `k` itself.
pub open spec fn col_delta_upto(rows: Seq<CollisionBody>, k: int, dt: int, upto: int) -> SpecVec3
    decreases upto,
{
    if upto <= 0 {
        SpecVec3::zero()
    } else if upto - 1 == k {
        col_delta_upto(rows, k, dt, upto - 1)
    } else {
        col_delta_upto(rows, k, dt, upto - 1).plus(col_contrib(rows, k, upto - 1, dt))
    }
}

/// Total velocity change of entity `k` in one collision pass over `rows`.
pub open spec fn col_delta(rows: Seq<CollisionBody>, k: int, dt: int) -> SpecVec3 {
    col_delta_upto(rows, k, dt, rows.len() as int)
}

/// The mathematical image of the mutable pass state the executable code
/// carries.
pub open spec fn pass_state_view(
    game_state: GameState,
    cooldown: Cooldown,
    sounds: Seq<SoundEffect>,
    despawns: Seq<u64>,
) -> CollisionPassState {
    CollisionPassState {
        game_state: game_state,
        cooldown: cooldown.until_time as int,
        sounds: sounds,
        despawns: despawns,
    }
}

/// Squared relative speed of a pair as executable code.
fn rel_speed_sq_exec(a: &CollisionBody, b: &CollisionBody) -> (r: i128)
    requires
        a.velocity@.within(MAX_SPEED as int),
        b.velocity@.within(MAX_SPEED as int),
    ensures
        r as int == rel_speed_sq(*a, *b),
{
    let dx: i128 = (a.velocity.x as i128) - (b.velocity.x as i128);
    let dy: i128 = (a.velocity.y as i128) - (b.velocity.y as i128);
    let dz: i128 = (a.velocity.z as i128) - (b.velocity.z as i128);
    proof {
        lemma_len_sq_bounds(a.velocity@.minus(b.velocity@), 2 * MAX_SPEED as int);
        lemma_mul_bound(dx as int, 2_000_000_000, dx as int, 2_000_000_000);
        lemma_mul_bound(dy as int, 2_000_000_000, dy as int, 2_000_000_000);
        lemma_mul_bound(dz as int, 2_000_000_000, dz as int, 2_000_000_000);
    }
    dx * dx + dy * dy + dz * dz
}

/// The gameplay interaction of one colliding pair, in either input
/// order.  The two members are first ordered canonically by entity type
/// to collapse symmetric permutations into one matrix lookup; the matrix
/// then decides which sounds fire, who despawns, and whether the game
/// phase transitions.  A session that has already ended keeps its
/// outcome: no arm overwrites `Lost` or `Won`.
pub fn collision_gameplay_logic(
    obj_a: &CollisionBody,
    obj_b: &CollisionBody,
    now: i64,
    game_state: &mut GameState,
    collision_sound_cooldown: &mut Cooldown,
    sounds: &mut Vec<SoundEffect>,
    despawns: &mut Vec<u64>,
)
    requires
        obj_a.velocity@.within(MAX_SPEED as int),
        obj_b.velocity@.within(MAX_SPEED as int),
        0 <= now <= MAX_TIME,
    ensures
        pass_state_view(
            *final(game_state),
            *final(collision_sound_cooldown),
            final(sounds)@,
            final(despawns)@,
        ) == interaction_step(
            pass_state_view(
                *old(game_state),
                *old(collision_sound_cooldown),
                old(sounds)@,
                old(despawns)@,
            ),
            *obj_a,
            *obj_b,
            now as int,
        ),
{
    let (obj1, obj2) = if obj_a.collision.ctype.rank() <= obj_b.collision.ctype.rank() {
        (obj_a, obj_b)
    } else {
        (obj_b, obj_a)
    };
    match (obj1.collision.ctype, obj2.collision.ctype) {
        (EntityType::Asteroid, EntityType::Asteroid) => {},
        (EntityType::Asteroid, EntityType::Earth) => {},
        (EntityType::Asteroid, EntityType::Player) => {
            let rss = rel_speed_sq_exec(obj1, obj2);
            if rss > LETHAL_RELATIVE_VELOCITY_OF_ASTEROID_SQUARED as i128 {
                sounds.push(SoundEffect::SpaceshipCrash);
                despawns.push(obj2.entity);
                if !game_state.is_terminal() {
                    *game_state = GameState::Lost;
                }
            } else if collision_sound_cooldown.over(now) {
                sounds.push(SoundEffect::AsteroidCollision);
                collision_sound_cooldown.reset(now, ASTEROID_COLLISION_SOUND_DURATION);
            }
        },
        (EntityType::Earth, EntityType::Player) => {
            if *game_state == GameState::Running {
                sounds.push(SoundEffect::GameWin);
                *game_state = GameState::Won;
            }
        },
        (EntityType::Bullet, EntityType::Player) => {
            let rss = rel_speed_sq_exec(obj1, obj2);
            if rss > LETHAL_RELATIVE_VELOCITY_OF_BULLET_SQUARED as i128 {
                sounds.push(SoundEffect::SpaceshipCrash);
                despawns.push(obj1.entity);
                despawns.push(obj2.entity);
                if !game_state.is_terminal() {
                    *game_state = GameState::Lost;
                }
            } else if collision_sound_cooldown.over(now) {
                sounds.push(SoundEffect::AsteroidCollision);
                collision_sound_cooldown.reset(now, ASTEROID_COLLISION_SOUND_DURATION);
            }
        },
        (EntityType::Bullet, EntityType::Alien) => {
            let rss = rel_speed_sq_exec(obj1, obj2);
            if rss > LETHAL_RELATIVE_VELOCITY_OF_BULLET_SQUARED as i128 {
                sounds.push(SoundEffect::SpaceshipCrash);
                despawns.push(obj1.entity);
                despawns.push(obj2.entity);
            } else if collision_sound_cooldown.over(now) {
                sounds.push(SoundEffect::AsteroidCollision);
                collision_sound_cooldown.reset(now, ASTEROID_COLLISION_SOUND_DURATION);
            }
        },
        _ => {},
    }
}

/// Bound for one pair's push-apart velocity change, one component.
proof fn lemma_col_dv_bound(ma: int, comp: int, dt: int, dc: int, q: int, dist: int, cr: int)
    requires
        1 <= ma,
        0 <= dt <= MAX_DT,
        1 <= q,
        is_isqrt(q, dist),
        dc * dc <= q,
        1 <= cr <= 2 * MAX_RADIUS,
        q <= cr * cr,
        comp == cr - dist,
    ensures
        1 <= dist,
        iabs(dc) <= dist,
        0 <= comp <= cr,
        iabs(div_tz(col_impulse_c(comp, dt, dc, dist), ma)) <= COL_DELTA_LIMIT as int,
{
    assert(1 <= dist && iabs(dc) <= dist && dist <= cr) by (nonlinear_arith)
        requires
            1 <= q,
            is_isqrt(q, dist),
            dc * dc <= q,
            q <= cr * cr,
            1 <= cr,
    ;
    let a1 = COLLISION_SPRING_CONSTANT * comp * dt;
    let num = COLLISION_SPRING_CONSTANT * comp * dt * dc;
    assert(0 <= a1 <= COL_DELTA_LIMIT && num == a1 * dc && a1 * dist >= 0 && iabs(num) <= a1
        * dist) by (nonlinear_arith)
        requires
            0 <= comp <= cr <= 2 * MAX_RADIUS,
            0 <= dt <= MAX_DT,
            1 <= dist,
            iabs(dc) <= dist,
            a1 == COLLISION_SPRING_CONSTANT * comp * dt,
            num == COLLISION_SPRING_CONSTANT * comp * dt * dc,
    ;
    lemma_div_tz_le(num, dist, a1 * dist);
    let imp = div_tz(num, dist);
    crate::fixed::lemma_div_tz_mul_cancel(a1, dist);
    assert((a1 * dist) / dist == a1);
    assert(iabs(imp) <= a1);
    lemma_div_tz_le(imp, ma, a1);
}

/// Velocity change of `k` due to `o`, one component, as executable code.
fn col_pair_dv(ma: i64, comp: i128, dt: i64, dc: i128, q: i128, dist: i128, cr: i64) -> (r: i64)
    requires
        1 <= ma <= MAX_MASS,
        0 <= dt <= MAX_DT,
        1 <= q <= 12_000_000_000_000_000_000,
        dist as int == isqrt(q as int),
        dc * dc <= q,
        1 <= cr <= 2 * MAX_RADIUS,
        q <= (cr as i128) * (cr as i128),
        comp == cr - dist,
    ensures
        r as int == div_tz(
            col_impulse_c(comp as int, dt as int, dc as int, dist as int),
            ma as int,
        ),
        iabs(r as int) <= COL_DELTA_LIMIT as int,
{
    proof {
        lemma_isqrt(q as int);
        lemma_col_dv_bound(
            ma as int,
            comp as int,
            dt as int,
            dc as int,
            q as int,
            dist as int,
            cr as int,
        );
    }
    let t1: i128 = (COLLISION_SPRING_CONSTANT as i128) * comp;
    proof {
        lemma_mul_bound(t1 as int, 4_096_000_000_000, dt as int, MAX_DT as int);
    }
    let t2: i128 = t1 * (dt as i128);
    proof {
        lemma_mul_bound(t2 as int, 4_096_000_000_000_000_000, dc as int, 2_000_000_000);
    }
    let num: i128 = t2 * dc;
    let imp: i128 = div_q(num, dist);
    let dv: i128 = div_q(imp, ma as i128);
    dv as i64
}

/// All push-apart deltas for one pass, computed from an immutable
/// snapshot.
fn col_deltas(bodies: &Vec<CollisionBody>, dt: i64) -> (deltas: Vec<Wide3>)
    requires
        0 <= dt <= MAX_DT,
        bodies@.len() <= MAX_BODIES,
        forall|i: int| 0 <= i < bodies@.len() ==> wf_collision_body(#[trigger] bodies@[i]),
    ensures
        deltas@.len() == bodies@.len(),
        forall|k: int| 0 <= k < bodies@.len() ==> (SpecVec3 {
            x: (#[trigger] deltas@[k]).x as int,
            y: deltas@[k].y as int,
            z: deltas@[k].z as int,
        }) == col_delta(bodies@, k, dt as int),
        forall|k: int| 0 <= k < bodies@.len() ==> {
            &&& iabs((#[trigger] deltas@[k]).x as int) <= bodies@.len() * COL_DELTA_LIMIT
            &&& iabs(deltas@[k].y as int) <= bodies@.len() * COL_DELTA_LIMIT
            &&& iabs(deltas@[k].z as int) <= bodies@.len() * COL_DELTA_LIMIT
        },
{
    let n = bodies.len();
    let mut deltas: Vec<Wide3> = Vec::new();
    let mut k: usize = 0;
    while k < n
        invariant
            n == bodies@.len(),
            n <= MAX_BODIES,
            0 <= dt <= MAX_DT,
            forall|i: int| 0 <= i < n ==> wf_collision_body(#[trigger] bodies@[i]),
            0 <= k <= n,
            deltas@.len() == k,
            forall|j: int| 0 <= j < k ==> (SpecVec3 {
                x: (#[trigger] deltas@[j]).x as int,
                y: deltas@[j].y as int,
                z: deltas@[j].z as int,
            }) == col_delta(bodies@, j, dt as int),
            forall|j: int| 0 <= j < k ==> {
                &&& iabs((#[trigger] deltas@[j]).x as int) <= n * COL_DELTA_LIMIT
                &&& iabs(deltas@[j].y as int) <= n * COL_DELTA_LIMIT
                &&& iabs(deltas@[j].z as int) <= n * COL_DELTA_LIMIT
            },
        decreases n - k,
    {
        let bk = bodies[k];
        let mut ax: i128 = 0;
        let mut ay: i128 = 0;
        let mut az: i128 = 0;
        let mut o: usize = 0;
        while o < n
            invariant
                n == bodies@.len(),
                n <= MAX_BODIES,
                0 <= dt <= MAX_DT,
                forall|i: int| 0 <= i < n ==> wf_collision_body(#[trigger] bodies@[i]),
                0 <= k < n,
                bk == bodies@[k as int],
                0 <= o <= n,
                iabs(ax as int) <= o * COL_DELTA_LIMIT,
                iabs(ay as int) <= o * COL_DELTA_LIMIT,
                iabs(az as int) <= o * COL_DELTA_LIMIT,
                (SpecVec3 { x: ax as int, y: ay as int, z: az as int }) == col_delta_upto(
                    bodies@,
                    k as int,
                    dt as int,
                    o as int,
                ),
            decreases n - o,
        {
            if o != k {
                let bo = bodies[o];
                let dx: i128 = (bk.position.x as i128) - (bo.position.x as i128);
                let dy: i128 = (bk.position.y as i128) - (bo.position.y as i128);
                let dz: i128 = (bk.position.z as i128) - (bo.position.z as i128);
                proof {
                    lemma_len_sq_bounds(bk.position@.minus(bo.position@), 2 * MAX_COORD as int);
                    lemma_mul_bound(dx as int, 2_000_000_000, dx as int, 2_000_000_000);
                    lemma_mul_bound(dy as int, 2_000_000_000, dy as int, 2_000_000_000);
                    lemma_mul_bound(dz as int, 2_000_000_000, dz as int, 2_000_000_000);
                }
                let q: i128 = dx * dx + dy * dy + dz * dz;
                assert(q as int == dist_sq(bk.position@, bo.position@));
                let cr: i64 = bk.collision.radius + bo.collision.radius;
                proof {
                    lemma_mul_bound(cr as int, 2 * MAX_RADIUS as int, cr as int, 2 * MAX_RADIUS as int);
                }
                let crsq: i128 = (cr as i128) * (cr as i128);
                if q >= 1 && q <= crsq {
                    let dist: i128 = isqrt_u(q as u128) as i128;
                    proof {
                        lemma_isqrt(q as int);
                        assert(dist <= cr) by (nonlinear_arith)
                            requires
                                is_isqrt(q as int, dist as int),
                                q <= (cr as i128) * (cr as i128),
                                1 <= cr,
                                0 <= dist,
                        ;
                    }
                    let comp: i128 = (cr as i128) - dist;
                    let gx = col_pair_dv(bk.collision.mass, comp, dt, dx, q, dist, cr);
                    let gy = col_pair_dv(bk.collision.mass, comp, dt, dy, q, dist, cr);
                    let gz = col_pair_dv(bk.collision.mass, comp, dt, dz, q, dist, cr);
                    ax = ax + (gx as i128);
                    ay = ay + (gy as i128);
                    az = az + (gz as i128);
                }
            }
            o = o + 1;
        }
        deltas.push(Wide3 { x: ax, y: ay, z: az });
        k = k + 1;
    }
    deltas
}

/// The sounds and despawn requests one collision pass emitted, in order.
pub struct CollisionEvents {
    pub sounds: Vec<SoundEffect>,
    pub despawns: Vec<u64>,
}

/// One pass of pairwise collision detection and response.
///
/// Every unordered pair is visited once, in index order.  An overlapping,
/// non-degenerate pair consults the gameplay interaction matrix — which
/// may emit sounds and despawn requests and move the game phase — and
/// exchanges a push-apart spring impulse.  All geometry and the relative
/// speeds are read from a snapshot taken at the start of the pass;
/// positions, colliders and identifiers are left unchanged, and each
/// velocity gains the sum of its pairwise impulses divided by its own
/// mass, clipped to the `i64` range.
pub fn collision_update(
    bodies: &mut Vec<CollisionBody>,
    dt: i64,
    now: i64,
    game_state: &mut GameState,
    collision_sound_cooldown: &mut Cooldown,
) -> (events: CollisionEvents)
    requires
        0 <= dt <= MAX_DT,
        0 <= now <= MAX_TIME,
        old(bodies)@.len() <= MAX_BODIES,
        forall|i: int| 0 <= i < old(bodies)@.len() ==> wf_collision_body(
            #[trigger] old(bodies)@[i],
        ),
    ensures
        final(bodies)@.len() == old(bodies)@.len(),
        forall|i: int| 0 <= i < old(bodies)@.len() ==> {
            &&& (#[trigger] final(bodies)@[i]).entity == old(bodies)@[i].entity
            &&& final(bodies)@[i].position == old(bodies)@[i].position
            &&& final(bodies)@[i].collision == old(bodies)@[i].collision
            &&& final(bodies)@[i].velocity@ == sat_v3(
                old(bodies)@[i].velocity@.plus(col_delta(old(bodies)@, i, dt as int)),
            )
        },
        ({
            let s = collision_events(
                old(bodies)@,
                now as int,
                pass_state_view(
                    *old(game_state),
                    *old(collision_sound_cooldown),
                    Seq::empty(),
                    Seq::empty(),
                ),
            );
            &&& *final(game_state) == s.game_state
            &&& final(collision_sound_cooldown).until_time as int == s.cooldown
            &&& events.sounds@ == s.sounds
            &&& events.despawns@ == s.despawns
        }),
        (*old(game_state)).spec_is_terminal() ==> *final(game_state) == *old(game_state),
{
    let ghost rows = bodies@;
    let n = bodies.len();
    let mut sounds: Vec<SoundEffect> = Vec::new();
    let mut despawns: Vec<u64> = Vec::new();
    let ghost s0 = pass_state_view(
        *game_state,
        *collision_sound_cooldown,
        sounds@,
        despawns@,
    );
    let mut i: usize = 0;
    while i < n
        invariant
            n == rows.len(),
            bodies@ == rows,
            n <= MAX_BODIES,
            0 <= dt <= MAX_DT,
            0 <= now <= MAX_TIME,
            forall|t: int| 0 <= t < n ==> wf_collision_body(#[trigger] rows[t]),
            0 <= i <= n,
            events_rows(rows, now as int, s0, 0) == events_rows(
                rows,
                now as int,
                pass_state_view(*game_state, *collision_sound_cooldown, sounds@, despawns@),
                i as int,
            ),
        decreases n - i,
    {
        let mut j: usize = i + 1;
        let ghost s_entry = pass_state_view(
            *game_state,
            *collision_sound_cooldown,
            sounds@,
            despawns@,
        );
        while j < n
            invariant
                n == rows.len(),
                bodies@ == rows,
                n <= MAX_BODIES,
                0 <= dt <= MAX_DT,
                0 <= now <= MAX_TIME,
                forall|t: int| 0 <= t < n ==> wf_collision_body(#[trigger] rows[t]),
                0 <= i < n,
                i < j <= n,
                events_row(rows, now as int, s_entry, i as int, i as int + 1) == events_row(
                    rows,
                    now as int,
                    pass_state_view(*game_state, *collision_sound_cooldown, sounds@, despawns@),
                    i as int,
                    j as int,
                ),
            decreases n - j,
        {
            let bi = bodies[i];
            let bj = bodies[j];
            let dx: i128 = (bi.position.x as i128) - (bj.position.x as i128);
            let dy: i128 = (bi.position.y as i128) - (bj.position.y as i128);
            let dz: i128 = (bi.position.z as i128) - (bj.position.z as i128);
            proof {
                lemma_len_sq_bounds(bi.position@.minus(bj.position@), 2 * MAX_COORD as int);
                lemma_mul_bound(dx as int, 2_000_000_000, dx as int, 2_000_000_000);
                lemma_mul_bound(dy as int, 2_000_000_000, dy as int, 2_000_000_000);
                lemma_mul_bound(dz as int, 2_000_000_000, dz as int, 2_000_000_000);
            }
            let q: i128 = dx * dx + dy * dy + dz * dz;
            assert(q as int == dist_sq(bi.position@, bj.position@));
            let cr: i64 = bi.collision.radius + bj.collision.radius;
            proof {
                lemma_mul_bound(cr as int, 2 * MAX_RADIUS as int, cr as int, 2 * MAX_RADIUS as int);
            }
            let crsq: i128 = (cr as i128) * (cr as i128);
            if q >= 1 && q <= crsq {
                collision_gameplay_logic(
                    &bi,
                    &bj,
                    now,
                    game_state,
                    collision_sound_cooldown,
                    &mut sounds,
                    &mut despawns,
                );
            }
            j = j + 1;
        }
        i = i + 1;
    }
    let deltas = col_deltas(bodies, dt);
    proof {
        lemma_mul_bound(n as int, MAX_BODIES as int, COL_DELTA_LIMIT as int, COL_DELTA_LIMIT as int);
    }
    let mut k: usize = 0;
    while k < n
        invariant
            n == rows.len(),
            bodies@.len() == n,
            deltas@.len() == n,
            forall|j: int| 0 <= j < n ==> (SpecVec3 {
                x: (#[trigger] deltas@[j]).x as int,
                y: deltas@[j].y as int,
                z: deltas@[j].z as int,
            }) == col_delta(rows, j, dt as int),
            forall|j: int| 0 <= j < n ==> {
                &&& iabs((#[trigger] deltas@[j]).x as int) <= n * COL_DELTA_LIMIT
                &&& iabs(deltas@[j].y as int) <= n * COL_DELTA_LIMIT
                &&& iabs(deltas@[j].z as int) <= n * COL_DELTA_LIMIT
            },
            n * COL_DELTA_LIMIT <= MAX_BODIES * COL_DELTA_LIMIT,
            0 <= k <= n,
            forall|j: int| k <= j < n ==> #[trigger] bodies@[j] == rows[j],
            forall|j: int| 0 <= j < k ==> {
                &&& (#[trigger] bodies@[j]).entity == rows[j].entity
                &&& bodies@[j].position == rows[j].position
                &&& bodies@[j].collision == rows[j].collision
                &&& bodies@[j].velocity@ == sat_v3(
                    rows[j].velocity@.plus(col_delta(rows, j, dt as int)),
                )
            },
        decreases n - k,
    {
        let b = bodies[k];
        let d = deltas[k];
        let v = Vec3 {
            x: sat_narrow((b.velocity.x as i128) + d.x),
            y: sat_narrow((b.velocity.y as i128) + d.y),
            z: sat_narrow((b.velocity.z as i128) + d.z),
        };
        bodies[k] = CollisionBody {
            entity: b.entity,
            position: b.position,
            velocity: v,
            collision: b.collision,
        };
        k = k + 1;
    }
    proof {
        if s0.game_state.spec_is_terminal() {
            lemma_terminal_phase_is_kept(rows, now as int, s0);
        }
    }
    CollisionEvents { sounds, despawns }
}

/// In a two-body system, each body's pass delta is exactly its one pair
/// contribution, and the pass events are exactly the one pair's step.
proof fn lemma_two_body_collision(rows: Seq<CollisionBody>, dt: int, now: int, s: CollisionPassState)
    requires
        rows.len() == 2,
    ensures
        col_delta(rows, 0, dt) == col_contrib(rows, 0, 1, dt),
        col_delta(rows, 1, dt) == col_contrib(rows, 1, 0, dt),
        collision_events(rows, now, s) == pair_step(s, rows, 0, 1, now),
{
    assert(col_delta_upto(rows, 0, dt, 0) == SpecVec3::zero());
    assert(col_delta_upto(rows, 0, dt, 1) == SpecVec3::zero());
    assert(col_delta_upto(rows, 0, dt, 2) == SpecVec3::zero().plus(col_contrib(rows, 0, 1, dt)));
    assert(col_delta_upto(rows, 1, dt, 0) == SpecVec3::zero());
    assert(col_delta_upto(rows, 1, dt, 1) == SpecVec3::zero().plus(col_contrib(rows, 1, 0, dt)));
    assert(col_delta_upto(rows, 1, dt, 2) == col_delta_upto(rows, 1, dt, 1));
    let s1 = pair_step(s, rows, 0, 1, now);
    assert(events_row(rows, now, s, 0, 1) == events_row(rows, now, s1, 0, 2));
    assert(events_row(rows, now, s1, 0, 2) == s1);
    assert(events_row(rows, now, s1, 1, 2) == s1);
    assert(events_rows(rows, now, s1, 1) == events_rows(rows, now, s1, 2));
    assert(events_rows(rows, now, s, 0) == s1);
}

/// The displacement seen from the other body is the negation, with the
/// same squared length; the combined radius is the same either way.
proof fn lemma_pair_symmetry(rows: Seq<CollisionBody>, k: int, o: int)
    requires
        0 <= k < rows.len(),
        0 <= o < rows.len(),
    ensures
        ({
            let d = rows[k].position@.minus(rows[o].position@);
            let e = rows[o].position@.minus(rows[k].position@);
            e.x == -d.x && e.y == -d.y && e.z == -d.z && e.len_sq() == d.len_sq()
        }),
{
    let d = rows[k].position@.minus(rows[o].position@);
    let e = rows[o].position@.minus(rows[k].position@);
    assert(e.len_sq() == d.len_sq()) by (nonlinear_arith)
        requires
            e.x == -d.x,
            e.y == -d.y,
            e.z == -d.z,
    ;
}

/// One symmetric impulse component: the same impulse, divided by each
/// body's own mass, moves the two momenta by nearly opposite amounts —
/// the residue of the two truncating divisions stays below `m_a + m_b`.
proof fn lemma_col_momentum_component(ma: int, mb: int, comp: int, dt: int, dc: int, dist: int)
    requires
        1 <= ma,
        1 <= mb,
        1 <= dist,
    ensures
        col_impulse_c(comp, dt, -dc, dist) == -col_impulse_c(comp, dt, dc, dist),
        iabs(
            ma * div_tz(col_impulse_c(comp, dt, dc, dist), ma) + mb * div_tz(
                col_impulse_c(comp, dt, -dc, dist),
                mb,
            ),
        ) < ma + mb,
{
    let num = COLLISION_SPRING_CONSTANT * comp * dt * dc;
    assert(COLLISION_SPRING_CONSTANT * comp * dt * (-dc) == -num) by (nonlinear_arith)
        requires
            num == COLLISION_SPRING_CONSTANT * comp * dt * dc,
    ;
    crate::fixed::lemma_div_tz_neg(num, dist);
    let imp = div_tz(num, dist);
    crate::fixed::lemma_div_tz_neg(imp, mb);
    crate::fixed::lemma_div_tz_rem(imp, ma);
    crate::fixed::lemma_div_tz_rem(imp, mb);
    let ra = imp - ma * div_tz(imp, ma);
    let rb = imp - mb * div_tz(imp, mb);
    assert(ma * div_tz(imp, ma) == imp - ra);
    assert(mb * div_tz(-imp, mb) == -(mb * div_tz(imp, mb))) by (nonlinear_arith)
        requires
            div_tz(-imp, mb) == -div_tz(imp, mb),
    ;
    assert(ma * div_tz(imp, ma) + mb * div_tz(-imp, mb) == rb - ra);
}

/// Collision impulse symmetry: in an overlapping, non-degenerate
/// two-body system one pass applies the same spring impulse to both
/// members, scaled only by each one's inverse mass, so the two momentum
/// changes cancel per component up to the two truncation residues, which
/// stay strictly below `m_a + m_b` sub-units.
pub proof fn lemma_collision_impulse_symmetry(rows: Seq<CollisionBody>, dt: int)
    requires
        rows.len() == 2,
        wf_collision_body(rows[0]),
        wf_collision_body(rows[1]),
        0 <= dt <= MAX_DT,
        overlapping(rows[0], rows[1]),
        !degenerate(rows[0], rows[1]),
    ensures
        ({
            let ma = rows[0].collision.mass as int;
            let mb = rows[1].collision.mass as int;
            let cr = rows[0].collision.radius + rows[1].collision.radius;
            let d = rows[0].position@.minus(rows[1].position@);
            let q = d.len_sq();
            let dist = isqrt(q);
            let comp = cr - dist;
            let d0 = col_delta(rows, 0, dt);
            let d1 = col_delta(rows, 1, dt);
            &&& d0.x == div_tz(col_impulse_c(comp, dt, d.x, dist), ma)
            &&& d1.x == -div_tz(col_impulse_c(comp, dt, d.x, dist), mb)
            &&& iabs(ma * d0.x + mb * d1.x) < ma + mb
            &&& iabs(ma * d0.y + mb * d1.y) < ma + mb
            &&& iabs(ma * d0.z + mb * d1.z) < ma + mb
        }),
{
    lemma_two_body_collision(rows, dt, 0, CollisionPassState {
        game_state: GameState::Running,
        cooldown: 0,
        sounds: Seq::empty(),
        despawns: Seq::empty(),
    });
    lemma_pair_symmetry(rows, 0, 1);
    let ma = rows[0].collision.mass as int;
    let mb = rows[1].collision.mass as int;
    let cr = rows[0].collision.radius + rows[1].collision.radius;
    let d = rows[0].position@.minus(rows[1].position@);
    let q = d.len_sq();
    let dist = isqrt(q);
    let comp = cr - dist;
    assert(0 <= q) by (nonlinear_arith)
        requires
            q == d.x * d.x + d.y * d.y + d.z * d.z,
    ;
    assert(1 <= q);
    lemma_isqrt(q);
    assert(1 <= dist) by (nonlinear_arith)
        requires
            is_isqrt(q, dist),
            1 <= q,
    ;
    lemma_col_momentum_component(ma, mb, comp, dt, d.x, dist);
    lemma_col_momentum_component(ma, mb, comp, dt, d.y, dist);
    lemma_col_momentum_component(ma, mb, comp, dt, d.z, dist);
    let i1x = col_impulse_c(comp, dt, -d.x, dist);
    assert(col_delta(rows, 1, dt).x == div_tz(i1x, mb));
    crate::fixed::lemma_div_tz_neg(col_impulse_c(comp, dt, d.x, dist), mb);
    assert(mb * div_tz(i1x, mb) == mb * -div_tz(col_impulse_c(comp, dt, d.x, dist), mb));
}

/// Separated pair: two colliders whose spheres do not overlap exchange
/// no impulse and trigger no gameplay outcome — the pass leaves both
/// velocities, the phase, the cooldown and the event streams unchanged.
pub proof fn lemma_collision_separated(
    rows: Seq<CollisionBody>,
    dt: int,
    now: int,
    s: CollisionPassState,
)
    requires
        rows.len() == 2,
        !overlapping(rows[0], rows[1]),
    ensures
        col_delta(rows, 0, dt) == SpecVec3::zero(),
        col_delta(rows, 1, dt) == SpecVec3::zero(),
        collision_events(rows, now, s) == s,
{
    lemma_two_body_collision(rows, dt, now, s);
    lemma_pair_symmetry(rows, 0, 1);
    assert(rows[0].collision.radius + rows[1].collision.radius == rows[1].collision.radius
        + rows[0].collision.radius);
}

/// No arm of the interaction matrix moves the phase out of a terminal
/// state.
proof fn lemma_matrix_keeps_terminal(
    s: CollisionPassState,
    o1: CollisionBody,
    o2: CollisionBody,
    now: int,
)
    requires
        s.game_state.spec_is_terminal(),
    ensures
        interaction_matrix(s, o1, o2, now).game_state == s.game_state,
{
}

/// One row of pair steps keeps a terminal phase.
proof fn lemma_events_row_keeps_terminal(
    rows: Seq<CollisionBody>,
    now: int,
    s: CollisionPassState,
    i: int,
    j: int,
)
    requires
        s.game_state.spec_is_terminal(),
    ensures
        events_row(rows, now, s, i, j).game_state == s.game_state,
    decreases rows.len() - j,
{
    if j < rows.len() {
        let s2 = pair_step(s, rows, i, j, now);
        lemma_matrix_keeps_terminal(s, rows[i], rows[j], now);
        lemma_matrix_keeps_terminal(s, rows[j], rows[i], now);
        assert(s2.game_state == s.game_state);
        lemma_events_row_keeps_terminal(rows, now, s2, i, j + 1);
    }
}

/// All rows of pair steps keep a terminal phase.
proof fn lemma_events_rows_keeps_terminal(
    rows: Seq<CollisionBody>,
    now: int,
    s: CollisionPassState,
    i: int,
)
    requires
        s.game_state.spec_is_terminal(),
    ensures
        events_rows(rows, now, s, i).game_state == s.game_state,
    decreases rows.len() - i,
{
    if i < rows.len() {
        let s2 = events_row(rows, now, s, i, i + 1);
        lemma_events_row_keeps_terminal(rows, now, s, i, i + 1);
        lemma_events_rows_keeps_terminal(rows, now, s2, i + 1);
    }
}

/// Terminal phases are one-way: a collision pass that starts with the
/// session already `Lost` or `Won` ends with the very same phase,
/// whatever collides — crash sounds and despawn requests may still
/// fire, but the session's outcome stands.
pub proof fn lemma_terminal_phase_is_kept(
    rows: Seq<CollisionBody>,
    now: int,
    s: CollisionPassState,
)
    requires
        s.game_state.spec_is_terminal(),
    ensures
        collision_events(rows, now, s).game_state == s.game_state,
{
    lemma_events_rows_keeps_terminal(rows, now, s, 0);
}

/// Entity types with equal canonical rank are the same type.
proof fn lemma_rank_injective(t1: EntityType, t2: EntityType)
    requires
        t1.spec_rank() == t2.spec_rank(),
    ensures
        t1 == t2,
{
}

/// Interaction-matrix symmetry: the gameplay outcome of a colliding pair
/// does not depend on which of the two entities comes first in the
/// unordered input — the sounds, the despawn requests (by identifier),
/// the phase and the cooldown all come out the same.
pub proof fn lemma_interaction_symmetric(
    s: CollisionPassState,
    a: CollisionBody,
    b: CollisionBody,
    now: int,
)
    ensures
        interaction_step(s, a, b, now) == interaction_step(s, b, a, now),
{
    let ra = a.collision.ctype.spec_rank();
    let rb = b.collision.ctype.spec_rank();
    if ra == rb {
        lemma_rank_injective(a.collision.ctype, b.collision.ctype);
        assert(interaction_matrix(s, a, b, now) == s);
        assert(interaction_matrix(s, b, a, now) == s);
    }
}

} // verus!
