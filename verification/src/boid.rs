//! Flocking ("boid") steering for swarming entities.
//!
//! Each boid steers by three neighbor-windowed contributions computed
//! from a single snapshot of all boids' positions and velocities:
//! cohesion toward the centroid of the flock within the coherence
//! distance, separation away from boids within the tighter avoidance
//! distance, and matching of the flock's average velocity.  The summed
//! velocity is then clamped: above the speed limit it is rescaled to the
//! limit times the frame time — the clamped magnitude deliberately keeps
//! the extra `dt` factor the behavior is known for.

use vstd::prelude::*;
use crate::fixed::{
    div_tz, iabs, is_isqrt, isqrt, isqrt_u, div_q, lemma_div_tz_le, lemma_div_tz_mul_cancel,
    lemma_isqrt, lemma_mul_bound, MAX_BODIES, MAX_COORD, MAX_DT, MAX_SPEED, SCALE,
};
use crate::vec3::{dist_sq, lemma_len_sq_bounds, SpecVec3, Vec3};

verus! {

/// Marker component: the entity is subject to flocking steering.
#[derive(Clone, Copy, Debug, Default, PartialEq, Eq, Structural)]
pub struct Boid {}

/// Snapshot row of a flocking entity: its position, velocity and `Boid`
/// marker.
#[derive(Clone, Copy, Debug, PartialEq, Eq, Structural)]
pub struct BoidBody {
    pub position: Vec3,
    pub velocity: Vec3,
    pub boid: Boid,
}

/// Squared coherence distance (squared sub-units): boids this close form
/// one flock for cohesion and velocity matching.
pub const BOID_COHERENCE_DISTANCE_SQUARED: i64 = 500_000_000;

/// Squared avoidance distance (squared sub-units): boids this close push
/// each other apart.
pub const BOID_AVOIDANCE_DISTANCE_SQUARED: i64 = 100_000_000;

/// Cohesion and velocity matching steer by a tenth of the gap per
/// second: the steering divisor `10 * SCALE` carries both the factor
/// and the time scaling.
pub const BOID_COHERENCE_DIVISOR: i64 = 10 * SCALE;

/// Separation steers by a fifth of the accumulated displacement per
/// second.
pub const BOID_AVOIDANCE_DIVISOR: i64 = 5 * SCALE;

/// Speed limit, in sub-units per second.
pub const BOID_SPEED_LIMIT: i64 = 10_000;

/// The speed limit compared against squared speeds.
pub const BOID_SPEED_LIMIT_SQUARED: i64 = BOID_SPEED_LIMIT * BOID_SPEED_LIMIT;

/// A row the flocking pass accepts: bounded position and velocity.
pub open spec fn wf_boid_body(b: BoidBody) -> bool {
    &&& b.position@.within(MAX_COORD as int)
    &&& b.velocity@.within(MAX_SPEED as int)
}

/// Boid `i` is in boid `k`'s flock (itself included).
pub open spec fn cohere_neighbor(rows: Seq<BoidBody>, k: int, i: int) -> bool {
    dist_sq(rows[k].position@, rows[i].position@) < BOID_COHERENCE_DISTANCE_SQUARED
}

/// Boid `i` crowds boid `k`.
pub open spec fn avoid_neighbor(rows: Seq<BoidBody>, k: int, i: int) -> bool {
    i != k && dist_sq(rows[k].position@, rows[i].position@) < BOID_AVOIDANCE_DISTANCE_SQUARED
}

/// Number of flock members of `k` among `0..upto`.
pub open spec fn flock_count(rows: Seq<BoidBody>, k: int, upto: int) -> int
    decreases upto,
{
    if upto <= 0 {
        0
    } else if cohere_neighbor(rows, k, upto - 1) {
        flock_count(rows, k, upto - 1) + 1
    } else {
        flock_count(rows, k, upto - 1)
    }
}

/// Sum of the positions of `k`'s flock members among `0..upto`.
pub open spec fn flock_pos_sum(rows: Seq<BoidBody>, k: int, upto: int) -> SpecVec3
    decreases upto,
{
    if upto <= 0 {
        SpecVec3::zero()
    } else if cohere_neighbor(rows, k, upto - 1) {
        flock_pos_sum(rows, k, upto - 1).plus(rows[upto - 1].position@)
    } else {
        flock_pos_sum(rows, k, upto - 1)
    }
}

/// Sum of the velocities of `k`'s flock members among `0..upto`.
pub open spec fn flock_vel_sum(rows: Seq<BoidBody>, k: int, upto: int) -> SpecVec3
    decreases upto,
{
    if upto <= 0 {
        SpecVec3::zero()
    } else if cohere_neighbor(rows, k, upto - 1) {
        flock_vel_sum(rows, k, upto - 1).plus(rows[upto - 1].velocity@)
    } else {
        flock_vel_sum(rows, k, upto - 1)
    }
}

/// Sum of the displacements away from the boids crowding `k` among
/// `0..upto`.
pub open spec fn avoid_sum(rows: Seq<BoidBody>, k: int, upto: int) -> SpecVec3
    decreases upto,
{
    if upto <= 0 {
        SpecVec3::zero()
    } else if avoid_neighbor(rows, k, upto - 1) {
        avoid_sum(rows, k, upto - 1).plus(
            rows[k].position@.minus(rows[upto - 1].position@),
        )
    } else {
        avoid_sum(rows, k, upto - 1)
    }
}

/// One steering component: the gap times `dt`, over the steering divisor.
pub open spec fn steer(gap: int, dt: int, divisor: int) -> int {
    div_tz(gap * dt, divisor)
}

/// Cohesion: steer toward the centroid of the flock (which always
/// contains the boid itself).
pub open spec fn cohere_delta(rows: Seq<BoidBody>, k: int, dt: int) -> SpecVec3 {
    let n = rows.len() as int;
    let cnt = flock_count(rows, k, n);
    let sum = flock_pos_sum(rows, k, n);
    let p = rows[k].position@;
    if cnt > 0 {
        SpecVec3 {
            x: steer(div_tz(sum.x, cnt) - p.x, dt, BOID_COHERENCE_DIVISOR as int),
            y: steer(div_tz(sum.y, cnt) - p.y, dt, BOID_COHERENCE_DIVISOR as int),
            z: steer(div_tz(sum.z, cnt) - p.z, dt, BOID_COHERENCE_DIVISOR as int),
        }
    } else {
        SpecVec3::zero()
    }
}

/// Separation: steer away from the crowding boids; the push grows with
/// the number of close neighbors.
pub open spec fn avoid_delta(rows: Seq<BoidBody>, k: int, dt: int) -> SpecVec3 {
    let n = rows.len() as int;
    let sum = avoid_sum(rows, k, n);
    SpecVec3 {
        x: steer(sum.x, dt, BOID_AVOIDANCE_DIVISOR as int),
        y: steer(sum.y, dt, BOID_AVOIDANCE_DIVISOR as int),
        z: steer(sum.z, dt, BOID_AVOIDANCE_DIVISOR as int),
    }
}

/// Velocity matching: steer toward the flock's average velocity.
pub open spec fn match_delta(rows: Seq<BoidBody>, k: int, dt: int) -> SpecVec3 {
    let n = rows.len() as int;
    let cnt = flock_count(rows, k, n);
    let sum = flock_vel_sum(rows, k, n);
    let v = rows[k].velocity@;
    if cnt > 0 {
        SpecVec3 {
            x: steer(div_tz(sum.x, cnt) - v.x, dt, BOID_COHERENCE_DIVISOR as int),
            y: steer(div_tz(sum.y, cnt) - v.y, dt, BOID_COHERENCE_DIVISOR as int),
            z: steer(div_tz(sum.z, cnt) - v.z, dt, BOID_COHERENCE_DIVISOR as int),
        }
    } else {
        SpecVec3::zero()
    }
}

/// Speed clamp: above the limit the velocity is rescaled to the limit —
/// times the frame time, an anomaly preserved deliberately.
pub open spec fn limit_speed(v: SpecVec3, dt: int) -> SpecVec3 {
    let q = v.len_sq();
    if q > BOID_SPEED_LIMIT_SQUARED {
        let vn = isqrt(q);
        SpecVec3 {
            x: div_tz(v.x * BOID_SPEED_LIMIT * dt, vn * SCALE),
            y: div_tz(v.y * BOID_SPEED_LIMIT * dt, vn * SCALE),
            z: div_tz(v.z * BOID_SPEED_LIMIT * dt, vn * SCALE),
        }
    } else {
        v
    }
}

/// Velocity of boid `k` after one flocking pass: the three snapshot
/// contributions added to the snapshot velocity, then clamped.
pub open spec fn boid_new_velocity(rows: Seq<BoidBody>, k: int, dt: int) -> SpecVec3 {
    limit_speed(
        rows[k].velocity@.plus(cohere_delta(rows, k, dt)).plus(avoid_delta(rows, k, dt)).plus(
            match_delta(rows, k, dt),
        ),
        dt,
    )
}

/// One steering step never overshoots its target: for frame times up to
/// one steering period the steered amount stays between zero and the
/// whole gap, so the remaining gap never grows nor changes sign.  This
/// is the kernel of the velocity-matching convergence: each pass moves
/// every flock member's velocity toward the flock average and never
/// past it.
pub proof fn lemma_steer_never_overshoots(gap: int, dt: int)
    requires
        0 <= dt <= BOID_COHERENCE_DIVISOR,
    ensures
        gap >= 0 ==> 0 <= steer(gap, dt, BOID_COHERENCE_DIVISOR as int) <= gap,
        gap <= 0 ==> gap <= steer(gap, dt, BOID_COHERENCE_DIVISOR as int) <= 0,
        iabs(gap - steer(gap, dt, BOID_COHERENCE_DIVISOR as int)) <= iabs(gap),
{
    assert(iabs(gap * dt) <= iabs(gap) * BOID_COHERENCE_DIVISOR) by (nonlinear_arith)
        requires
            0 <= dt <= BOID_COHERENCE_DIVISOR,
    ;
    lemma_div_tz_le(gap * dt, BOID_COHERENCE_DIVISOR as int, iabs(gap) * BOID_COHERENCE_DIVISOR);
    lemma_div_tz_mul_cancel(iabs(gap), BOID_COHERENCE_DIVISOR as int);
    assert(iabs(gap) * BOID_COHERENCE_DIVISOR >= 0) by (nonlinear_arith);
    assert((iabs(gap) * BOID_COHERENCE_DIVISOR) / (BOID_COHERENCE_DIVISOR as int) == iabs(gap));
    assert(gap >= 0 ==> gap * dt >= 0) by (nonlinear_arith)
        requires
            0 <= dt,
    ;
    assert(gap <= 0 ==> gap * dt <= 0) by (nonlinear_arith)
        requires
            0 <= dt,
    ;
}

/// Bounds on the flock sums: the count never exceeds the window, each
/// averaged sum is bounded by the count times the per-member bound, the
/// avoidance sum stays within the avoidance distance times the window,
/// and once the window covers the boid itself the flock is non-empty.
proof fn lemma_flock_bounds(rows: Seq<BoidBody>, k: int, upto: int)
    requires
        0 <= k < rows.len(),
        forall|i: int| 0 <= i < rows.len() ==> wf_boid_body(#[trigger] rows[i]),
        0 <= upto <= rows.len(),
    ensures
        0 <= flock_count(rows, k, upto) <= upto,
        flock_pos_sum(rows, k, upto).within(flock_count(rows, k, upto) * MAX_COORD),
        flock_vel_sum(rows, k, upto).within(flock_count(rows, k, upto) * MAX_SPEED),
        avoid_sum(rows, k, upto).within(upto * 10_000),
        upto > k ==> flock_count(rows, k, upto) >= 1,
    decreases upto,
{
    if upto > 0 {
        lemma_flock_bounds(rows, k, upto - 1);
        if upto - 1 == k {
            let d = rows[k].position@.minus(rows[k].position@);
            assert(d.len_sq() == 0) by (nonlinear_arith)
                requires
                    d.x == 0 && d.y == 0 && d.z == 0,
            ;
            assert(cohere_neighbor(rows, k, k));
        }
        if avoid_neighbor(rows, k, upto - 1) {
            let d = rows[k].position@.minus(rows[upto - 1].position@);
            assert(iabs(d.x) <= 10_000 && iabs(d.y) <= 10_000 && iabs(d.z) <= 10_000)
                by (nonlinear_arith)
                requires
                    d.x * d.x + d.y * d.y + d.z * d.z < 100_000_000,
            ;
        }
    }
}

/// The average of values bounded by `m` is bounded by `m`.
proof fn lemma_avg_bound(s: int, c: int, m: int)
    requires
        1 <= c,
        0 <= m,
        iabs(s) <= c * m,
    ensures
        iabs(div_tz(s, c)) <= m,
{
    lemma_div_tz_le(s, c, c * m);
    assert(c * m == m * c) by (nonlinear_arith);
    lemma_div_tz_mul_cancel(m, c);
}

/// One steering component as executable code.
fn steer_exec(gap: i128, dt: i64, divisor: i64) -> (r: i64)
    requires
        iabs(gap as int) <= 20_000_000_000_000,
        0 <= dt <= MAX_DT,
        1000 <= divisor,
    ensures
        r as int == steer(gap as int, dt as int, divisor as int),
        iabs(r as int) <= iabs(gap as int) * MAX_DT as int,
{
    let ghost c = iabs(gap as int) * MAX_DT as int;
    proof {
        lemma_mul_bound(gap as int, iabs(gap as int), dt as int, MAX_DT as int);
        lemma_div_tz_le((gap as int) * (dt as int), divisor as int, c);
        assert(c / (divisor as int) <= c / 1000) by (nonlinear_arith)
            requires
                0 <= c,
                1000 <= divisor as int,
        ;
        assert(c <= 20_000_000_000_000 * MAX_DT as int) by (nonlinear_arith)
            requires
                iabs(gap as int) <= 20_000_000_000_000,
                c == iabs(gap as int) * MAX_DT as int,
        ;
    }
    let d: i128 = div_q(gap * (dt as i128), divisor as i128);
    d as i64
}

/// Cohesion contribution of the whole boid set to boid `boid_index`.
pub fn cohere_boid_flock(boids: &Vec<BoidBody>, boid_index: usize, dt: i64) -> (d: Vec3)
    requires
        boid_index < boids@.len(),
        boids@.len() <= MAX_BODIES,
        0 <= dt <= MAX_DT,
        forall|i: int| 0 <= i < boids@.len() ==> wf_boid_body(#[trigger] boids@[i]),
    ensures
        d@ == cohere_delta(boids@, boid_index as int, dt as int),
        d@.within(2_000_000_000 * MAX_DT as int),
{
    let n = boids.len();
    let bk = boids[boid_index];
    let mut sx: i128 = 0;
    let mut sy: i128 = 0;
    let mut sz: i128 = 0;
    let mut cnt: i64 = 0;
    let mut i: usize = 0;
    while i < n
        invariant
            n == boids@.len(),
            n <= MAX_BODIES,
            boid_index < n,
            bk == boids@[boid_index as int],
            forall|t: int| 0 <= t < n ==> wf_boid_body(#[trigger] boids@[t]),
            0 <= i <= n,
            cnt as int == flock_count(boids@, boid_index as int, i as int),
            sx as int == flock_pos_sum(boids@, boid_index as int, i as int).x,
            sy as int == flock_pos_sum(boids@, boid_index as int, i as int).y,
            sz as int == flock_pos_sum(boids@, boid_index as int, i as int).z,
        decreases n - i,
    {
        proof {
            lemma_flock_bounds(boids@, boid_index as int, i as int);
            lemma_flock_bounds(boids@, boid_index as int, i as int + 1);
        }
        let bi = boids[i];
        let dx: i128 = (bk.position.x as i128) - (bi.position.x as i128);
        let dy: i128 = (bk.position.y as i128) - (bi.position.y as i128);
        let dz: i128 = (bk.position.z as i128) - (bi.position.z as i128);
        proof {
            lemma_len_sq_bounds(bk.position@.minus(bi.position@), 2 * MAX_COORD as int);
            lemma_mul_bound(dx as int, 2_000_000_000, dx as int, 2_000_000_000);
            lemma_mul_bound(dy as int, 2_000_000_000, dy as int, 2_000_000_000);
            lemma_mul_bound(dz as int, 2_000_000_000, dz as int, 2_000_000_000);
        }
        let q: i128 = dx * dx + dy * dy + dz * dz;
        if q < BOID_COHERENCE_DISTANCE_SQUARED as i128 {
            sx = sx + (bi.position.x as i128);
            sy = sy + (bi.position.y as i128);
            sz = sz + (bi.position.z as i128);
            cnt = cnt + 1;
        }
        i = i + 1;
    }
    proof {
        lemma_flock_bounds(boids@, boid_index as int, n as int);
    }
    if cnt > 0 {
        proof {
            lemma_avg_bound(sx as int, cnt as int, MAX_COORD as int);
            lemma_avg_bound(sy as int, cnt as int, MAX_COORD as int);
            lemma_avg_bound(sz as int, cnt as int, MAX_COORD as int);
        }
        let cx: i128 = div_q(sx, cnt as i128);
        let cy: i128 = div_q(sy, cnt as i128);
        let cz: i128 = div_q(sz, cnt as i128);
        Vec3 {
            x: steer_exec(cx - (bk.position.x as i128), dt, BOID_COHERENCE_DIVISOR),
            y: steer_exec(cy - (bk.position.y as i128), dt, BOID_COHERENCE_DIVISOR),
            z: steer_exec(cz - (bk.position.z as i128), dt, BOID_COHERENCE_DIVISOR),
        }
    } else {
        Vec3 { x: 0, y: 0, z: 0 }
    }
}

/// Separation contribution of the whole boid set to boid `boid_index`.
pub fn avoid_neightbour_boids(boids: &Vec<BoidBody>, boid_index: usize, dt: i64) -> (d: Vec3)
    requires
        boid_index < boids@.len(),
        boids@.len() <= MAX_BODIES,
        0 <= dt <= MAX_DT,
        forall|i: int| 0 <= i < boids@.len() ==> wf_boid_body(#[trigger] boids@[i]),
    ensures
        d@ == avoid_delta(boids@, boid_index as int, dt as int),
        d@.within(10_000_000_000 * MAX_DT as int),
{
    let n = boids.len();
    let bk = boids[boid_index];
    let mut sx: i128 = 0;
    let mut sy: i128 = 0;
    let mut sz: i128 = 0;
    let mut i: usize = 0;
    while i < n
        invariant
            n == boids@.len(),
            n <= MAX_BODIES,
            boid_index < n,
            bk == boids@[boid_index as int],
            forall|t: int| 0 <= t < n ==> wf_boid_body(#[trigger] boids@[t]),
            0 <= i <= n,
            sx as int == avoid_sum(boids@, boid_index as int, i as int).x,
            sy as int == avoid_sum(boids@, boid_index as int, i as int).y,
            sz as int == avoid_sum(boids@, boid_index as int, i as int).z,
            iabs(sx as int) <= i * 10_000,
            iabs(sy as int) <= i * 10_000,
            iabs(sz as int) <= i * 10_000,
        decreases n - i,
    {
        if i != boid_index {
            let bi = boids[i];
            let dx: i128 = (bk.position.x as i128) - (bi.position.x as i128);
            let dy: i128 = (bk.position.y as i128) - (bi.position.y as i128);
            let dz: i128 = (bk.position.z as i128) - (bi.position.z as i128);
            proof {
                lemma_len_sq_bounds(bk.position@.minus(bi.position@), 2 * MAX_COORD as int);
                lemma_mul_bound(dx as int, 2_000_000_000, dx as int, 2_000_000_000);
                lemma_mul_bound(dy as int, 2_000_000_000, dy as int, 2_000_000_000);
                lemma_mul_bound(dz as int, 2_000_000_000, dz as int, 2_000_000_000);
            }
            let q: i128 = dx * dx + dy * dy + dz * dz;
            if q < BOID_AVOIDANCE_DISTANCE_SQUARED as i128 {
                proof {
                    assert(iabs(dx as int) <= 10_000 && iabs(dy as int) <= 10_000 && iabs(
                        dz as int,
                    ) <= 10_000) by (nonlinear_arith)
                        requires
                            (dx as int) * (dx as int) + (dy as int) * (dy as int) + (dz as int)
                                * (dz as int) < 100_000_000,
                    ;
                }
                sx = sx + dx;
                sy = sy + dy;
                sz = sz + dz;
            }
        }
        i = i + 1;
    }
    Vec3 {
        x: steer_exec(sx, dt, BOID_AVOIDANCE_DIVISOR),
        y: steer_exec(sy, dt, BOID_AVOIDANCE_DIVISOR),
        z: steer_exec(sz, dt, BOID_AVOIDANCE_DIVISOR),
    }
}

/// Velocity-matching contribution of the whole boid set to boid
/// `boid_index`.
pub fn match_neighbour_boids_velocity(boids: &Vec<BoidBody>, boid_index: usize, dt: i64) -> (d:
    Vec3)
    requires
        boid_index < boids@.len(),
        boids@.len() <= MAX_BODIES,
        0 <= dt <= MAX_DT,
        forall|i: int| 0 <= i < boids@.len() ==> wf_boid_body(#[trigger] boids@[i]),
    ensures
        d@ == match_delta(boids@, boid_index as int, dt as int),
        d@.within(2_000_000_000 * MAX_DT as int),
{
    let n = boids.len();
    let bk = boids[boid_index];
    let mut sx: i128 = 0;
    let mut sy: i128 = 0;
    let mut sz: i128 = 0;
    let mut cnt: i64 = 0;
    let mut i: usize = 0;
    while i < n
        invariant
            n == boids@.len(),
            n <= MAX_BODIES,
            boid_index < n,
            bk == boids@[boid_index as int],
            forall|t: int| 0 <= t < n ==> wf_boid_body(#[trigger] boids@[t]),
            0 <= i <= n,
            cnt as int == flock_count(boids@, boid_index as int, i as int),
            sx as int == flock_vel_sum(boids@, boid_index as int, i as int).x,
            sy as int == flock_vel_sum(boids@, boid_index as int, i as int).y,
            sz as int == flock_vel_sum(boids@, boid_index as int, i as int).z,
        decreases n - i,
    {
        proof {
            lemma_flock_bounds(boids@, boid_index as int, i as int);
            lemma_flock_bounds(boids@, boid_index as int, i as int + 1);
        }
        let bi = boids[i];
        let dx: i128 = (bk.position.x as i128) - (bi.position.x as i128);
        let dy: i128 = (bk.position.y as i128) - (bi.position.y as i128);
        let dz: i128 = (bk.position.z as i128) - (bi.position.z as i128);
        proof {
            lemma_len_sq_bounds(bk.position@.minus(bi.position@), 2 * MAX_COORD as int);
            lemma_mul_bound(dx as int, 2_000_000_000, dx as int, 2_000_000_000);
            lemma_mul_bound(dy as int, 2_000_000_000, dy as int, 2_000_000_000);
            lemma_mul_bound(dz as int, 2_000_000_000, dz as int, 2_000_000_000);
        }
        let q: i128 = dx * dx + dy * dy + dz * dz;
        if q < BOID_COHERENCE_DISTANCE_SQUARED as i128 {
            sx = sx + (bi.velocity.x as i128);
            sy = sy + (bi.velocity.y as i128);
            sz = sz + (bi.velocity.z as i128);
            cnt = cnt + 1;
        }
        i = i + 1;
    }
    proof {
        lemma_flock_bounds(boids@, boid_index as int, n as int);
    }
    if cnt > 0 {
        proof {
            lemma_avg_bound(sx as int, cnt as int, MAX_SPEED as int);
            lemma_avg_bound(sy as int, cnt as int, MAX_SPEED as int);
            lemma_avg_bound(sz as int, cnt as int, MAX_SPEED as int);
        }
        let cx: i128 = div_q(sx, cnt as i128);
        let cy: i128 = div_q(sy, cnt as i128);
        let cz: i128 = div_q(sz, cnt as i128);
        Vec3 {
            x: steer_exec(cx - (bk.velocity.x as i128), dt, BOID_COHERENCE_DIVISOR),
            y: steer_exec(cy - (bk.velocity.y as i128), dt, BOID_COHERENCE_DIVISOR),
            z: steer_exec(cz - (bk.velocity.z as i128), dt, BOID_COHERENCE_DIVISOR),
        }
    } else {
        Vec3 { x: 0, y: 0, z: 0 }
    }
}

/// One clamped component stays within the limit times the frame time.
proof fn lemma_clamp_bound(vc: int, q: int, vn: int, dt: int)
    requires
        0 <= dt <= MAX_DT,
        vc * vc <= q,
        BOID_SPEED_LIMIT_SQUARED < q,
        is_isqrt(q, vn),
    ensures
        1 <= vn,
        1 <= vn * SCALE,
        iabs(vc) <= vn,
        iabs(div_tz(vc * BOID_SPEED_LIMIT * dt, vn * SCALE)) <= BOID_SPEED_LIMIT as int * MAX_DT,
{
    assert(1 <= vn && iabs(vc) <= vn) by (nonlinear_arith)
        requires
            1 <= q,
            is_isqrt(q, vn),
            vc * vc <= q,
    ;
    let c = vn * (BOID_SPEED_LIMIT as int * MAX_DT);
    let num = vc * BOID_SPEED_LIMIT * dt;
    let den = vn * SCALE;
    assert(1 <= den && vn <= den && 0 <= c && iabs(num) <= c) by (nonlinear_arith)
        requires
            1 <= vn,
            iabs(vc) <= vn,
            0 <= dt <= MAX_DT,
            c == vn * (BOID_SPEED_LIMIT as int * MAX_DT),
            num == vc * BOID_SPEED_LIMIT * dt,
            den == vn * SCALE,
    ;
    lemma_div_tz_le(num, den, c);
    assert(c / den <= c / vn) by (nonlinear_arith)
        requires
            0 <= c,
            1 <= vn <= den,
    ;
    assert(c == (BOID_SPEED_LIMIT as int * MAX_DT) * vn) by (nonlinear_arith)
        requires
            c == vn * (BOID_SPEED_LIMIT as int * MAX_DT),
    ;
    lemma_div_tz_mul_cancel(BOID_SPEED_LIMIT as int * MAX_DT, vn);
}

/// Clamp a boid's summed velocity to the speed limit.
pub fn limit_boid_speed(velocity: Vec3, dt: i64) -> (r: Vec3)
    requires
        velocity@.within(20_000_000_000_000_000),
        0 <= dt <= MAX_DT,
    ensures
        r@ == limit_speed(velocity@, dt as int),
{
    let vx: i128 = velocity.x as i128;
    let vy: i128 = velocity.y as i128;
    let vz: i128 = velocity.z as i128;
    proof {
        lemma_len_sq_bounds(velocity@, 20_000_000_000_000_000);
        lemma_mul_bound(vx as int, 20_000_000_000_000_000, vx as int, 20_000_000_000_000_000);
        lemma_mul_bound(vy as int, 20_000_000_000_000_000, vy as int, 20_000_000_000_000_000);
        lemma_mul_bound(vz as int, 20_000_000_000_000_000, vz as int, 20_000_000_000_000_000);
    }
    let q: i128 = vx * vx + vy * vy + vz * vz;
    assert(q as int == velocity@.len_sq());
    if q > BOID_SPEED_LIMIT_SQUARED as i128 {
        let vn: i128 = isqrt_u(q as u128) as i128;
        proof {
            lemma_isqrt(q as int);
            lemma_clamp_bound(vx as int, q as int, vn as int, dt as int);
            lemma_clamp_bound(vy as int, q as int, vn as int, dt as int);
            lemma_clamp_bound(vz as int, q as int, vn as int, dt as int);
            lemma_mul_bound(vx as int, 20_000_000_000_000_000, BOID_SPEED_LIMIT as int, BOID_SPEED_LIMIT as int);
            lemma_mul_bound(vy as int, 20_000_000_000_000_000, BOID_SPEED_LIMIT as int, BOID_SPEED_LIMIT as int);
            lemma_mul_bound(vz as int, 20_000_000_000_000_000, BOID_SPEED_LIMIT as int, BOID_SPEED_LIMIT as int);
            lemma_mul_bound(
                (vx as int) * (BOID_SPEED_LIMIT as int),
                200_000_000_000_000_000_000,
                dt as int,
                MAX_DT as int,
            );
            lemma_mul_bound(
                (vy as int) * (BOID_SPEED_LIMIT as int),
                200_000_000_000_000_000_000,
                dt as int,
                MAX_DT as int,
            );
            lemma_mul_bound(
                (vz as int) * (BOID_SPEED_LIMIT as int),
                200_000_000_000_000_000_000,
                dt as int,
                MAX_DT as int,
            );
        }
        let den: i128 = vn * (SCALE as i128);
        let rx: i128 = div_q(vx * (BOID_SPEED_LIMIT as i128) * (dt as i128), den);
        let ry: i128 = div_q(vy * (BOID_SPEED_LIMIT as i128) * (dt as i128), den);
        let rz: i128 = div_q(vz * (BOID_SPEED_LIMIT as i128) * (dt as i128), den);
        Vec3 { x: rx as i64, y: ry as i64, z: rz as i64 }
    } else {
        velocity
    }
}

/// One pass of flocking steering.
///
/// Every contribution is computed from a snapshot of all boids taken at
/// the start of the pass, so the order in which boids are visited never
/// affects the result.  Positions are left unchanged; each boid's
/// velocity becomes its snapshot velocity plus the three contributions,
/// clamped to the speed limit.
pub fn boid_update(boids: &mut Vec<BoidBody>, dt: i64)
    requires
        0 <= dt <= MAX_DT,
        old(boids)@.len() <= MAX_BODIES,
        forall|i: int| 0 <= i < old(boids)@.len() ==> wf_boid_body(#[trigger] old(boids)@[i]),
    ensures
        final(boids)@.len() == old(boids)@.len(),
        forall|i: int| 0 <= i < old(boids)@.len() ==> {
            &&& (#[trigger] final(boids)@[i]).position == old(boids)@[i].position
            &&& final(boids)@[i].boid == old(boids)@[i].boid
            &&& final(boids)@[i].velocity@ == boid_new_velocity(old(boids)@, i, dt as int)
        },
{
    let ghost rows = boids@;
    let n = boids.len();
    let mut newvels: Vec<Vec3> = Vec::new();
    let mut k: usize = 0;
    while k < n
        invariant
            n == rows.len(),
            boids@ == rows,
            n <= MAX_BODIES,
            0 <= dt <= MAX_DT,
            forall|i: int| 0 <= i < n ==> wf_boid_body(#[trigger] rows[i]),
            0 <= k <= n,
            newvels@.len() == k,
            forall|j: int| 0 <= j < k ==> (#[trigger] newvels@[j])@ == boid_new_velocity(
                rows,
                j,
                dt as int,
            ),
        decreases n - k,
    {
        let b = boids[k];
        let d1 = cohere_boid_flock(boids, k, dt);
        let d2 = avoid_neightbour_boids(boids, k, dt);
        let d3 = match_neighbour_boids_velocity(boids, k, dt);
        let summed = Vec3 {
            x: b.velocity.x + d1.x + d2.x + d3.x,
            y: b.velocity.y + d1.y + d2.y + d3.y,
            z: b.velocity.z + d1.z + d2.z + d3.z,
        };
        let nv = limit_boid_speed(summed, dt);
        assert(summed@ == rows[k as int].velocity@.plus(cohere_delta(rows, k as int, dt as int))
            .plus(avoid_delta(rows, k as int, dt as int)).plus(
            match_delta(rows, k as int, dt as int),
        ));
        newvels.push(nv);
        k = k + 1;
    }
    let mut k: usize = 0;
    while k < n
        invariant
            n == rows.len(),
            boids@.len() == n,
            newvels@.len() == n,
            forall|j: int| 0 <= j < n ==> (#[trigger] newvels@[j])@ == boid_new_velocity(
                rows,
                j,
                dt as int,
            ),
            0 <= k <= n,
            forall|j: int| k <= j < n ==> #[trigger] boids@[j] == rows[j],
            forall|j: int| 0 <= j < k ==> {
                &&& (#[trigger] boids@[j]).position == rows[j].position
                &&& boids@[j].boid == rows[j].boid
                &&& boids@[j].velocity@ == boid_new_velocity(rows, j, dt as int)
            },
        decreases n - k,
    {
        let b = boids[k];
        let nv = newvels[k];
        boids[k] = BoidBody { position: b.position, velocity: nv, boid: b.boid };
        k = k + 1;
    }
}

} // verus!
