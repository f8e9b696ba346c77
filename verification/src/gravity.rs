//! Pairwise gravitational attraction among all massive entities.
//!
//! For every unordered pair the engine computes the attracting impulse
//! `G * m_a * m_b * dt / r^2` along the line between the two positions and
//! applies it to both velocities with opposite signs (Newton's third law).
//! Pairs closer than [`MIN_GRAVITATION_DISTANCE`] are skipped, which guards
//! the division against a vanishing distance.

use vstd::prelude::*;
use crate::fixed::{
    div_tz, Wide3, iabs, is_isqrt, isqrt, isqrt_u, div_q, lemma_div_tz_le, lemma_div_tz_mul_cancel,
    lemma_isqrt, lemma_mul_bound, sat_narrow, MAX_BODIES, MAX_COORD, MAX_DT, MAX_MASS, MAX_SPEED,
    SCALE,
};
use crate::vec3::{dist_sq, lemma_len_sq_bounds, sat_v3, SpecVec3, Vec3};

verus! {

/// Gravitational mass of an entity, in fixed-point mass units.
#[derive(Clone, Copy, Debug, PartialEq, Eq, Structural)]
pub struct Gravity {
    pub mass: i64,
}

/// Strength of gravity: the attracting force between unit masses at unit
/// distance, as a plain multiplier.
pub const GRAVITATIONAL_CONSTANT: i64 = 50;

/// Objects closer than this (in coordinate sub-units) should have already
/// collided, or they are the same object; either way the pair is skipped,
/// which avoids dividing by zero or by a near-zero number.
pub const MIN_GRAVITATION_DISTANCE: i64 = 1;

/// The skip threshold compared against squared distances.
pub const MIN_GRAVITATION_DISTANCE_SQUARED: i64 = MIN_GRAVITATION_DISTANCE
    * MIN_GRAVITATION_DISTANCE;

/// Largest magnitude of a single pair's velocity change, per component:
/// `GRAVITATIONAL_CONSTANT * MAX_MASS * MAX_DT * SCALE`.
pub const GRAV_DELTA_LIMIT: i64 = 5_000_000_000_000_000_000;

/// Snapshot row of an entity that exerts and receives gravity: its
/// position, its velocity and its `Gravity` component.
#[derive(Clone, Copy, Debug, PartialEq, Eq, Structural)]
pub struct GravityBody {
    pub position: Vec3,
    pub velocity: Vec3,
    pub gravity: Gravity,
}

/// A row the gravity pass accepts: position within the world box and a
/// positive, bounded mass.
pub open spec fn wf_gravity_body(b: GravityBody) -> bool {
    &&& b.position@.within(MAX_COORD as int)
    &&& 1 <= b.gravity.mass <= MAX_MASS
}

/// One component of the gravitational impulse between masses `ma` and
/// `mb` over `dt`, along displacement component `dc`, at squared distance
/// `q` and distance `dist` (both in sub-units).
pub open spec fn grav_impulse_c(ma: int, mb: int, dt: int, dc: int, q: int, dist: int) -> int {
    div_tz(GRAVITATIONAL_CONSTANT * ma * mb * dt * dc * SCALE, q * dist)
}

/// Velocity change of entity `k` due to entity `o` in one gravity pass:
/// the pair's impulse divided by `k`'s own mass, pointing from `k`
/// toward `o`.  A pair below the minimum distance contributes nothing.
pub open spec fn grav_contrib(rows: Seq<GravityBody>, k: int, o: int, dt: int) -> SpecVec3 {
    let d = rows[k].position@.minus(rows[o].position@);
    let q = d.len_sq();
    if q < MIN_GRAVITATION_DISTANCE_SQUARED {
        SpecVec3::zero()
    } else {
        let dist = isqrt(q);
        let ma = rows[k].gravity.mass as int;
        let mb = rows[o].gravity.mass as int;
        SpecVec3 {
            x: -div_tz(grav_impulse_c(ma, mb, dt, d.x, q, dist), ma),
            y: -div_tz(grav_impulse_c(ma, mb, dt, d.y, q, dist), ma),
            z: -div_tz(grav_impulse_c(ma, mb, dt, d.z, q, dist), ma),
        }
    }
}

/// Sum of the gravity contributions to entity `k` from entities
/// `0..upto`, skipping `k` itself.
pub open spec fn grav_delta_upto(rows: Seq<GravityBody>, k: int, dt: int, upto: int) -> SpecVec3
    decreases upto,
{
    if upto <= 0 {
        SpecVec3::zero()
    } else if upto - 1 == k {
        grav_delta_upto(rows, k, dt, upto - 1)
    } else {
        grav_delta_upto(rows, k, dt, upto - 1).plus(grav_contrib(rows, k, upto - 1, dt))
    }
}

/// Total velocity change of entity `k` in one gravity pass over `rows`.
pub open spec fn grav_delta(rows: Seq<GravityBody>, k: int, dt: int) -> SpecVec3 {
    grav_delta_upto(rows, k, dt, rows.len() as int)
}

/// Bound for one pair's velocity change, one component.
proof fn lemma_grav_dv_bound(ma: int, mb: int, dt: int, dc: int, q: int, dist: int)
    requires
        1 <= ma <= MAX_MASS,
        1 <= mb <= MAX_MASS,
        0 <= dt <= MAX_DT,
        1 <= q,
        is_isqrt(q, dist),
        dc * dc <= q,
    ensures
        1 <= dist,
        iabs(dc) <= dist,
        iabs(div_tz(grav_impulse_c(ma, mb, dt, dc, q, dist), ma)) <= GRAV_DELTA_LIMIT as int,
{
    assert(1 <= dist && iabs(dc) <= dist) by (nonlinear_arith)
        requires
            1 <= q,
            is_isqrt(q, dist),
            dc * dc <= q,
    ;
    let a1 = GRAVITATIONAL_CONSTANT * ma * mb * dt * SCALE;
    let num = GRAVITATIONAL_CONSTANT * ma * mb * dt * dc * SCALE;
    let den = q * dist;
    assert(0 <= a1 && num == a1 * dc && dist <= den && a1 * dist >= 0 && iabs(num) <= a1 * dist)
        by (nonlinear_arith)
        requires
            1 <= ma,
            1 <= mb,
            0 <= dt,
            1 <= q,
            1 <= dist,
            iabs(dc) <= dist,
            a1 == GRAVITATIONAL_CONSTANT * ma * mb * dt * SCALE,
            num == GRAVITATIONAL_CONSTANT * ma * mb * dt * dc * SCALE,
            den == q * dist,
    ;
    lemma_div_tz_le(num, den, a1 * dist);
    let imp = div_tz(num, den);
    assert((a1 * dist) / den <= (a1 * dist) / dist) by (nonlinear_arith)
        requires
            0 <= a1 * dist,
            1 <= dist <= den,
    ;
    lemma_div_tz_mul_cancel(a1, dist);
    assert((a1 * dist) / dist == a1);
    assert(iabs(imp) <= a1);
    lemma_div_tz_le(imp, ma, a1);
    let c2 = GRAVITATIONAL_CONSTANT * mb * dt * SCALE;
    assert(a1 == c2 * ma && 0 <= c2 <= GRAV_DELTA_LIMIT) by (nonlinear_arith)
        requires
            1 <= ma,
            1 <= mb <= MAX_MASS,
            0 <= dt <= MAX_DT,
            a1 == GRAVITATIONAL_CONSTANT * ma * mb * dt * SCALE,
            c2 == GRAVITATIONAL_CONSTANT * mb * dt * SCALE,
    ;
    lemma_div_tz_mul_cancel(c2, ma);
    assert(a1 / ma == c2);
}

/// Velocity change of `k` due to `o`, one component, as executable code.
fn grav_pair_dv(ma: i64, mb: i64, dt: i64, dc: i128, q: i128, dist: i128) -> (r: i64)
    requires
        1 <= ma <= MAX_MASS,
        1 <= mb <= MAX_MASS,
        0 <= dt <= MAX_DT,
        1 <= q <= 12_000_000_000_000_000_000,
        dist as int == isqrt(q as int),
        dc * dc <= q,
    ensures
        r as int == -div_tz(
            grav_impulse_c(ma as int, mb as int, dt as int, dc as int, q as int, dist as int),
            ma as int,
        ),
        iabs(r as int) <= GRAV_DELTA_LIMIT as int,
{
    proof {
        lemma_isqrt(q as int);
        lemma_grav_dv_bound(ma as int, mb as int, dt as int, dc as int, q as int, dist as int);
        assert(dist <= 4_000_000_000) by (nonlinear_arith)
            requires
                is_isqrt(q as int, dist as int),
                q <= 12_000_000_000_000_000_000,
        ;
    }
    let t1: i128 = (GRAVITATIONAL_CONSTANT as i128) * (ma as i128);
    proof {
        lemma_mul_bound(t1 as int, 5_000_000_000, mb as int, MAX_MASS as int);
    }
    let t2: i128 = t1 * (mb as i128);
    proof {
        lemma_mul_bound(t2 as int, 500_000_000_000_000_000, dt as int, MAX_DT as int);
    }
    let t3: i128 = t2 * (dt as i128);
    proof {
        lemma_mul_bound(
            t3 as int,
            500_000_000_000_000_000_000_000,
            dc as int,
            4_000_000_000,
        );
    }
    let t4: i128 = t3 * dc;
    let num: i128 = t4 * (SCALE as i128);
    proof {
        lemma_mul_bound(q as int, 12_000_000_000_000_000_000, dist as int, 4_000_000_000);
        assert(1 <= q * dist) by (nonlinear_arith)
            requires
                1 <= q,
                1 <= dist,
        ;
    }
    let den: i128 = q * dist;
    let imp: i128 = div_q(num, den);
    let dv: i128 = div_q(imp, ma as i128);
    -(dv as i64)
}

/// All gravity deltas for one pass, computed from an immutable snapshot.
fn grav_deltas(bodies: &Vec<GravityBody>, dt: i64) -> (deltas: Vec<Wide3>)
    requires
        0 <= dt <= MAX_DT,
        bodies@.len() <= MAX_BODIES,
        forall|i: int| 0 <= i < bodies@.len() ==> wf_gravity_body(#[trigger] bodies@[i]),
    ensures
        deltas@.len() == bodies@.len(),
        forall|k: int| 0 <= k < bodies@.len() ==> (SpecVec3 {
            x: (#[trigger] deltas@[k]).x as int,
            y: deltas@[k].y as int,
            z: deltas@[k].z as int,
        }) == grav_delta(bodies@, k, dt as int),
        forall|k: int| 0 <= k < bodies@.len() ==> {
            &&& iabs((#[trigger] deltas@[k]).x as int) <= bodies@.len() * GRAV_DELTA_LIMIT
            &&& iabs(deltas@[k].y as int) <= bodies@.len() * GRAV_DELTA_LIMIT
            &&& iabs(deltas@[k].z as int) <= bodies@.len() * GRAV_DELTA_LIMIT
        },
{
    let n = bodies.len();
    let mut deltas: Vec<Wide3> = Vec::new();
    let mut k: usize = 0;
    while k < n
        invariant
            n == bodies@.len(),
            n <= MAX_BODIES,
            0 <= dt <= MAX_DT,
            forall|i: int| 0 <= i < n ==> wf_gravity_body(#[trigger] bodies@[i]),
            0 <= k <= n,
            deltas@.len() == k,
            forall|j: int| 0 <= j < k ==> (SpecVec3 {
                x: (#[trigger] deltas@[j]).x as int,
                y: deltas@[j].y as int,
                z: deltas@[j].z as int,
            }) == grav_delta(bodies@, j, dt as int),
            forall|j: int| 0 <= j < k ==> {
                &&& iabs((#[trigger] deltas@[j]).x as int) <= n * GRAV_DELTA_LIMIT
                &&& iabs(deltas@[j].y as int) <= n * GRAV_DELTA_LIMIT
                &&& iabs(deltas@[j].z as int) <= n * GRAV_DELTA_LIMIT
            },
        decreases n - k,
    {
        let bk = bodies[k];
        let mut ax: i128 = 0;
        let mut ay: i128 = 0;
        let mut az: i128 = 0;
        let mut o: usize = 0;
        while o < n
            invariant
                n == bodies@.len(),
                n <= MAX_BODIES,
                0 <= dt <= MAX_DT,
                forall|i: int| 0 <= i < n ==> wf_gravity_body(#[trigger] bodies@[i]),
                0 <= k < n,
                bk == bodies@[k as int],
                0 <= o <= n,
                iabs(ax as int) <= o * GRAV_DELTA_LIMIT,
                iabs(ay as int) <= o * GRAV_DELTA_LIMIT,
                iabs(az as int) <= o * GRAV_DELTA_LIMIT,
                (SpecVec3 { x: ax as int, y: ay as int, z: az as int }) == grav_delta_upto(
                    bodies@,
                    k as int,
                    dt as int,
                    o as int,
                ),
            decreases n - o,
        {
            if o != k {
                let bo = bodies[o];
                let dx: i128 = (bk.position.x as i128) - (bo.position.x as i128);
                let dy: i128 = (bk.position.y as i128) - (bo.position.y as i128);
                let dz: i128 = (bk.position.z as i128) - (bo.position.z as i128);
                proof {
                    lemma_len_sq_bounds(
                        bk.position@.minus(bo.position@),
                        2 * MAX_COORD as int,
                    );
                    lemma_mul_bound(dx as int, 2_000_000_000, dx as int, 2_000_000_000);
                    lemma_mul_bound(dy as int, 2_000_000_000, dy as int, 2_000_000_000);
                    lemma_mul_bound(dz as int, 2_000_000_000, dz as int, 2_000_000_000);
                }
                let q: i128 = dx * dx + dy * dy + dz * dz;
                assert(q as int == dist_sq(bk.position@, bo.position@));
                if q >= MIN_GRAVITATION_DISTANCE_SQUARED as i128 {
                    let dist: i128 = isqrt_u(q as u128) as i128;
                    let gx = grav_pair_dv(bk.gravity.mass, bo.gravity.mass, dt, dx, q, dist);
                    let gy = grav_pair_dv(bk.gravity.mass, bo.gravity.mass, dt, dy, q, dist);
                    let gz = grav_pair_dv(bk.gravity.mass, bo.gravity.mass, dt, dz, q, dist);
                    ax = ax + (gx as i128);
                    ay = ay + (gy as i128);
                    az = az + (gz as i128);
                }
            }
            o = o + 1;
        }
        deltas.push(Wide3 { x: ax, y: ay, z: az });
        k = k + 1;
    }
    deltas
}

/// One pass of pairwise gravitational attraction.
///
/// Positions and masses are read from a snapshot taken at the start of
/// the pass and are left unchanged; every entity's velocity gains the sum
/// of its pairwise attraction impulses divided by its own mass, clipped
/// to the `i64` range.
pub fn gravity_update(bodies: &mut Vec<GravityBody>, dt: i64)
    requires
        0 <= dt <= MAX_DT,
        old(bodies)@.len() <= MAX_BODIES,
        forall|i: int| 0 <= i < old(bodies)@.len() ==> wf_gravity_body(#[trigger] old(bodies)@[i]),
    ensures
        final(bodies)@.len() == old(bodies)@.len(),
        forall|i: int| 0 <= i < old(bodies)@.len() ==> {
            &&& (#[trigger] final(bodies)@[i]).position == old(bodies)@[i].position
            &&& final(bodies)@[i].gravity == old(bodies)@[i].gravity
            &&& final(bodies)@[i].velocity@ == sat_v3(
                old(bodies)@[i].velocity@.plus(grav_delta(old(bodies)@, i, dt as int)),
            )
        },
{
    let ghost rows = bodies@;
    let deltas = grav_deltas(bodies, dt);
    let n = bodies.len();
    proof {
        lemma_mul_bound(n as int, MAX_BODIES as int, GRAV_DELTA_LIMIT as int, GRAV_DELTA_LIMIT as int);
    }
    let mut k: usize = 0;
    while k < n
        invariant
            n == rows.len(),
            bodies@.len() == n,
            deltas@.len() == n,
            forall|j: int| 0 <= j < n ==> (SpecVec3 {
                x: (#[trigger] deltas@[j]).x as int,
                y: deltas@[j].y as int,
                z: deltas@[j].z as int,
            }) == grav_delta(rows, j, dt as int),
            forall|j: int| 0 <= j < n ==> {
                &&& iabs((#[trigger] deltas@[j]).x as int) <= n * GRAV_DELTA_LIMIT
                &&& iabs(deltas@[j].y as int) <= n * GRAV_DELTA_LIMIT
                &&& iabs(deltas@[j].z as int) <= n * GRAV_DELTA_LIMIT
            },
            n * GRAV_DELTA_LIMIT <= MAX_BODIES * GRAV_DELTA_LIMIT,
            0 <= k <= n,
            forall|j: int| k <= j < n ==> #[trigger] bodies@[j] == rows[j],
            forall|j: int| 0 <= j < k ==> {
                &&& (#[trigger] bodies@[j]).position == rows[j].position
                &&& bodies@[j].gravity == rows[j].gravity
                &&& bodies@[j].velocity@ == sat_v3(
                    rows[j].velocity@.plus(grav_delta(rows, j, dt as int)),
                )
            },
        decreases n - k,
    {
        let b = bodies[k];
        let d = deltas[k];
        let v = Vec3 {
            x: sat_narrow((b.velocity.x as i128) + d.x),
            y: sat_narrow((b.velocity.y as i128) + d.y),
            z: sat_narrow((b.velocity.z as i128) + d.z),
        };
        bodies[k] = GravityBody { position: b.position, velocity: v, gravity: b.gravity };
        k = k + 1;
    }
}

/// In a two-body system, each body's pass delta is exactly its one pair
/// contribution.
proof fn lemma_two_body_delta(rows: Seq<GravityBody>, dt: int)
    requires
        rows.len() == 2,
    ensures
        grav_delta(rows, 0, dt) == grav_contrib(rows, 0, 1, dt),
        grav_delta(rows, 1, dt) == grav_contrib(rows, 1, 0, dt),
{
    assert(grav_delta_upto(rows, 0, dt, 0) == SpecVec3::zero());
    assert(grav_delta_upto(rows, 0, dt, 1) == SpecVec3::zero());
    assert(grav_delta_upto(rows, 0, dt, 2) == SpecVec3::zero().plus(grav_contrib(rows, 0, 1, dt)));
    assert(grav_delta_upto(rows, 1, dt, 0) == SpecVec3::zero());
    assert(grav_delta_upto(rows, 1, dt, 1) == SpecVec3::zero().plus(grav_contrib(rows, 1, 0, dt)));
    assert(grav_delta_upto(rows, 1, dt, 2) == grav_delta_upto(rows, 1, dt, 1));
}

/// The two opposite impulse components cancel up to the two divisions by
/// the masses: one truncation residue from each side.
proof fn lemma_momentum_component(ma: int, mb: int, dt: int, dc: int, q: int, dist: int)
    requires
        1 <= ma,
        1 <= mb,
        1 <= q,
        1 <= dist,
    ensures
        iabs(
            ma * (-div_tz(grav_impulse_c(ma, mb, dt, dc, q, dist), ma)) + mb * (-div_tz(
                grav_impulse_c(mb, ma, dt, -dc, q, dist),
                mb,
            )),
        ) < ma + mb,
{
    let den = q * dist;
    assert(1 <= den) by (nonlinear_arith)
        requires
            1 <= q,
            1 <= dist,
            den == q * dist,
    ;
    let num = GRAVITATIONAL_CONSTANT * ma * mb * dt * dc * SCALE;
    assert(GRAVITATIONAL_CONSTANT * mb * ma * dt * (-dc) * SCALE == -num) by (nonlinear_arith)
        requires
            num == GRAVITATIONAL_CONSTANT * ma * mb * dt * dc * SCALE,
    ;
    crate::fixed::lemma_div_tz_neg(num, den);
    let imp = div_tz(num, den);
    assert(grav_impulse_c(ma, mb, dt, dc, q, dist) == imp);
    assert(grav_impulse_c(mb, ma, dt, -dc, q, dist) == -imp);
    crate::fixed::lemma_div_tz_neg(imp, mb);
    crate::fixed::lemma_div_tz_rem(imp, ma);
    crate::fixed::lemma_div_tz_rem(imp, mb);
    let ra = imp - ma * div_tz(imp, ma);
    let rb = imp - mb * div_tz(imp, mb);
    assert(ma * (-div_tz(imp, ma)) == -(ma * div_tz(imp, ma))) by (nonlinear_arith);
    assert(mb * (-div_tz(-imp, mb)) == mb * div_tz(imp, mb)) by (nonlinear_arith)
        requires
            div_tz(-imp, mb) == -div_tz(imp, mb),
    ;
    assert(ma * (-div_tz(imp, ma)) + mb * (-div_tz(-imp, mb)) == ra - rb);
}

/// Momentum conservation for gravity: in a two-body system one pass
/// changes the two momenta by amounts that cancel, up to the truncation
/// residue of the two divisions by the masses — per component the sum of
/// momentum changes stays strictly below `m_a + m_b` sub-units.
pub proof fn lemma_gravity_momentum(rows: Seq<GravityBody>, dt: int)
    requires
        rows.len() == 2,
        wf_gravity_body(rows[0]),
        wf_gravity_body(rows[1]),
        0 <= dt <= MAX_DT,
    ensures
        ({
            let ma = rows[0].gravity.mass as int;
            let mb = rows[1].gravity.mass as int;
            let d0 = grav_delta(rows, 0, dt);
            let d1 = grav_delta(rows, 1, dt);
            &&& iabs(ma * d0.x + mb * d1.x) < ma + mb
            &&& iabs(ma * d0.y + mb * d1.y) < ma + mb
            &&& iabs(ma * d0.z + mb * d1.z) < ma + mb
        }),
{
    lemma_two_body_delta(rows, dt);
    let ma = rows[0].gravity.mass as int;
    let mb = rows[1].gravity.mass as int;
    let d01 = rows[0].position@.minus(rows[1].position@);
    let d10 = rows[1].position@.minus(rows[0].position@);
    let q = d01.len_sq();
    assert(d10.len_sq() == q && (d01.x) * (d01.x) <= q && (d01.y) * (d01.y) <= q && (d01.z)
        * (d01.z) <= q && q >= 0) by (nonlinear_arith)
        requires
            d10.x == -d01.x,
            d10.y == -d01.y,
            d10.z == -d01.z,
            q == d01.len_sq(),
    ;
    if q < MIN_GRAVITATION_DISTANCE_SQUARED {
        assert(grav_delta(rows, 0, dt) == SpecVec3::zero());
        assert(grav_delta(rows, 1, dt) == SpecVec3::zero());
        assert(iabs(ma * 0 + mb * 0) < ma + mb) by (nonlinear_arith)
            requires
                1 <= ma,
                1 <= mb,
        ;
    } else {
        let dist = isqrt(q);
        lemma_isqrt(q);
        assert(1 <= dist) by (nonlinear_arith)
            requires
                is_isqrt(q, dist),
                1 <= q,
        ;
        lemma_momentum_component(ma, mb, dt, d01.x, q, dist);
        lemma_momentum_component(ma, mb, dt, d01.y, q, dist);
        lemma_momentum_component(ma, mb, dt, d01.z, q, dist);
    }
}

/// Momentum conservation at the pass level: for a two-body system whose
/// input velocities are within the accepted speed bound the saturation
/// never engages, so the velocities `gravity_update` actually stores
/// change the two momenta by amounts that cancel per component, up to
/// the truncation residue strictly below `m_a + m_b` sub-units.
pub proof fn lemma_gravity_pass_momentum(rows: Seq<GravityBody>, dt: int)
    requires
        rows.len() == 2,
        wf_gravity_body(rows[0]),
        wf_gravity_body(rows[1]),
        rows[0].velocity@.within(MAX_SPEED as int),
        rows[1].velocity@.within(MAX_SPEED as int),
        0 <= dt <= MAX_DT,
    ensures
        ({
            let ma = rows[0].gravity.mass as int;
            let mb = rows[1].gravity.mass as int;
            let w0 = sat_v3(rows[0].velocity@.plus(grav_delta(rows, 0, dt)));
            let w1 = sat_v3(rows[1].velocity@.plus(grav_delta(rows, 1, dt)));
            &&& w0 == rows[0].velocity@.plus(grav_delta(rows, 0, dt))
            &&& w1 == rows[1].velocity@.plus(grav_delta(rows, 1, dt))
            &&& iabs(ma * (w0.x - rows[0].velocity@.x) + mb * (w1.x - rows[1].velocity@.x)) < ma
                + mb
            &&& iabs(ma * (w0.y - rows[0].velocity@.y) + mb * (w1.y - rows[1].velocity@.y)) < ma
                + mb
            &&& iabs(ma * (w0.z - rows[0].velocity@.z) + mb * (w1.z - rows[1].velocity@.z)) < ma
                + mb
        }),
{
    lemma_two_body_delta(rows, dt);
    lemma_gravity_momentum(rows, dt);
    let ma = rows[0].gravity.mass as int;
    let mb = rows[1].gravity.mass as int;
    let d01 = rows[0].position@.minus(rows[1].position@);
    let d10 = rows[1].position@.minus(rows[0].position@);
    let q = d01.len_sq();
    lemma_len_sq_bounds(d01, 2 * MAX_COORD as int);
    assert(d10.len_sq() == q && (d10.x) * (d10.x) <= q && (d10.y) * (d10.y) <= q && (d10.z)
        * (d10.z) <= q) by (nonlinear_arith)
        requires
            d10.x == -d01.x,
            d10.y == -d01.y,
            d10.z == -d01.z,
            q == d01.len_sq(),
            (d01.x) * (d01.x) <= q,
            (d01.y) * (d01.y) <= q,
            (d01.z) * (d01.z) <= q,
    ;
    if q >= MIN_GRAVITATION_DISTANCE_SQUARED {
        let dist = isqrt(q);
        lemma_isqrt(q);
        lemma_grav_dv_bound(ma, mb, dt, d01.x, q, dist);
        lemma_grav_dv_bound(ma, mb, dt, d01.y, q, dist);
        lemma_grav_dv_bound(ma, mb, dt, d01.z, q, dist);
        lemma_grav_dv_bound(mb, ma, dt, d10.x, q, dist);
        lemma_grav_dv_bound(mb, ma, dt, d10.y, q, dist);
        lemma_grav_dv_bound(mb, ma, dt, d10.z, q, dist);
    }
}

/// Below the minimum gravitation distance a pair exchanges no gravity:
/// in a two-body system closer than [`MIN_GRAVITATION_DISTANCE`] one pass
/// changes neither velocity.
pub proof fn lemma_gravity_min_distance(rows: Seq<GravityBody>, dt: int)
    requires
        rows.len() == 2,
        dist_sq(rows[0].position@, rows[1].position@) < MIN_GRAVITATION_DISTANCE_SQUARED,
    ensures
        grav_delta(rows, 0, dt) == SpecVec3::zero(),
        grav_delta(rows, 1, dt) == SpecVec3::zero(),
{
    lemma_two_body_delta(rows, dt);
    let d01 = rows[0].position@.minus(rows[1].position@);
    let d10 = rows[1].position@.minus(rows[0].position@);
    assert(d10.len_sq() == d01.len_sq()) by (nonlinear_arith)
        requires
            d10.x == -d01.x,
            d10.y == -d01.y,
            d10.z == -d01.z,
    ;
}

} // verus!
