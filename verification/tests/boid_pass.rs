//! The flocking engine: the three steering contributions, the speed
//! clamp with its deliberate frame-time factor, and convergence of a
//! small flock's velocities.

use spacesim::boid::{boid_update, limit_boid_speed, Boid, BoidBody};
use spacesim::vec3::Vec3;

fn boid(p: (i64, i64, i64), v: (i64, i64, i64)) -> BoidBody {
    BoidBody {
        position: Vec3 { x: p.0, y: p.1, z: p.2 },
        velocity: Vec3 { x: v.0, y: v.1, z: v.2 },
        boid: Boid {},
    }
}

#[test]
fn lone_boid_keeps_its_velocity() {
    // A lone boid's flock is itself: the centroid is its own position and
    // the average velocity its own, so nothing steers it.
    let mut boids = vec![boid((5_000, 6_000, 7_000), (1_000, 2_000, 3_000))];
    boid_update(&mut boids, 100);
    assert_eq!(boids[0].velocity, Vec3 { x: 1_000, y: 2_000, z: 3_000 });
    assert_eq!(boids[0].position, Vec3 { x: 5_000, y: 6_000, z: 7_000 });
}

#[test]
fn cohesion_pulls_toward_the_centroid() {
    // Two boids at rest, coherent but outside avoidance range: each is
    // pulled toward the other; by symmetry the pulls mirror.
    let mut boids = vec![boid((0, 0, 0), (0, 0, 0)), boid((12_000, 0, 0), (0, 0, 0))];
    boid_update(&mut boids, 1_000);
    // Centroid at 6000: gap 6000, steering = 6000*1000/10000 = 600.
    assert_eq!(boids[0].velocity, Vec3 { x: 600, y: 0, z: 0 });
    assert_eq!(boids[1].velocity, Vec3 { x: -600, y: 0, z: 0 });
}

#[test]
fn separation_pushes_close_boids_apart() {
    // Two boids well inside the avoidance distance.
    let mut boids = vec![boid((0, 0, 0), (0, 0, 0)), boid((2_000, 0, 0), (0, 0, 0))];
    boid_update(&mut boids, 1_000);
    // Cohesion: centroid at 1000 → +100 for the first boid.
    // Separation: displacement -2000, steering = -2000*1000/5000 = -400.
    assert_eq!(boids[0].velocity, Vec3 { x: -300, y: 0, z: 0 });
    assert_eq!(boids[1].velocity, Vec3 { x: 300, y: 0, z: 0 });
}

#[test]
fn velocity_matching_averages_the_flock() {
    // Coherent, non-crowding pair with only velocities differing.
    let mut boids = vec![
        boid((0, 0, 0), (0, 1_000, 0)),
        boid((12_000, 0, 0), (0, 5_000, 0)),
    ];
    boid_update(&mut boids, 1_000);
    // Average velocity y = 3000; matching moves each a tenth of its gap
    // per second: first gains 200, second loses 200. Cohesion adds the
    // x pull of 600 toward the centroid as before.
    assert_eq!(boids[0].velocity, Vec3 { x: 600, y: 1_200, z: 0 });
    assert_eq!(boids[1].velocity, Vec3 { x: -600, y: 4_800, z: 0 });
}

#[test]
fn speed_clamp_rescales_with_frame_time_factor() {
    // Above the limit of 10 units/s the velocity is rescaled to the
    // limit times dt: the known frame-rate-dependent clamp.
    let v = Vec3 { x: 30_000, y: 0, z: 0 };
    let clamped = limit_boid_speed(v, 100);
    // 30000 * 10000 * 100 / (30000 * 1000) = 1000.
    assert_eq!(clamped, Vec3 { x: 1_000, y: 0, z: 0 });
    // At or below the limit the velocity is untouched.
    let v2 = Vec3 { x: 10_000, y: 0, z: 0 };
    assert_eq!(limit_boid_speed(v2, 100), v2);
    let v3 = Vec3 { x: -6_000, y: 8_000, z: 1 };
    let c3 = limit_boid_speed(v3, 100);
    // |v3| just over the limit: rescaled along the same direction.
    assert_eq!(c3, Vec3 { x: -600, y: 800, z: 0 });
}

#[test]
fn three_boid_flock_velocities_converge() {
    // Three boids clustered within the coherence distance, outside the
    // avoidance distance, with divergent velocities: repeated passes
    // shrink the spread of their velocities monotonically.
    let mut boids = vec![
        boid((0, 0, 0), (9_000, 0, 0)),
        boid((11_000, 0, 0), (0, 9_000, 0)),
        boid((0, 11_000, 0), (0, 0, 9_000)),
    ];
    let variance = |bs: &Vec<BoidBody>| -> i128 {
        let mut total: i128 = 0;
        for c in 0..3 {
            let vals: Vec<i128> = bs
                .iter()
                .map(|b| match c {
                    0 => b.velocity.x as i128,
                    1 => b.velocity.y as i128,
                    _ => b.velocity.z as i128,
                })
                .collect();
            let mean = (vals[0] + vals[1] + vals[2]) / 3;
            total += vals.iter().map(|v| (v - mean) * (v - mean)).sum::<i128>();
        }
        total
    };
    let start = variance(&boids);
    let mut prev = start;
    for _ in 0..20 {
        boid_update(&mut boids, 100);
        let cur = variance(&boids);
        assert!(cur <= prev, "variance grew from {} to {}", prev, cur);
        prev = cur;
    }
    assert!(prev < start);
}
