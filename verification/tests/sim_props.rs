//! Properties of whole ticks: capacity, emission, the end-to-end scenario,
//! snapshots and the renderer view.

use nbody::fixed::SCALE;
use nbody::particle::{Config, EmissionProfile, Particle, SimError};
use nbody::sim::Simulation;

fn particle(m: i64, c: i64, px: i64, py: i64) -> Particle {
    Particle { m, c, px, py, vx: 0, vy: 0, ax: 0, ay: 0, fx: 0, fy: 0 }
}

fn scaled(units: f64) -> i64 {
    (units * SCALE as f64).round() as i64
}

fn to_units(v: i64) -> f64 {
    v as f64 / SCALE as f64
}

/// A pair of mirrored emission profiles: opposite charge and velocity, so
/// the system trends toward balance.
fn mirrored_profiles() -> Vec<EmissionProfile> {
    vec![
        EmissionProfile {
            x: scaled(120.0),
            y: scaled(240.0),
            jitter: scaled(1.0),
            vx: scaled(10.0),
            vy: scaled(10.0),
            m: scaled(10.0),
            c: scaled(-5.0),
        },
        EmissionProfile {
            x: scaled(520.0),
            y: scaled(240.0),
            jitter: scaled(1.0),
            vx: scaled(-10.0),
            vy: scaled(-10.0),
            m: scaled(10.0),
            c: scaled(5.0),
        },
    ]
}

/// Emission monotonicity: from an empty population with capacity 100 and
/// two particles emitted per tick, the population after tick `k` is
/// exactly `min(100, 2k)`.
#[test]
fn emission_monotonicity() {
    let cfg = Config {
        dt: 10_000,
        gravity: 0,
        coulomb: 0,
        r_min: SCALE,
        damping: 0,
        capacity: 100,
        cadence: 1,
        profiles: mirrored_profiles(),
    };
    let mut sim = Simulation::new(cfg, 7);
    for k in 1..=60u64 {
        sim.tick().unwrap();
        let expected = std::cmp::min(100, 2 * k as usize);
        assert_eq!(sim.population(), expected);
        assert_eq!(sim.tick_count(), k);
    }
}

/// Capacity invariant: after any number of ticks the population never
/// exceeds the configured capacity, here with real forces at work.
#[test]
fn capacity_invariant() {
    let cfg = Config {
        dt: 10_000,
        gravity: scaled(10.0),
        coulomb: scaled(10.0),
        r_min: scaled(10.0),
        damping: 1_000,
        capacity: 7,
        cadence: 1,
        profiles: mirrored_profiles(),
    };
    let mut sim = Simulation::new(cfg, 11);
    for _ in 0..40 {
        sim.tick().unwrap();
        assert!(sim.population() <= 7);
    }
    assert_eq!(sim.population(), 7);
}

/// Emission cadence: with a cadence of 3, particles appear only on every
/// third tick (ticks 0, 3, 6, ... counted before the increment).
#[test]
fn emission_cadence() {
    let cfg = Config {
        dt: 10_000,
        gravity: 0,
        coulomb: 0,
        r_min: SCALE,
        damping: 0,
        capacity: 100,
        cadence: 3,
        profiles: mirrored_profiles(),
    };
    let mut sim = Simulation::new(cfg, 3);
    let mut expected = 0;
    for k in 0..12u64 {
        // Tick k emits exactly when k % 3 == 0.
        if k % 3 == 0 {
            expected += 2;
        }
        sim.tick().unwrap();
        assert_eq!(sim.population(), expected);
    }
}

/// Emitted particles carry the profile's mass, charge and velocity, and
/// spawn within the jitter box of the profile's coordinates.  Forces and
/// profile velocities are zero here so emitted particles stay where they
/// spawned.
#[test]
fn emission_profiles_respected() {
    let mut profiles = mirrored_profiles();
    for pr in profiles.iter_mut() {
        pr.vx = 0;
        pr.vy = 0;
    }
    let cfg = Config {
        dt: 10_000,
        gravity: 0,
        coulomb: 0,
        r_min: SCALE,
        damping: 0,
        capacity: 100,
        cadence: 1,
        profiles: profiles.clone(),
    };
    let mut sim = Simulation::new(cfg, 1234);
    for _ in 0..10 {
        sim.tick().unwrap();
    }
    assert_eq!(sim.population(), 20);
    for (i, p) in sim.particles.iter().enumerate() {
        let pr = &profiles[i % 2];
        assert_eq!(p.m, pr.m);
        assert_eq!(p.c, pr.c);
        assert!(pr.x <= p.px && p.px <= pr.x + pr.jitter);
        assert!(pr.y <= p.py && p.py <= pr.y + pr.jitter);
    }
}

/// End-to-end scenario: four particles at the corners of a unit square,
/// each of mass 10, charges `[5, -5, 5, -5]`, all velocities zero,
/// `dt = 0.01`, `G = 10`, `K = 10`.  After one tick each position moves by
/// the manually computed `(sum of forces / mass) * dt^2`.
#[test]
fn unit_square_one_tick() {
    let cfg = Config {
        dt: 10_000,
        gravity: scaled(10.0),
        coulomb: scaled(10.0),
        r_min: 10_000,
        damping: 0,
        capacity: 4,
        cadence: 1,
        profiles: Vec::new(),
    };
    let mut sim = Simulation::new(cfg, 0);
    sim.particles.push(particle(scaled(10.0), scaled(5.0), 0, 0));
    sim.particles.push(particle(scaled(10.0), scaled(-5.0), scaled(1.0), 0));
    sim.particles.push(particle(scaled(10.0), scaled(5.0), 0, scaled(1.0)));
    sim.particles.push(particle(scaled(10.0), scaled(-5.0), scaled(1.0), scaled(1.0)));
    let before: Vec<(i64, i64)> = sim.particles.iter().map(|p| (p.px, p.py)).collect();
    sim.tick().unwrap();

    // (1250 + 625/sqrt(2)) / 10 * dt^2 and (750 + 625/sqrt(2)) / 10 * dt^2.
    let dx = 0.016919417382415924_f64;
    let dy = 0.011919417382415923_f64;
    let expected = [(dx, dy), (-dx, dy), (dx, -dy), (-dx, -dy)];
    for i in 0..4 {
        let gx = to_units(sim.particles[i].px - before[i].0);
        let gy = to_units(sim.particles[i].py - before[i].1);
        assert!(gx != 0.0 && gy != 0.0);
        assert!((gx - expected[i].0).abs() < 1e-5);
        assert!((gy - expected[i].1).abs() < 1e-5);
    }
}

/// The snapshot is an independently owned copy: it equals the population
/// at the time it was taken and stays fixed while the simulation advances.
#[test]
fn snapshot_is_independent() {
    let cfg = Config {
        dt: 10_000,
        gravity: scaled(10.0),
        coulomb: scaled(10.0),
        r_min: scaled(1.0),
        damping: 0,
        capacity: 10,
        cadence: 1,
        profiles: mirrored_profiles(),
    };
    let mut sim = Simulation::new(cfg, 5);
    sim.tick().unwrap();
    let snap = sim.snapshot();
    assert_eq!(snap, sim.particles);
    let copy = snap.clone();
    sim.tick().unwrap();
    assert_eq!(snap, copy);
}

/// The renderer view lists position and charge sign per particle, in
/// population order.
#[test]
fn render_view_matches() {
    let cfg = Config {
        dt: 10_000,
        gravity: 0,
        coulomb: 0,
        r_min: SCALE,
        damping: 0,
        capacity: 100,
        cadence: 1,
        profiles: mirrored_profiles(),
    };
    let mut sim = Simulation::new(cfg, 9);
    for _ in 0..3 {
        sim.tick().unwrap();
    }
    let view = sim.render_view();
    assert_eq!(view.len(), sim.particles.len());
    for (i, &(x, y, positive)) in view.iter().enumerate() {
        assert_eq!(x, sim.particles[i].px);
        assert_eq!(y, sim.particles[i].py);
        assert_eq!(positive, sim.particles[i].c >= 0);
    }
}

/// A tick whose force phase overflows fails with `ForceOverflow` and
/// leaves the simulation untouched.
#[test]
fn failed_force_tick_changes_nothing() {
    let cfg = Config {
        dt: 1,
        gravity: nbody::fixed::BOUND,
        coulomb: 0,
        r_min: 1,
        damping: 0,
        capacity: 4,
        cadence: 1,
        profiles: Vec::new(),
    };
    let mut sim = Simulation::new(cfg, 0);
    sim.particles.push(particle(nbody::fixed::BOUND, 0, 0, 0));
    sim.particles.push(particle(nbody::fixed::BOUND, 0, 1, 0));
    let before = sim.particles.clone();
    assert_eq!(sim.tick(), Err(SimError::ForceOverflow));
    assert_eq!(sim.particles, before);
    assert_eq!(sim.tick_count(), 0);
}

/// A tick whose integration phase overflows fails with
/// `IntegrationOverflow` and leaves the simulation untouched.
#[test]
fn failed_integration_tick_changes_nothing() {
    let cfg = Config {
        dt: 1,
        gravity: 0,
        coulomb: nbody::fixed::BOUND,
        r_min: 1,
        damping: 0,
        capacity: 4,
        cadence: 1,
        profiles: Vec::new(),
    };
    let mut sim = Simulation::new(cfg, 0);
    // Opposite unit charges one unit apart on minimal masses: the force
    // (BOUND exactly) is representable, the acceleration is not.
    sim.particles.push(particle(1, SCALE, 0, 0));
    sim.particles.push(particle(1, -SCALE, SCALE, 0));
    let before = sim.particles.clone();
    assert_eq!(sim.tick(), Err(SimError::IntegrationOverflow));
    assert_eq!(sim.particles, before);
    assert_eq!(sim.tick_count(), 0);
}

/// Drag: with damping enabled the velocity of a force-free particle decays
/// by exactly `1 - damping * dt` per tick.
#[test]
fn drag_decays_velocity() {
    let cfg = Config {
        dt: 100_000,  // 0.1
        gravity: 0,
        coulomb: 0,
        r_min: SCALE,
        damping: scaled(1.0),
        capacity: 1,
        cadence: 1,
        profiles: Vec::new(),
    };
    let mut sim = Simulation::new(cfg, 0);
    let mut p = particle(scaled(1.0), 0, 0, 0);
    p.vx = scaled(100.0);
    sim.particles.push(p);
    sim.tick().unwrap();
    // drag = 1 - 1.0 * 0.1 = 0.9
    assert_eq!(sim.particles[0].vx, scaled(90.0));
    assert_eq!(sim.particles[0].px, scaled(9.0));
}
