//! Properties of the pairwise force law and the all-pairs force phase.

use nbody::fixed::{BOUND, SCALE};
use nbody::forces::{compute_forces, force_on, pair_force};
use nbody::particle::{Config, Particle, SimError};

fn particle(m: i64, c: i64, px: i64, py: i64) -> Particle {
    Particle { m, c, px, py, vx: 0, vy: 0, ax: 0, ay: 0, fx: 0, fy: 0 }
}

fn config(gravity: i64, coulomb: i64, r_min: i64) -> Config {
    Config {
        dt: 10_000,
        gravity,
        coulomb,
        r_min,
        damping: 0,
        capacity: 16,
        cadence: 1,
        profiles: Vec::new(),
    }
}

fn scaled(units: f64) -> i64 {
    (units * SCALE as f64).round() as i64
}

fn to_units(v: i64) -> f64 {
    v as f64 / SCALE as f64
}

/// For any two particles the contribution of one on the other is the exact
/// negation of the reverse contribution, bit for bit.
#[test]
fn antisymmetry_concrete() {
    let cfg = config(scaled(10.0), scaled(10.0), scaled(0.01));
    let p = particle(scaled(10.0), scaled(5.0), scaled(1.25), scaled(-3.5));
    let q = particle(scaled(7.0), scaled(-2.0), scaled(-0.75), scaled(2.25));
    let fpq = pair_force(&p, &q, &cfg);
    let fqp = pair_force(&q, &p, &cfg);
    assert_eq!(fqp.0, -fpq.0);
    assert_eq!(fqp.1, -fpq.1);
    assert!(fpq.0 != 0 || fpq.1 != 0);
}

/// Antisymmetry also holds for a coincident pair: with the index-based
/// self-skip two distinct particles at the same position interact with a
/// zero displacement, hence a zero mutual force.
#[test]
fn antisymmetry_coincident_pair() {
    let cfg = config(scaled(10.0), scaled(10.0), scaled(0.01));
    let p = particle(scaled(10.0), scaled(5.0), scaled(1.0), scaled(1.0));
    let q = particle(scaled(3.0), scaled(-5.0), scaled(1.0), scaled(1.0));
    let fpq = pair_force(&p, &q, &cfg);
    let fqp = pair_force(&q, &p, &cfg);
    assert_eq!(fpq, (0, 0));
    assert_eq!(fqp, (0, 0));
}

/// Two-particle system against the closed-form formula
/// `(G*m1*m2 - K*q1*q2) / r^2` along the separation axis.
#[test]
fn closed_form_match() {
    let cfg = config(scaled(10.0), scaled(10.0), scaled(0.01));
    let snap = vec![
        particle(scaled(10.0), scaled(5.0), 0, 0),
        particle(scaled(20.0), scaled(-5.0), scaled(3.0), 0),
    ];
    let f = force_on(&snap, 0, &cfg).unwrap();
    // Fg = 10*10*20/9, Fc = -10*5*(-5)/9; both pull particle 0 toward +x.
    let expected = (10.0 * 10.0 * 20.0 + 10.0 * 5.0 * 5.0) / 9.0;
    let got = to_units(f.x);
    assert!((got - expected).abs() / expected < 1e-5);
    assert_eq!(f.y, 0);
    // The mirrored force on particle 1.
    let f1 = force_on(&snap, 1, &cfg).unwrap();
    assert_eq!(f1.x, -f.x);
    assert_eq!(f1.y, 0);
}

/// Running the force phase twice on the same snapshot yields bit-identical
/// results: the computation has no hidden state.
#[test]
fn purity_bit_identical() {
    let cfg = config(scaled(10.0), scaled(10.0), scaled(0.01));
    let mut snap = Vec::new();
    for i in 0..8 {
        let sign = if i % 2 == 0 { 1 } else { -1 };
        snap.push(particle(
            scaled(10.0),
            sign * scaled(5.0),
            scaled(2.0 * i as f64),
            scaled(1.5 * (i % 3) as f64),
        ));
    }
    let f1 = compute_forces(&snap, &cfg).unwrap();
    let f2 = compute_forces(&snap, &cfg).unwrap();
    assert_eq!(f1, f2);
}

/// A pair closer than `r_min` is evaluated at radius `r_min`: the scalar
/// part equals the one of a pair separated by exactly `r_min`, and the
/// magnitude never exceeds it.
#[test]
fn threshold_clamp() {
    // Uncharged particles, so the force is the gravity term alone.
    let cfg = config(scaled(10.0), scaled(10.0), 10_000);
    let p = particle(scaled(10.0), 0, 0, 0);
    // True distance 0.001, well below r_min = 0.01.
    let close = particle(scaled(10.0), 0, 1_000, 0);
    // Separation of exactly r_min.
    let at_rmin = particle(scaled(10.0), 0, 10_000, 0);
    let f_close = pair_force(&p, &close, &cfg);
    let f_at = pair_force(&p, &at_rmin, &cfg);
    // Same scalar, scaled by dx / r_min = 1/10.
    assert_eq!(f_close.0 * 10, f_at.0);
    assert!(f_close.0.abs() <= f_at.0.abs());
    assert_eq!(f_close.1, 0);
    // Moving the pair even closer only shrinks the magnitude further.
    let closer = particle(scaled(10.0), 0, 100, 0);
    let f_closer = pair_force(&p, &closer, &cfg);
    assert!(f_closer.0.abs() <= f_at.0.abs());
}

/// A force component that cannot be represented aborts the computation
/// with `ForceOverflow`, with no partial output.
#[test]
fn force_overflow_reported() {
    let cfg = config(BOUND, 0, 1);
    // Two maximal masses one fixed-point step apart.
    let snap = vec![particle(BOUND, 0, 0, 0), particle(BOUND, 0, 1, 0)];
    assert_eq!(force_on(&snap, 0, &cfg), Err(SimError::ForceOverflow));
    assert_eq!(compute_forces(&snap, &cfg), Err(SimError::ForceOverflow));
}

/// The self-pair is skipped by index: a single particle feels no force,
/// whatever its own state.
#[test]
fn single_particle_no_force() {
    let cfg = config(scaled(10.0), scaled(10.0), scaled(0.01));
    let snap = vec![particle(scaled(10.0), scaled(5.0), scaled(1.0), scaled(2.0))];
    let f = force_on(&snap, 0, &cfg).unwrap();
    assert_eq!((f.x, f.y), (0, 0));
}
