//! The pairwise force law and the all-pairs force computation.
//!
//! For a pair `(p, q)` the displacement is `d = pos(q) - pos(p)`, the
//! distance is clamped from below by the configured minimum `r_min`, and the
//! force contribution of `q` on `p` is `(Fg + Fc) * d / r`, where
//! `Fg = G * m_p * m_q / r^2` and `Fc = -K * c_p * c_q / r^2` (like charges
//! repel).  A pair is skipped by index (`i == j`), never by position, so two
//! distinct coincident particles still interact (their displacement, and
//! hence their mutual force, is zero).
//!
//! The per-particle computations are mutually independent and read only the
//! snapshot; results are correlated by particle index, never by completion
//! order.  A force component that leaves the representable range aborts the
//! whole computation: partial force data is never passed on.

use crate::fixed::{
    abs_int, div_tz, in_bound, is_isqrt, isqrt, lemma_div_tz_bound, lemma_div_tz_neg, max_int,
    BOUND,
};
use crate::particle::{config_ok, particle_ok, particles_ok, Config, Force, Particle, SimError};
use vstd::prelude::*;

verus! {

/// Largest magnitude a single pair contribution can take:
/// `2 * BOUND^3` (gravity and Coulomb terms of `BOUND^3` each).
pub const PAIR_LIMIT: i128 = 16_000_000_000_000_000_000_000_000_000;

/// Largest magnitude a summed force component can take:
/// `BOUND * PAIR_LIMIT`, which still fits an `i128`.
pub const FORCE_SUM_LIMIT: i128 = 32_000_000_000_000_000_000_000_000_000_000_000_000;

/// Squared distance between two particles.
pub open spec fn spec_dist_sq(p: Particle, q: Particle) -> int {
    (q.px - p.px) * (q.px - p.px) + (q.py - p.py) * (q.py - p.py)
}

/// The clamped inter-particle distance: the true distance, but never below
/// the configured minimum (singularity guard).
pub open spec fn spec_r(p: Particle, q: Particle, r_min: int) -> int {
    max_int(isqrt(spec_dist_sq(p, q)), r_min)
}

/// Scalar part of the pair force, evaluated at radius `r`: gravity term
/// minus Coulomb term (the sign convention that makes like charges repel).
pub open spec fn spec_scalar_at(p: Particle, q: Particle, cfg: Config, r: int) -> int {
    div_tz(cfg.gravity * p.m * q.m, r * r) - div_tz(cfg.coulomb * p.c * q.c, r * r)
}

/// Pair force at radius `r`: the scalar part scaled along the displacement
/// direction `d / r`.
pub open spec fn spec_pair_force_at(p: Particle, q: Particle, cfg: Config, r: int) -> (int, int) {
    let s = spec_scalar_at(p, q, cfg, r);
    (div_tz(s * (q.px - p.px), r), div_tz(s * (q.py - p.py), r))
}

/// The force contribution of `q` on `p`.
pub open spec fn spec_pair_force(p: Particle, q: Particle, cfg: Config) -> (int, int) {
    spec_pair_force_at(p, q, cfg, spec_r(p, q, cfg.r_min as int))
}

/// Sum of the contributions of particles `0 .. k` (skipping `i` itself) on
/// particle `i`.
pub open spec fn force_prefix(s: Seq<Particle>, cfg: Config, i: int, k: int) -> (int, int)
    decreases k,
{
    if k <= 0 {
        (0, 0)
    } else {
        let rest = force_prefix(s, cfg, i, k - 1);
        if k - 1 == i {
            rest
        } else {
            let pf = spec_pair_force(s[i], s[k - 1], cfg);
            (rest.0 + pf.0, rest.1 + pf.1)
        }
    }
}

/// The total force on particle `i` of the snapshot: the sum over all other
/// particles, skipped by index.
pub open spec fn spec_force_on(s: Seq<Particle>, cfg: Config, i: int) -> (int, int) {
    force_prefix(s, cfg, i, s.len() as int)
}

pub open spec fn force_in_bound(f: (int, int)) -> bool {
    in_bound(f.0) && in_bound(f.1)
}

/// Every per-particle force of the snapshot fits the representable range;
/// exactly then does the compute phase of a tick succeed.
pub open spec fn all_forces_in_bound(s: Seq<Particle>, cfg: Config) -> bool {
    forall|i: int| 0 <= i < s.len() ==> force_in_bound(#[trigger] spec_force_on(s, cfg, i))
}

/// Newton's third law, exactly: the contribution of `q` on `p` is the exact
/// negation of the contribution of `p` on `q`.  The displacement flips sign,
/// the clamped distance and the scalar part are symmetric in the pair, and
/// rounding toward zero commutes with negation.
pub proof fn lemma_pair_force_antisymmetric(p: Particle, q: Particle, cfg: Config)
    requires
        particle_ok(p),
        particle_ok(q),
        config_ok(cfg),
    ensures
        spec_pair_force(q, p, cfg).0 == -spec_pair_force(p, q, cfg).0,
        spec_pair_force(q, p, cfg).1 == -spec_pair_force(p, q, cfg).1,
{
    let dx = q.px - p.px;
    let dy = q.py - p.py;
    assert(spec_dist_sq(q, p) == spec_dist_sq(p, q)) by (nonlinear_arith);
    let r = spec_r(p, q, cfg.r_min as int);
    assert(spec_r(q, p, cfg.r_min as int) == r);
    assert(cfg.gravity * q.m * p.m == cfg.gravity * p.m * q.m) by (nonlinear_arith);
    assert(cfg.coulomb * q.c * p.c == cfg.coulomb * p.c * q.c) by (nonlinear_arith);
    let s = spec_scalar_at(p, q, cfg, r);
    assert(spec_scalar_at(q, p, cfg, r) == s);
    assert(s * (p.px - q.px) == -(s * dx)) by (nonlinear_arith)
        requires
            dx == q.px - p.px,
    ;
    assert(s * (p.py - q.py) == -(s * dy)) by (nonlinear_arith)
        requires
            dy == q.py - p.py,
    ;
    assert(r >= 1);
    lemma_div_tz_neg(s * dx, r);
    lemma_div_tz_neg(s * dy, r);
}

/// The distance clamp: for a pair whose true distance is below `r_min`, the
/// force is exactly the force evaluated at radius `r_min`, and each of its
/// components never exceeds the scalar magnitude at `r_min` (the displacement
/// is shorter than the radius it is divided by).
pub proof fn lemma_threshold_clamp(p: Particle, q: Particle, cfg: Config)
    requires
        particle_ok(p),
        particle_ok(q),
        config_ok(cfg),
        spec_dist_sq(p, q) < cfg.r_min * cfg.r_min,
    ensures
        spec_pair_force(p, q, cfg) == spec_pair_force_at(p, q, cfg, cfg.r_min as int),
        abs_int(spec_pair_force(p, q, cfg).0) <= abs_int(
            spec_scalar_at(p, q, cfg, cfg.r_min as int),
        ),
        abs_int(spec_pair_force(p, q, cfg).1) <= abs_int(
            spec_scalar_at(p, q, cfg, cfg.r_min as int),
        ),
{
    let dx = q.px - p.px;
    let dy = q.py - p.py;
    let dsq = spec_dist_sq(p, q);
    let rm = cfg.r_min as int;
    assert(dx * dx >= 0 && dy * dy >= 0) by (nonlinear_arith);
    crate::fixed::lemma_isqrt_exists(dsq);
    let r0 = isqrt(dsq);
    assert(r0 < rm) by (nonlinear_arith)
        requires
            0 <= r0,
            1 <= rm,
            r0 * r0 <= dsq,
            dsq < rm * rm,
    ;
    assert(spec_r(p, q, rm) == rm);
    let s = spec_scalar_at(p, q, cfg, rm);
    assert(abs_int(dx) <= rm && abs_int(dy) <= rm) by (nonlinear_arith)
        requires
            dx * dx + dy * dy < rm * rm,
            dx * dx >= 0,
            dy * dy >= 0,
            1 <= rm,
    ;
    assert(abs_int(s * dx) <= rm * abs_int(s) && abs_int(s * dy) <= rm * abs_int(s))
        by (nonlinear_arith)
        requires
            abs_int(dx) <= rm,
            abs_int(dy) <= rm,
            1 <= rm,
    ;
    lemma_div_tz_bound(s * dx, rm, abs_int(s));
    lemma_div_tz_bound(s * dy, rm, abs_int(s));
}

/// Purity of the force computation: any two force tables that both satisfy
/// the force contract for the same snapshot are identical, element for
/// element and bit for bit.
pub proof fn lemma_force_computation_pure(
    s: Seq<Particle>,
    cfg: Config,
    f1: Seq<Force>,
    f2: Seq<Force>,
)
    requires
        f1.len() == s.len(),
        f2.len() == s.len(),
        forall|i: int|
            0 <= i < s.len() ==> (#[trigger] f1[i]).x as int == spec_force_on(s, cfg, i).0
                && f1[i].y as int == spec_force_on(s, cfg, i).1,
        forall|i: int|
            0 <= i < s.len() ==> (#[trigger] f2[i]).x as int == spec_force_on(s, cfg, i).0
                && f2[i].y as int == spec_force_on(s, cfg, i).1,
    ensures
        f1 == f2,
{
    assert forall|i: int| 0 <= i < s.len() implies f1[i] == f2[i] by {
        assert(f1[i].x as int == f2[i].x as int);
        assert(f1[i].y as int == f2[i].y as int);
    }
    assert(f1 =~= f2);
}

/// The contribution of `q` on `p`, computed exactly as the spec states it.
/// The result always fits `PAIR_LIMIT`, so contributions can be summed in
/// 128 bits without overflow.
pub fn pair_force(p: &Particle, q: &Particle, cfg: &Config) -> (f: (i128, i128))
    requires
        particle_ok(*p),
        particle_ok(*q),
        config_ok(*cfg),
    ensures
        f.0 as int == spec_pair_force(*p, *q, *cfg).0,
        f.1 as int == spec_pair_force(*p, *q, *cfg).1,
        abs_int(f.0 as int) <= PAIR_LIMIT as int,
        abs_int(f.1 as int) <= PAIR_LIMIT as int,
{
    let dx: i64 = q.px - p.px;
    let dy: i64 = q.py - p.py;
    let dx128: i128 = dx as i128;
    let dy128: i128 = dy as i128;
    proof {
        assert(dx128 as int * dx128 as int + dy128 as int * dy128 as int
            <= 32_000_000_000_000_000_000) by (nonlinear_arith)
            requires
                abs_int(dx128 as int) <= 4_000_000_000,
                abs_int(dy128 as int) <= 4_000_000_000,
        ;
        assert(dx128 as int * dx128 as int >= 0) by (nonlinear_arith);
        assert(dy128 as int * dy128 as int >= 0) by (nonlinear_arith);
    }
    let dsq: u128 = (dx128 * dx128 + dy128 * dy128) as u128;
    let r0: u64 = crate::fixed::isqrt_u128(dsq);
    proof {
        assert(r0 as int <= 5_700_000_000) by (nonlinear_arith)
            requires
                0 <= r0 as int,
                r0 as int * r0 as int <= 32_000_000_000_000_000_000,
        ;
    }
    let rc: u64 = if r0 < cfg.r_min as u64 {
        cfg.r_min as u64
    } else {
        r0
    };
    let ghost r = spec_r(*p, *q, cfg.r_min as int);
    proof {
        assert(rc as int == r);
        assert(1 <= rc as int <= 5_700_000_000);
        assert(rc as int * rc as int <= 32_490_000_000_000_000_000) by (nonlinear_arith)
            requires
                0 <= rc as int <= 5_700_000_000,
        ;
        assert(rc as int * rc as int >= 1) by (nonlinear_arith)
            requires
                1 <= rc as int,
        ;
    }
    let r2: u128 = (rc as u128) * (rc as u128);
    // Gravity term: all factors nonnegative.
    proof {
        assert(0 <= cfg.gravity as int * p.m as int <= 4_000_000_000_000_000_000)
            by (nonlinear_arith)
            requires
                0 <= cfg.gravity as int <= 2_000_000_000,
                0 <= p.m as int <= 2_000_000_000,
        ;
        assert(cfg.gravity as int * p.m as int * q.m as int
            <= 8_000_000_000_000_000_000_000_000_000
            && cfg.gravity as int * p.m as int * q.m as int >= 0) by (nonlinear_arith)
            requires
                0 <= cfg.gravity as int * p.m as int <= 4_000_000_000_000_000_000,
                0 <= q.m as int <= 2_000_000_000,
        ;
    }
    let numg: u128 = (cfg.gravity as u128) * (p.m as u128) * (q.m as u128);
    let fg: u128 = numg / r2;
    proof {
        vstd::arithmetic::div_mod::lemma_div_pos_is_pos(numg as int, r2 as int);
        vstd::arithmetic::div_mod::lemma_div_nonincreasing(numg as int, r2 as int);
        assert(fg as int == div_tz(cfg.gravity as int * p.m as int * q.m as int, r * r));
    }
    // Coulomb term: the charge product carries a sign.
    proof {
        assert(abs_int(p.c as int * q.c as int) <= 4_000_000_000_000_000_000)
            by (nonlinear_arith)
            requires
                abs_int(p.c as int) <= 2_000_000_000,
                abs_int(q.c as int) <= 2_000_000_000,
        ;
    }
    let qprod: i128 = (p.c as i128) * (q.c as i128);
    proof {
        assert(abs_int(cfg.coulomb as int * qprod as int)
            <= 8_000_000_000_000_000_000_000_000_000) by (nonlinear_arith)
            requires
                0 <= cfg.coulomb as int <= 2_000_000_000,
                abs_int(qprod as int) <= 4_000_000_000_000_000_000,
        ;
    }
    let kq: i128 = (cfg.coulomb as i128) * qprod;
    let fc: i128 = crate::fixed::div_tz_i128(kq, r2 as i128);
    let scalar: i128 = (fg as i128) - fc;
    let ghost s = spec_scalar_at(*p, *q, *cfg, r);
    proof {
        assert(cfg.coulomb as int * qprod as int == cfg.coulomb as int * p.c as int * q.c as int)
            by (nonlinear_arith)
            requires
                qprod as int == p.c as int * q.c as int,
        ;
        assert(scalar as int == s);
        assert(abs_int(scalar as int) <= PAIR_LIMIT as int);
    }
    // Displacement components never exceed the clamped radius, so dividing
    // the scaled scalar by it keeps the contribution within PAIR_LIMIT.
    proof {
        assert(abs_int(dx as int) <= r0 as int && abs_int(dy as int) <= r0 as int)
            by (nonlinear_arith)
            requires
                is_isqrt(
                    dx as int * dx as int + dy as int * dy as int,
                    r0 as int,
                ),
        ;
        assert(abs_int(scalar as int * dx128 as int) <= PAIR_LIMIT as int * rc as int
            && abs_int(scalar as int * dy128 as int) <= PAIR_LIMIT as int * rc as int)
            by (nonlinear_arith)
            requires
                abs_int(scalar as int) <= PAIR_LIMIT as int,
                abs_int(dx128 as int) <= rc as int,
                abs_int(dy128 as int) <= rc as int,
        ;
        assert(PAIR_LIMIT as int * rc as int
            <= 16_000_000_000_000_000_000_000_000_000 * 5_700_000_000) by (nonlinear_arith)
            requires
                0 <= rc as int <= 5_700_000_000,
        ;
        lemma_div_tz_bound(scalar as int * dx128 as int, rc as int, PAIR_LIMIT as int);
        lemma_div_tz_bound(scalar as int * dy128 as int, rc as int, PAIR_LIMIT as int);
    }
    let fx: i128 = crate::fixed::div_tz_i128(scalar * dx128, rc as i128);
    let fy: i128 = crate::fixed::div_tz_i128(scalar * dy128, rc as i128);
    (fx, fy)
}

/// The total force on particle `i` of the snapshot, summed over all other
/// particles in index order.  Fails, without partial output, exactly when a
/// summed component leaves the representable range.
pub fn force_on(snap: &Vec<Particle>, i: usize, cfg: &Config) -> (r: Result<Force, SimError>)
    requires
        particles_ok(snap@),
        config_ok(*cfg),
        i < snap@.len(),
        snap@.len() <= BOUND as int,
    ensures
        match r {
            Ok(f) => {
                &&& force_in_bound(spec_force_on(snap@, *cfg, i as int))
                &&& f.x as int == spec_force_on(snap@, *cfg, i as int).0
                &&& f.y as int == spec_force_on(snap@, *cfg, i as int).1
            },
            Err(e) => {
                &&& e == SimError::ForceOverflow
                &&& !force_in_bound(spec_force_on(snap@, *cfg, i as int))
            },
        },
{
    let n = snap.len();
    let mut sfx: i128 = 0;
    let mut sfy: i128 = 0;
    let mut j: usize = 0;
    while j < n
        invariant
            particles_ok(snap@),
            config_ok(*cfg),
            i < n,
            n == snap@.len(),
            n <= BOUND as int,
            j <= n,
            sfx as int == force_prefix(snap@, *cfg, i as int, j as int).0,
            sfy as int == force_prefix(snap@, *cfg, i as int, j as int).1,
            abs_int(sfx as int) <= j as int * (PAIR_LIMIT as int),
            abs_int(sfy as int) <= j as int * (PAIR_LIMIT as int),
        decreases n - j,
    {
        if j != i {
            let f = pair_force(&snap[i], &snap[j], cfg);
            proof {
                assert((j + 1) as int * (PAIR_LIMIT as int)
                    == j as int * (PAIR_LIMIT as int) + PAIR_LIMIT as int);
                assert((j + 1) as int * (PAIR_LIMIT as int)
                    <= (BOUND as int) * (PAIR_LIMIT as int)) by (nonlinear_arith)
                    requires
                        (j + 1) as int <= BOUND as int,
                        PAIR_LIMIT as int > 0,
                ;
                assert((BOUND as int) * (PAIR_LIMIT as int) == FORCE_SUM_LIMIT as int);
            }
            sfx = sfx + f.0;
            sfy = sfy + f.1;
        } else {
            proof {
                assert((j + 1) as int * (PAIR_LIMIT as int)
                    == j as int * (PAIR_LIMIT as int) + PAIR_LIMIT as int);
            }
        }
        j = j + 1;
    }
    if sfx > BOUND as i128 || sfx < -(BOUND as i128) || sfy > BOUND as i128 || sfy < -(BOUND
        as i128) {
        Err(SimError::ForceOverflow)
    } else {
        Ok(Force { x: sfx as i64, y: sfy as i64 })
    }
}

/// One force vector per particle, index-aligned with the snapshot.  All
/// per-particle computations must succeed; a single failure aborts the whole
/// phase with no partial result.
pub fn compute_forces(snap: &Vec<Particle>, cfg: &Config) -> (r: Result<Vec<Force>, SimError>)
    requires
        particles_ok(snap@),
        config_ok(*cfg),
        snap@.len() <= BOUND as int,
    ensures
        match r {
            Ok(v) => {
                &&& all_forces_in_bound(snap@, *cfg)
                &&& v@.len() == snap@.len()
                &&& forall|i: int|
                    0 <= i < snap@.len() ==> (#[trigger] v@[i]).x as int == spec_force_on(
                        snap@,
                        *cfg,
                        i,
                    ).0 && v@[i].y as int == spec_force_on(snap@, *cfg, i).1
            },
            Err(e) => {
                &&& e == SimError::ForceOverflow
                &&& !all_forces_in_bound(snap@, *cfg)
            },
        },
{
    let n = snap.len();
    let mut out: Vec<Force> = Vec::new();
    let mut i: usize = 0;
    while i < n
        invariant
            particles_ok(snap@),
            config_ok(*cfg),
            n == snap@.len(),
            n <= BOUND as int,
            i <= n,
            out@.len() == i as int,
            forall|k: int|
                0 <= k < i as int ==> force_in_bound(#[trigger] spec_force_on(snap@, *cfg, k)),
            forall|k: int|
                0 <= k < i as int ==> (#[trigger] out@[k]).x as int == spec_force_on(
                    snap@,
                    *cfg,
                    k,
                ).0 && out@[k].y as int == spec_force_on(snap@, *cfg, k).1,
        decreases n - i,
    {
        match force_on(snap, i, cfg) {
            Ok(f) => {
                out.push(f);
            },
            Err(e) => {
                return Err(e);
            },
        }
        i = i + 1;
    }
    Ok(out)
}

} // verus!
