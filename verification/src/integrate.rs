//! The integration step: from a particle's prior state and its force of the
//! current tick to its next kinematic state.
//!
//! Per particle `i` (a pure function of particle `i`'s own prior state and
//! `force(i)` alone, so the results are independent of evaluation order):
//!
//! ```text
//! acceleration = force / mass
//! velocity     = (velocity + acceleration * dt) * drag
//! position     = position + velocity * dt
//! ```
//!
//! where `drag = 1 - damping * dt` in fixed-point form.  A value that leaves
//! the representable range aborts the whole tick; a default is never
//! substituted.

use crate::fixed::{abs_int, div_tz, fmul, in_bound, lemma_div_tz_sign, BOUND, SCALE};
use crate::particle::{config_ok, particle_ok, particles_ok, Config, Force, Particle, SimError};
use vstd::arithmetic::mul::lemma_mul_nonnegative;
use vstd::prelude::*;

verus! {

/// The velocity decay factor of one tick, `1 - damping * dt`, as a
/// fixed-point fraction of `SCALE`.  A zero damping disables drag exactly.
pub open spec fn spec_drag(cfg: Config) -> int {
    SCALE - fmul(cfg.damping as int, cfg.dt as int)
}

/// New acceleration component: `force / mass`, rescaled.
pub open spec fn spec_acc(f: int, m: int) -> int {
    div_tz(f * SCALE, m)
}

/// New velocity component: the old one plus `acceleration * dt`, decayed by
/// the drag factor.
pub open spec fn spec_vel(v: int, a: int, cfg: Config) -> int {
    fmul(v + fmul(a, cfg.dt as int), spec_drag(cfg))
}

/// New position component: the old one plus `velocity * dt` of the new
/// velocity.
pub open spec fn spec_pos(x: int, vnew: int, cfg: Config) -> int {
    x + fmul(vnew, cfg.dt as int)
}

/// Whether every integrated value of this particle stays representable;
/// exactly then does its integration step succeed.
pub open spec fn step_ok(p: Particle, fx: int, fy: int, cfg: Config) -> bool {
    let ax = spec_acc(fx, p.m as int);
    let ay = spec_acc(fy, p.m as int);
    let vx = spec_vel(p.vx as int, ax, cfg);
    let vy = spec_vel(p.vy as int, ay, cfg);
    &&& in_bound(ax)
    &&& in_bound(ay)
    &&& in_bound(vx)
    &&& in_bound(vy)
    &&& in_bound(spec_pos(p.px as int, vx, cfg))
    &&& in_bound(spec_pos(p.py as int, vy, cfg))
}

/// The post-tick state of one particle: mass and charge carried over,
/// force and acceleration replaced by the current tick's values, velocity
/// and position advanced.
pub open spec fn spec_stepped(p: Particle, fx: int, fy: int, cfg: Config) -> Particle
    recommends
        step_ok(p, fx, fy, cfg),
{
    let ax = spec_acc(fx, p.m as int);
    let ay = spec_acc(fy, p.m as int);
    let vx = spec_vel(p.vx as int, ax, cfg);
    let vy = spec_vel(p.vy as int, ay, cfg);
    Particle {
        m: p.m,
        c: p.c,
        px: spec_pos(p.px as int, vx, cfg) as i64,
        py: spec_pos(p.py as int, vy, cfg) as i64,
        vx: vx as i64,
        vy: vy as i64,
        ax: ax as i64,
        ay: ay as i64,
        fx: fx as i64,
        fy: fy as i64,
    }
}

/// Every particle's integration step stays representable.
pub open spec fn all_steps_ok(s: Seq<Particle>, f: Seq<Force>, cfg: Config) -> bool {
    forall|i: int|
        0 <= i < s.len() ==> step_ok(#[trigger] s[i], f[i].x as int, f[i].y as int, cfg)
}

/// The drag factor, computed in executable form.
fn drag_factor(cfg: &Config) -> (d: i128)
    requires
        config_ok(*cfg),
    ensures
        d as int == spec_drag(*cfg),
        0 <= d as int <= SCALE as int,
{
    proof {
        lemma_mul_nonnegative(cfg.damping as int, cfg.dt as int);
        lemma_div_tz_sign(cfg.damping as int * cfg.dt as int, SCALE as int);
    }
    let decay: i128 = crate::fixed::fmul_i128(cfg.damping as i128, cfg.dt as i128);
    (SCALE as i128) - decay
}

/// One particle's integration step.  Returns the advanced particle, or
/// fails exactly when an integrated value leaves the representable range.
pub fn step_particle(p: &Particle, f: &Force, cfg: &Config) -> (r: Result<Particle, SimError>)
    requires
        particle_ok(*p),
        config_ok(*cfg),
        in_bound(f.x as int),
        in_bound(f.y as int),
    ensures
        match r {
            Ok(q) => {
                &&& step_ok(*p, f.x as int, f.y as int, *cfg)
                &&& q == spec_stepped(*p, f.x as int, f.y as int, *cfg)
                &&& particle_ok(q)
            },
            Err(e) => {
                &&& e == SimError::IntegrationOverflow
                &&& !step_ok(*p, f.x as int, f.y as int, *cfg)
            },
        },
{
    let drag: i128 = drag_factor(cfg);
    proof {
        assert(abs_int(f.x as int * (SCALE as int)) <= 2_000_000_000_000_000
            && abs_int(f.y as int * (SCALE as int)) <= 2_000_000_000_000_000)
            by (nonlinear_arith)
            requires
                abs_int(f.x as int) <= 2_000_000_000,
                abs_int(f.y as int) <= 2_000_000_000,
        ;
    }
    // acceleration = force / mass
    let ax: i128 = crate::fixed::div_tz_i128((f.x as i128) * (SCALE as i128), p.m as i128);
    let ay: i128 = crate::fixed::div_tz_i128((f.y as i128) * (SCALE as i128), p.m as i128);
    if ax > BOUND as i128 || ax < -(BOUND as i128) || ay > BOUND as i128 || ay < -(BOUND
        as i128) {
        return Err(SimError::IntegrationOverflow);
    }
    // velocity = (velocity + acceleration * dt) * drag
    let adx: i128 = crate::fixed::fmul_i128(ax, cfg.dt as i128);
    let ady: i128 = crate::fixed::fmul_i128(ay, cfg.dt as i128);
    proof {
        assert(abs_int(adx as int) <= 4_000_000_000_000_000_000 && abs_int(ady as int)
            <= 4_000_000_000_000_000_000) by (nonlinear_arith)
            requires
                abs_int(adx as int) <= abs_int(ax as int) * abs_int(cfg.dt as int),
                abs_int(ady as int) <= abs_int(ay as int) * abs_int(cfg.dt as int),
                abs_int(ax as int) <= 2_000_000_000,
                abs_int(ay as int) <= 2_000_000_000,
                abs_int(cfg.dt as int) <= 2_000_000_000,
        ;
    }
    let vx: i128 = crate::fixed::fmul_i128((p.vx as i128) + adx, drag);
    let vy: i128 = crate::fixed::fmul_i128((p.vy as i128) + ady, drag);
    if vx > BOUND as i128 || vx < -(BOUND as i128) || vy > BOUND as i128 || vy < -(BOUND
        as i128) {
        return Err(SimError::IntegrationOverflow);
    }
    // position = position + velocity * dt
    let vdx: i128 = crate::fixed::fmul_i128(vx, cfg.dt as i128);
    let vdy: i128 = crate::fixed::fmul_i128(vy, cfg.dt as i128);
    proof {
        assert(abs_int(vdx as int) <= 4_000_000_000_000_000_000 && abs_int(vdy as int)
            <= 4_000_000_000_000_000_000) by (nonlinear_arith)
            requires
                abs_int(vdx as int) <= abs_int(vx as int) * abs_int(cfg.dt as int),
                abs_int(vdy as int) <= abs_int(vy as int) * abs_int(cfg.dt as int),
                abs_int(vx as int) <= 2_000_000_000,
                abs_int(vy as int) <= 2_000_000_000,
                abs_int(cfg.dt as int) <= 2_000_000_000,
        ;
    }
    let px: i128 = (p.px as i128) + vdx;
    let py: i128 = (p.py as i128) + vdy;
    if px > BOUND as i128 || px < -(BOUND as i128) || py > BOUND as i128 || py < -(BOUND
        as i128) {
        return Err(SimError::IntegrationOverflow);
    }
    Ok(
        Particle {
            m: p.m,
            c: p.c,
            px: px as i64,
            py: py as i64,
            vx: vx as i64,
            vy: vy as i64,
            ax: ax as i64,
            ay: ay as i64,
            fx: f.x,
            fy: f.y,
        },
    )
}

/// The integration phase of one tick: advances every particle against its
/// index-aligned force.  All per-particle steps must stay representable; a
/// single failure aborts the phase with no partial output.
pub fn step_all(particles: &Vec<Particle>, forces: &Vec<Force>, cfg: &Config) -> (r: Result<
    Vec<Particle>,
    SimError,
>)
    requires
        particles_ok(particles@),
        config_ok(*cfg),
        forces@.len() == particles@.len(),
        forall|i: int|
            0 <= i < forces@.len() ==> in_bound((#[trigger] forces@[i]).x as int) && in_bound(
                forces@[i].y as int,
            ),
    ensures
        match r {
            Ok(v) => {
                &&& all_steps_ok(particles@, forces@, *cfg)
                &&& v@.len() == particles@.len()
                &&& forall|i: int|
                    0 <= i < particles@.len() ==> #[trigger] v@[i] == spec_stepped(
                        particles@[i],
                        forces@[i].x as int,
                        forces@[i].y as int,
                        *cfg,
                    )
                &&& particles_ok(v@)
            },
            Err(e) => {
                &&& e == SimError::IntegrationOverflow
                &&& !all_steps_ok(particles@, forces@, *cfg)
            },
        },
{
    let n = particles.len();
    let mut out: Vec<Particle> = Vec::new();
    let mut i: usize = 0;
    while i < n
        invariant
            particles_ok(particles@),
            config_ok(*cfg),
            n == particles@.len(),
            forces@.len() == n,
            forall|k: int|
                0 <= k < n ==> in_bound((#[trigger] forces@[k]).x as int) && in_bound(
                    forces@[k].y as int,
                ),
            i <= n,
            out@.len() == i as int,
            forall|k: int|
                0 <= k < i as int ==> step_ok(
                    #[trigger] particles@[k],
                    forces@[k].x as int,
                    forces@[k].y as int,
                    *cfg,
                ),
            forall|k: int|
                0 <= k < i as int ==> #[trigger] out@[k] == spec_stepped(
                    particles@[k],
                    forces@[k].x as int,
                    forces@[k].y as int,
                    *cfg,
                ),
            forall|k: int| 0 <= k < i as int ==> particle_ok(#[trigger] out@[k]),
        decreases n - i,
    {
        match step_particle(&particles[i], &forces[i], cfg) {
            Ok(q) => {
                out.push(q);
            },
            Err(e) => {
                return Err(e);
            },
        }
        i = i + 1;
    }
    Ok(out)
}

} // verus!
