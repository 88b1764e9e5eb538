//! The data model: particles, force vectors, the simulation configuration
//! and the error taxonomy, together with their well-formedness predicates.

use crate::fixed::{fmul, in_bound, BOUND, SCALE};
use vstd::prelude::*;

verus! {

/// One point particle.  All fields are fixed-point multiples of `1 / SCALE`
/// simulation units.  `fx`, `fy`, `ax` and `ay` hold only the force and
/// acceleration of the current tick; they are recomputed from scratch each
/// tick and never accumulated across ticks.
#[derive(Clone, Copy, Debug, PartialEq, Eq, Structural)]
pub struct Particle {
    /// Mass; always positive.
    pub m: i64,
    /// Charge per mass unit.
    pub c: i64,
    /// Position.
    pub px: i64,
    pub py: i64,
    /// Velocity.
    pub vx: i64,
    pub vy: i64,
    /// Acceleration of the current tick.
    pub ax: i64,
    pub ay: i64,
    /// Force of the current tick.
    pub fx: i64,
    pub fy: i64,
}

/// A force vector, index-aligned with the snapshot it was computed from.
#[derive(Clone, Copy, Debug, PartialEq, Eq, Structural)]
pub struct Force {
    pub x: i64,
    pub y: i64,
}

/// Why a tick was aborted.  A failed force or integration step is fatal to
/// the whole tick: partial results are never fed back into the population.
#[derive(Clone, Copy, Debug, PartialEq, Eq, Structural)]
pub enum SimError {
    /// A summed force component left the representable range.
    ForceOverflow,
    /// An integrated acceleration, velocity or position left the
    /// representable range.
    IntegrationOverflow,
}

/// Where and how new particles enter the system.  Profiles come in mirrored
/// pairs (opposite charge and velocity) so the population trends toward
/// balance; each profile emits one particle per emission event.
#[derive(Clone, Copy, Debug, PartialEq, Eq, Structural)]
pub struct EmissionProfile {
    /// Spawn coordinates; the actual position is jittered by a random
    /// offset in `[0, jitter]` on each axis.
    pub x: i64,
    pub y: i64,
    /// Bound on the random spawn offset.
    pub jitter: i64,
    /// Initial velocity.
    pub vx: i64,
    pub vy: i64,
    /// Mass; always positive.
    pub m: i64,
    /// Charge.
    pub c: i64,
}

/// The simulation configuration.
#[derive(Clone, Debug)]
pub struct Config {
    /// Integration timestep.
    pub dt: i64,
    /// Gravitational constant.
    pub gravity: i64,
    /// Coulomb constant; like charges repel.
    pub coulomb: i64,
    /// Minimum inter-particle distance: any pair closer than this is
    /// evaluated as if separated by `r_min` (singularity guard).
    pub r_min: i64,
    /// Velocity damping coefficient; each tick multiplies velocities by
    /// `1 - damping * dt` (in fixed-point form, `SCALE - fmul(damping, dt)`).
    pub damping: i64,
    /// The population never exceeds this many particles.
    pub capacity: usize,
    /// Emit on every tick whose index is a multiple of this cadence.
    pub cadence: u64,
    /// Emission profiles, applied in order on each emission event.
    pub profiles: Vec<EmissionProfile>,
}

pub open spec fn particle_ok(p: Particle) -> bool {
    &&& 1 <= p.m <= BOUND
    &&& in_bound(p.c as int)
    &&& in_bound(p.px as int)
    &&& in_bound(p.py as int)
    &&& in_bound(p.vx as int)
    &&& in_bound(p.vy as int)
    &&& in_bound(p.ax as int)
    &&& in_bound(p.ay as int)
    &&& in_bound(p.fx as int)
    &&& in_bound(p.fy as int)
}

pub open spec fn particles_ok(s: Seq<Particle>) -> bool {
    forall|i: int| 0 <= i < s.len() ==> particle_ok(#[trigger] s[i])
}

pub open spec fn profile_ok(pr: EmissionProfile) -> bool {
    &&& 1 <= pr.m <= BOUND
    &&& in_bound(pr.c as int)
    &&& 0 <= pr.jitter
    &&& in_bound(pr.x as int)
    &&& in_bound(pr.x + pr.jitter)
    &&& in_bound(pr.y as int)
    &&& in_bound(pr.y + pr.jitter)
    &&& in_bound(pr.vx as int)
    &&& in_bound(pr.vy as int)
}

pub open spec fn config_ok(cfg: Config) -> bool {
    &&& 1 <= cfg.dt <= BOUND
    &&& 0 <= cfg.gravity <= BOUND
    &&& 0 <= cfg.coulomb <= BOUND
    &&& 1 <= cfg.r_min <= BOUND
    &&& 0 <= cfg.damping <= BOUND
    &&& fmul(cfg.damping as int, cfg.dt as int) <= SCALE
    &&& cfg.capacity <= BOUND
    &&& 1 <= cfg.cadence
    &&& forall|i: int|
        0 <= i < cfg.profiles@.len() ==> profile_ok(#[trigger] cfg.profiles@[i])
}

/// The particle a profile emits when the random spawn offsets came out as
/// `jx` and `jy`: force and acceleration start at zero, velocity and charge
/// are the profile's, the position is the jittered spawn point.
pub open spec fn emitted(pr: EmissionProfile, jx: int, jy: int) -> Particle {
    Particle {
        m: pr.m,
        c: pr.c,
        px: (pr.x + jx) as i64,
        py: (pr.y + jy) as i64,
        vx: pr.vx,
        vy: pr.vy,
        ax: 0,
        ay: 0,
        fx: 0,
        fy: 0,
    }
}

/// What is known of a freshly emitted particle: it is the profile's particle
/// for some spawn offsets within the jitter bound.
pub open spec fn matches_profile(p: Particle, pr: EmissionProfile) -> bool {
    exists|jx: int, jy: int|
        0 <= jx <= pr.jitter && 0 <= jy <= pr.jitter && p == emitted(pr, jx, jy)
}

/// An emitted particle of a well-formed profile is itself well formed.
pub proof fn lemma_emitted_ok(pr: EmissionProfile, jx: int, jy: int)
    requires
        profile_ok(pr),
        0 <= jx <= pr.jitter,
        0 <= jy <= pr.jitter,
    ensures
        particle_ok(emitted(pr, jx, jy)),
{
}

} // verus!
