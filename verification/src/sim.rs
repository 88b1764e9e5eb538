//! The simulation loop: snapshot, force computation, integration, emission,
//! tick counter, and the read-only view handed to a renderer.
//!
//! One tick runs snapshot -> compute -> integrate -> emit -> advance
//! counter.  Forces of tick `T` always observe positions as of the start of
//! `T`: the compute phase reads only the snapshot, and the live population
//! is replaced wholesale after the integration phase has fully resolved.  A
//! failed force or integration step aborts the tick with the population and
//! the counter unchanged; partial data is never kept.

use crate::emission::emit;
use crate::fixed::{in_bound, min_int};
use crate::forces::{all_forces_in_bound, compute_forces, spec_force_on};
use crate::integrate::{all_steps_ok, spec_stepped, step_all, step_ok};
use crate::particle::{
    config_ok, matches_profile, particles_ok, Config, Force, Particle, SimError,
};
use vstd::prelude::*;

verus! {

/// The live simulation state.  The population is mutated only between
/// ticks, by the integration and emission phases; the compute phase reads a
/// snapshot.
pub struct Simulation {
    pub particles: Vec<Particle>,
    pub config: Config,
    pub ticks: u64,
    pub rng: rand::rngs::StdRng,
}

/// The population advanced by one integration phase against the given
/// index-aligned force table.
pub open spec fn stepped_with(s: Seq<Particle>, f: Seq<Force>, cfg: Config) -> Seq<Particle> {
    Seq::new(s.len(), |i: int| spec_stepped(s[i], f[i].x as int, f[i].y as int, cfg))
}

/// The population advanced by one full force-and-integration phase.
pub open spec fn spec_ticked(s: Seq<Particle>, cfg: Config) -> Seq<Particle> {
    Seq::new(
        s.len(),
        |i: int|
            spec_stepped(s[i], spec_force_on(s, cfg, i).0, spec_force_on(s, cfg, i).1, cfg),
    )
}

/// Whether a full tick of this population stays representable; exactly then
/// does `tick` succeed.
pub open spec fn tick_ok(s: Seq<Particle>, cfg: Config) -> bool {
    &&& all_forces_in_bound(s, cfg)
    &&& forall|i: int|
        0 <= i < s.len() ==> step_ok(
            s[i],
            (#[trigger] spec_force_on(s, cfg, i)).0,
            spec_force_on(s, cfg, i).1,
            cfg,
        )
}

/// Whether the tick with counter value `t` is an emission tick.
pub open spec fn emits_at(cfg: Config, t: u64) -> bool {
    t as int % cfg.cadence as int == 0
}

impl Simulation {
    /// Well-formedness: the configuration is valid, every particle is, and
    /// the population respects the capacity.
    pub open spec fn wf(self) -> bool {
        &&& config_ok(self.config)
        &&& particles_ok(self.particles@)
        &&& self.particles@.len() <= self.config.capacity
    }

    /// A fresh simulation: empty population, tick counter at zero, one
    /// explicitly seeded random generator for the emission controller.
    pub fn new(config: Config, seed: u64) -> (s: Simulation)
        requires
            config_ok(config),
        ensures
            s.wf(),
            s.particles@.len() == 0,
            s.config == config,
            s.ticks == 0,
    {
        Simulation {
            particles: Vec::new(),
            config,
            ticks: 0,
            rng: crate::rng::rng_from_seed(seed),
        }
    }

    /// The snapshot provider: an independently owned copy of the population,
    /// safe for concurrent reads, with no reference back to the live state.
    pub fn snapshot(&self) -> (s: Vec<Particle>)
        ensures
            s@ == self.particles@,
    {
        let n = self.particles.len();
        let mut out: Vec<Particle> = Vec::new();
        let mut i: usize = 0;
        while i < n
            invariant
                i <= n,
                n == self.particles@.len(),
                out@.len() == i as int,
                forall|k: int| 0 <= k < i as int ==> #[trigger] out@[k] == self.particles@[k],
            decreases n - i,
        {
            out.push(self.particles[i]);
            i = i + 1;
        }
        proof {
            assert(out@ =~= self.particles@);
        }
        out
    }

    /// The integrate-and-emit phase of one tick, applied to an
    /// index-aligned force table computed elsewhere (the join of the force
    /// phase must already have resolved).  On failure the simulation is
    /// unchanged.
    pub fn step_with_forces(&mut self, forces: &Vec<Force>) -> (r: Result<(), SimError>)
        requires
            old(self).wf(),
            old(self).ticks < u64::MAX,
            forces@.len() == old(self).particles@.len(),
            forall|i: int|
                0 <= i < forces@.len() ==> in_bound((#[trigger] forces@[i]).x as int)
                    && in_bound(forces@[i].y as int),
        ensures
            final(self).config == old(self).config,
            final(self).wf(),
            final(self).particles@.len() <= final(self).config.capacity,
            match r {
                Ok(()) => {
                    let stepped = stepped_with(old(self).particles@, forces@, old(self).config);
                    let n0 = old(self).particles@.len() as int;
                    &&& all_steps_ok(old(self).particles@, forces@, old(self).config)
                    &&& final(self).ticks == old(self).ticks + 1
                    &&& forall|i: int|
                        0 <= i < n0 ==> #[trigger] final(self).particles@[i] == stepped[i]
                    &&& if emits_at(old(self).config, old(self).ticks) {
                        &&& final(self).particles@.len() == min_int(
                            old(self).config.capacity as int,
                            n0 + old(self).config.profiles@.len() as int,
                        )
                        &&& forall|i: int|
                            n0 <= i < final(self).particles@.len() ==> matches_profile(
                                #[trigger] final(self).particles@[i],
                                old(self).config.profiles@[i - n0],
                            )
                    } else {
                        final(self).particles@.len() == n0
                    }
                },
                Err(e) => {
                    &&& e == SimError::IntegrationOverflow
                    &&& !all_steps_ok(old(self).particles@, forces@, old(self).config)
                    &&& final(self).particles@ == old(self).particles@
                    &&& final(self).ticks == old(self).ticks
                },
            },
    {
        let stepped = match step_all(&self.particles, forces, &self.config) {
            Ok(v) => v,
            Err(e) => {
                return Err(e);
            },
        };
        self.particles = stepped;
        proof {
            assert(self.particles@ =~= stepped_with(
                old(self).particles@,
                forces@,
                old(self).config,
            ));
        }
        if self.ticks % self.config.cadence == 0 {
            emit(&mut self.particles, &mut self.rng, &self.config);
        }
        self.ticks = self.ticks + 1;
        Ok(())
    }

    /// One full tick: snapshot -> compute -> integrate -> emit -> advance
    /// counter.  Succeeds exactly when every force and every integrated
    /// value stays representable; on failure the simulation is unchanged
    /// and the error says which phase failed.
    pub fn tick(&mut self) -> (r: Result<(), SimError>)
        requires
            old(self).wf(),
            old(self).ticks < u64::MAX,
        ensures
            final(self).config == old(self).config,
            final(self).wf(),
            final(self).particles@.len() <= final(self).config.capacity,
            match r {
                Ok(()) => {
                    let stepped = spec_ticked(old(self).particles@, old(self).config);
                    let n0 = old(self).particles@.len() as int;
                    &&& tick_ok(old(self).particles@, old(self).config)
                    &&& final(self).ticks == old(self).ticks + 1
                    &&& forall|i: int|
                        0 <= i < n0 ==> #[trigger] final(self).particles@[i] == stepped[i]
                    &&& if emits_at(old(self).config, old(self).ticks) {
                        &&& final(self).particles@.len() == min_int(
                            old(self).config.capacity as int,
                            n0 + old(self).config.profiles@.len() as int,
                        )
                        &&& forall|i: int|
                            n0 <= i < final(self).particles@.len() ==> matches_profile(
                                #[trigger] final(self).particles@[i],
                                old(self).config.profiles@[i - n0],
                            )
                    } else {
                        final(self).particles@.len() == n0
                    }
                },
                Err(e) => {
                    &&& !tick_ok(old(self).particles@, old(self).config)
                    &&& e == if !all_forces_in_bound(old(self).particles@, old(self).config) {
                        SimError::ForceOverflow
                    } else {
                        SimError::IntegrationOverflow
                    }
                    &&& final(self).particles@ == old(self).particles@
                    &&& final(self).ticks == old(self).ticks
                },
            },
    {
        let snap = self.snapshot();
        let forces = match compute_forces(&snap, &self.config) {
            Ok(f) => f,
            Err(e) => {
                return Err(e);
            },
        };
        let r = self.step_with_forces(&forces);
        proof {
            let s0 = old(self).particles@;
            let cfg = old(self).config;
            assert(stepped_with(s0, forces@, cfg) =~= spec_ticked(s0, cfg));
            assert(all_steps_ok(s0, forces@, cfg) == (forall|i: int|
                0 <= i < s0.len() ==> step_ok(
                    s0[i],
                    (#[trigger] spec_force_on(s0, cfg, i)).0,
                    spec_force_on(s0, cfg, i).1,
                    cfg,
                )));
        }
        r
    }

    /// The read-only per-tick view for a renderer: position and charge
    /// sign of every particle, in population order.
    pub fn render_view(&self) -> (v: Vec<(i64, i64, bool)>)
        ensures
            v@.len() == self.particles@.len(),
            forall|i: int|
                0 <= i < v@.len() ==> (#[trigger] v@[i]).0 == self.particles@[i].px
                    && v@[i].1 == self.particles@[i].py && v@[i].2 == (self.particles@[i].c
                    >= 0),
    {
        let n = self.particles.len();
        let mut out: Vec<(i64, i64, bool)> = Vec::new();
        let mut i: usize = 0;
        while i < n
            invariant
                i <= n,
                n == self.particles@.len(),
                out@.len() == i as int,
                forall|k: int|
                    0 <= k < i as int ==> (#[trigger] out@[k]).0 == self.particles@[k].px
                        && out@[k].1 == self.particles@[k].py && out@[k].2 == (
                    self.particles@[k].c >= 0),
            decreases n - i,
        {
            let p = &self.particles[i];
            out.push((p.px, p.py, p.c >= 0));
            i = i + 1;
        }
        out
    }

    /// The tick counter: how many ticks have completed.
    pub fn tick_count(&self) -> (t: u64)
        ensures
            t == self.ticks,
    {
        self.ticks
    }

    /// Current population size.
    pub fn population(&self) -> (n: usize)
        ensures
            n == self.particles@.len(),
    {
        self.particles.len()
    }
}

} // verus!
