//! The emission controller: capacity-bounded appending of new particles.
//!
//! On each emission event the configured profiles are applied in order, one
//! particle per profile, each at its spawn point plus a bounded random
//! jitter.  Nothing is emitted once the population holds `capacity`
//! particles, so the population grows monotonically up to the capacity and
//! never beyond it.

use crate::fixed::min_int;
use crate::particle::{
    config_ok, emitted, lemma_emitted_ok, matches_profile, particles_ok, profile_ok, Config,
    Particle,
};
use crate::rng::rng_range;
use vstd::arithmetic::mul::{lemma_mul_basics, lemma_mul_inequality, lemma_mul_is_distributive_sub};
use vstd::prelude::*;

verus! {

/// Population size after `k` emission events of `rate` particles each into
/// a population that started empty and is capped at `cap`.
pub open spec fn pop_after(k: nat, cap: int, rate: int) -> int
    decreases k,
{
    if k == 0 {
        0
    } else {
        min_int(cap, pop_after((k - 1) as nat, cap, rate) + rate)
    }
}

/// Emission monotonicity: starting from an empty population, after `k`
/// emission events of `rate` particles each the population holds exactly
/// `min(cap, rate * k)` particles.
pub proof fn lemma_emission_monotonic(k: nat, cap: int, rate: int)
    requires
        0 <= cap,
        0 <= rate,
    ensures
        pop_after(k, cap, rate) == min_int(cap, rate * k),
    decreases k,
{
    if k == 0 {
        lemma_mul_basics(rate);
    } else {
        lemma_emission_monotonic((k - 1) as nat, cap, rate);
        assert(rate * ((k - 1) as nat) == rate * k - rate) by {
            lemma_mul_is_distributive_sub(rate, k as int, 1);
            lemma_mul_basics(rate);
        }
        assert(rate * ((k - 1) as nat) <= rate * k) by {
            lemma_mul_inequality((k - 1) as nat as int, k as int, rate);
            vstd::arithmetic::mul::lemma_mul_is_commutative(rate, k as int);
            vstd::arithmetic::mul::lemma_mul_is_commutative(rate, (k - 1) as nat as int);
        }
    }
}

/// One emission event: appends one particle per profile, in profile order,
/// until the capacity is reached.  Existing particles are never touched and
/// the population never exceeds the capacity.
pub fn emit(particles: &mut Vec<Particle>, rng: &mut rand::rngs::StdRng, cfg: &Config)
    requires
        particles_ok(old(particles)@),
        config_ok(*cfg),
        old(particles)@.len() <= cfg.capacity,
    ensures
        final(particles)@.len() == min_int(
            cfg.capacity as int,
            old(particles)@.len() + cfg.profiles@.len() as int,
        ),
        forall|i: int|
            0 <= i < old(particles)@.len() ==> final(particles)@[i] == old(particles)@[i],
        forall|i: int|
            old(particles)@.len() <= i < final(particles)@.len() ==> matches_profile(
                #[trigger] final(particles)@[i],
                cfg.profiles@[i - old(particles)@.len()],
            ),
        particles_ok(final(particles)@),
        final(particles)@.len() <= cfg.capacity,
{
    let ghost n0 = particles@.len() as int;
    let np = cfg.profiles.len();
    let mut k: usize = 0;
    while k < np
        invariant
            config_ok(*cfg),
            np == cfg.profiles@.len(),
            k <= np,
            n0 == old(particles)@.len(),
            0 <= n0 <= particles@.len() <= cfg.capacity,
            particles@.len() == min_int(cfg.capacity as int, n0 + k as int),
            forall|i: int| 0 <= i < n0 ==> #[trigger] particles@[i] == old(particles)@[i],
            forall|i: int|
                n0 <= i < particles@.len() ==> matches_profile(
                    #[trigger] particles@[i],
                    cfg.profiles@[i - n0],
                ),
            particles_ok(particles@),
        decreases np - k,
    {
        if particles.len() < cfg.capacity {
            let pr = cfg.profiles[k];
            assert(profile_ok(pr)) by {
                assert(cfg.profiles@[k as int] == pr);
            }
            let jx = rng_range(rng, 0, pr.jitter);
            let jy = rng_range(rng, 0, pr.jitter);
            let p = Particle {
                m: pr.m,
                c: pr.c,
                px: pr.x + jx,
                py: pr.y + jy,
                vx: pr.vx,
                vy: pr.vy,
                ax: 0,
                ay: 0,
                fx: 0,
                fy: 0,
            };
            proof {
                lemma_emitted_ok(pr, jx as int, jy as int);
                assert(p == emitted(pr, jx as int, jy as int));
                assert(matches_profile(p, pr));
            }
            let ghost prev = particles@;
            particles.push(p);
            proof {
                assert(prev.len() == n0 + k as int);
                assert(particles@ == prev.push(p));
                assert forall|i: int| n0 <= i < particles@.len() implies matches_profile(
                    #[trigger] particles@[i],
                    cfg.profiles@[i - n0],
                ) by {
                    if i < prev.len() {
                        assert(prev.push(p)[i] == prev[i]);
                    } else {
                        assert(prev.push(p)[i] == p);
                        assert(i - n0 == k as int);
                    }
                }
            }
        }
        k = k + 1;
    }
}

} // verus!
