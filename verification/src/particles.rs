//! Particle emission bookkeeping: the easing curve names and how many
//! particles an emitter may spawn under its particle cap, in burst mode.
//! Particle motion, colors and random spawn properties are the simulation's
//! part.

use vstd::prelude::*;

verus! {

/// Easing function for particle properties over lifetime.
#[derive(Debug, Clone, Copy, PartialEq, Eq, Structural)]
pub enum Easing {
    /// Constant value.
    Linear,
    /// Fast start, slow end.
    EaseOut,
    /// Slow start, fast end.
    EaseIn,
    /// Slow start, fast middle, slow end.
    EaseInOut,
    /// Quadratic ease out.
    QuadOut,
}

/// How many of `requested` emissions go through when each is allowed only
/// while fewer than `max_particles` particles are alive, starting from
/// `alive`; an emitted particle counts as alive when `spawns_alive`.
pub open spec fn capped_emissions(requested: u32, alive: usize, max_particles: usize, spawns_alive: bool) -> u32 {
    if alive >= max_particles {
        0
    } else if !spawns_alive || requested <= max_particles - alive {
        requested
    } else {
        (max_particles - alive) as u32
    }
}

/// Count the emissions of `requested` attempts under the particle cap (see
/// `capped_emissions`), one attempt at a time as the emitter makes them.
pub fn emit_count(requested: u32, alive: usize, max_particles: usize, spawns_alive: bool) -> (n: u32)
    ensures
        n == capped_emissions(requested, alive, max_particles, spawns_alive),
{
    let mut n: u32 = 0;
    let mut now_alive: usize = alive;
    let mut k: u32 = 0;
    while k < requested
        invariant
            k <= requested,
            n <= k,
            now_alive == if spawns_alive {
                alive + n
            } else {
                alive as int
            },
            alive >= max_particles ==> n == 0,
            alive < max_particles && spawns_alive ==> n == if k <= max_particles - alive {
                k as int
            } else {
                max_particles - alive
            },
            alive < max_particles && !spawns_alive ==> n == k,
        decreases requested - k,
    {
        if now_alive < max_particles {
            n += 1;
            if spawns_alive {
                now_alive += 1;
            }
        }
        k += 1;
    }
    n
}

/// Burst-mode emission state of an emitter.
#[derive(Debug, Clone, Copy, PartialEq, Eq, Structural)]
pub struct BurstState {
    /// Particles per burst (0 = continuous emission instead).
    pub burst: u32,
    /// Particles emitted in the current burst.
    pub burst_emitted: u32,
    /// Whether the emitter is active.
    pub active: bool,
    /// Whether the burst repeats once all its particles have died.
    pub looping: bool,
}

/// One frame of an active burst emitter with `alive` live particles: how
/// many particles it emits and its state afterwards.
///
/// While the burst is unfinished it emits what is left of it under the cap
/// and, unless looping, turns itself off; a finished looping burst starts
/// over once no particle is alive.
pub open spec fn burst_frame(b: BurstState, alive: usize, max_particles: usize, spawns_alive: bool) -> (
    BurstState,
    u32,
) {
    if b.burst_emitted < b.burst {
        let n = capped_emissions(
            (b.burst - b.burst_emitted) as u32,
            alive,
            max_particles,
            spawns_alive,
        );
        (
            BurstState {
                burst_emitted: (b.burst_emitted + n) as u32,
                active: b.active && b.looping,
                ..b
            },
            n,
        )
    } else if b.looping && alive == 0 {
        (BurstState { burst_emitted: 0, ..b }, 0)
    } else {
        (b, 0)
    }
}

impl BurstState {
    /// Run the burst part of one emitter frame (see `burst_frame`); returns
    /// how many particles to emit.
    pub fn frame(&mut self, alive: usize, max_particles: usize, spawns_alive: bool) -> (n: u32)
        ensures
            (*final(self), n) == burst_frame(*old(self), alive, max_particles, spawns_alive),
    {
        if self.burst_emitted < self.burst {
            let to_emit = self.burst - self.burst_emitted;
            let n = emit_count(to_emit, alive, max_particles, spawns_alive);
            self.burst_emitted = self.burst_emitted + n;
            if !self.looping {
                self.active = false;
            }
            n
        } else {
            if self.looping && alive == 0 {
                self.burst_emitted = 0;
            }
            0
        }
    }

    /// Reset for a fresh start: nothing emitted yet, active again.
    pub fn reset(&mut self)
        ensures
            *final(self) == (BurstState { burst_emitted: 0, active: true, ..*old(self) }),
    {
        self.burst_emitted = 0;
        self.active = true;
    }
}

/// A burst never emits more than it has left, and never takes the live
/// particle count past the cap (when emitted particles count as alive and
/// the cap was not already reached).
pub proof fn law_burst_within_limits(b: BurstState, alive: usize, max_particles: usize)
    requires
        b.burst_emitted <= b.burst,
        alive <= max_particles,
    ensures
        ({
            let (b1, n) = burst_frame(b, alive, max_particles, true);
            &&& b1.burst_emitted <= b1.burst
            &&& alive + n <= max_particles
        }),
{
}

/// With room for all of it, an unfinished burst finishes in one frame.
pub proof fn law_burst_completes_with_room(b: BurstState, alive: usize, max_particles: usize)
    requires
        b.burst_emitted < b.burst,
        alive + (b.burst - b.burst_emitted) <= max_particles,
    ensures
        burst_frame(b, alive, max_particles, true).0.burst_emitted == b.burst,
{
}

/// Emission under the cap never takes the live particle count past it:
/// starting at or below the cap, the emitted particles (counted as alive)
/// leave it at or below the cap, whatever was requested.
pub proof fn law_emission_within_cap(requested: u32, alive: usize, max_particles: usize)
    requires
        alive <= max_particles,
    ensures
        alive + capped_emissions(requested, alive, max_particles, true) <= max_particles,
{
}

} // verus!
