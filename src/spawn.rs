use vstd::prelude::*;
use crate::formation::{Formation, FormationMaker, FormationSeed};

verus! {

/// Period of enemy spawning, in microseconds.
pub const ENEMY_SPAWN_PERIOD: u64 = 1_000_000;

/// Period of enemy fire, in microseconds.
pub const ENEMY_FIRE_PERIOD: u64 = 900_000;

/// Default population cap.
pub const MAX_ENEMIES: u32 = 4;

/// A fixed-interval trigger driven by elapsed time: it fires once for each
/// whole period that has accumulated, independently of the tick rate.
#[derive(Clone, Copy, Debug, PartialEq, Eq, Structural)]
pub struct Cadence {
    pub period: u64,
    pub elapsed: u64,
}

impl Cadence {
    pub open spec fn wf(self) -> bool {
        self.period > 0 && self.elapsed < self.period
    }

    pub fn new(period: u64) -> (r: Cadence)
        requires
            period > 0,
        ensures
            r.wf(),
            r == (Cadence { period, elapsed: 0 }),
    {
        Cadence { period, elapsed: 0 }
    }

    /// Lets `delta` microseconds pass; returns how many times the trigger
    /// fires.
    pub fn tick(&mut self, delta: u64) -> (fired: u64)
        requires
            old(self).wf(),
        ensures
            final(self).wf(),
            final(self).period == old(self).period,
            fired == (old(self).elapsed + delta) / (old(self).period as int),
            final(self).elapsed == (old(self).elapsed + delta) % (old(self).period as int),
    {
        let total: u128 = self.elapsed as u128 + delta as u128;
        let period: u128 = self.period as u128;
        let fired: u128 = total / period;
        assert(fired <= total) by (nonlinear_arith)
            requires fired == total / period, period >= 1, total >= 0;
        assert(fired <= u64::MAX) by {
            assert(fired * period <= total) by (nonlinear_arith)
                requires fired == total / period, period >= 1, total >= 0;
            if period >= 2 {
                assert(fired * 2 <= fired * period) by (nonlinear_arith)
                    requires period >= 2, fired >= 0;
            }
        }
        self.elapsed = (total % period) as u64;
        fired as u64
    }
}

/// Gate on the live enemy population: spawning is a no-op at the cap.
#[derive(Clone, Copy, Debug, PartialEq, Eq, Structural)]
pub struct EnemySpawner {
    pub active: u32,
    pub cap: u32,
}

impl EnemySpawner {
    /// The live count never exceeds the cap.
    pub open spec fn wf(self) -> bool {
        self.active <= self.cap
    }

    pub fn new(cap: u32) -> (r: EnemySpawner)
        ensures
            r.wf(),
            r == (EnemySpawner { active: 0, cap }),
    {
        EnemySpawner { active: 0, cap }
    }

    /// Counts one more live enemy if the cap allows it; returns whether it
    /// did.
    pub fn try_spawn(&mut self) -> (spawned: bool)
        requires
            old(self).wf(),
        ensures
            final(self).wf(),
            final(self).cap == old(self).cap,
            spawned == (old(self).active < old(self).cap),
            final(self).active == if spawned { old(self).active + 1 } else { old(self).active as int },
    {
        if self.active < self.cap {
            self.active = self.active + 1;
            true
        } else {
            false
        }
    }

    /// `n` live enemies were destroyed.
    pub fn destroyed(&mut self, n: u32)
        requires
            old(self).wf(),
            n <= old(self).active,
        ensures
            final(self).wf(),
            *final(self) == (EnemySpawner { active: (old(self).active - n) as u32, ..*old(self) }),
    {
        self.active = self.active - n;
    }

    /// One firing of the spawn trigger: below the cap, counts a new enemy
    /// and hands out its formation (its position is the formation's start);
    /// at the cap, does nothing.
    pub fn enemy_spawn(&mut self, maker: &mut FormationMaker, seed: FormationSeed) -> (r: Option<Formation>)
        requires
            old(self).wf(),
            old(maker).wf(),
            seed.wf(),
        ensures
            final(self).wf(),
            final(maker).wf(),
            final(self).cap == old(self).cap,
            r is Some == (old(self).active < old(self).cap),
            r is Some ==> final(self).active == old(self).active + 1
                && (*final(maker), r->Some_0) == old(maker).spec_make(seed),
            r is None ==> *final(self) == *old(self) && *final(maker) == *old(maker),
    {
        if self.try_spawn() {
            Some(maker.make(seed))
        } else {
            None
        }
    }
}

} // verus!
