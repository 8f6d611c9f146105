use vstd::prelude::*;

verus! {

/// Update cadence tier of a squad: far squads update less often.
#[derive(Clone, Copy, Debug, PartialEq, Eq, Structural)]
pub enum SimLod {
    High,
    Medium,
    Low,
}

impl SimLod {
    /// Ticks between two updates: `2^index` of the tier.
    pub open spec fn interval_spec(self) -> u64 {
        match self {
            SimLod::High => 1,
            SimLod::Medium => 2,
            SimLod::Low => 4,
        }
    }

    /// Whether a squad of this tier is processed on `tick`.
    pub open spec fn updates_on(self, tick: u64) -> bool {
        tick % self.interval_spec() == 0
    }

    pub fn tick_interval(&self) -> (r: u64)
        ensures
            r == self.interval_spec(),
    {
        match self {
            SimLod::High => 1,
            SimLod::Medium => 2,
            SimLod::Low => 4,
        }
    }

    pub fn should_update(&self, tick: u64) -> (r: bool)
        ensures
            r == self.updates_on(tick),
    {
        tick % self.tick_interval() == 0
    }

    /// The tier for a squad, given whether its distance to the reference
    /// point is within the high and within the medium radius.
    pub fn from_distance(within_high: bool, within_medium: bool) -> (r: SimLod)
        ensures
            within_high ==> r == SimLod::High,
            !within_high && within_medium ==> r == SimLod::Medium,
            !within_high && !within_medium ==> r == SimLod::Low,
    {
        if within_high {
            SimLod::High
        } else if within_medium {
            SimLod::Medium
        } else {
            SimLod::Low
        }
    }
}

/// A tier's updates repeat with its interval.
pub proof fn lemma_lod_periodic(lod: SimLod, tick: u64)
    requires
        tick + lod.interval_spec() <= u64::MAX,
    ensures
        lod.updates_on(tick) == lod.updates_on((tick + lod.interval_spec()) as u64),
{
}

/// In every run of `interval` consecutive ticks a tier is updated exactly
/// once: `High` on every tick, `Medium` on one tick of two, `Low` on one of four.
pub proof fn lemma_lod_once_per_interval(lod: SimLod, tick: u64)
    requires
        tick + lod.interval_spec() <= u64::MAX,
    ensures
        exists|k: int|
            0 <= k < lod.interval_spec() && #[trigger] lod.updates_on((tick + k) as u64) && forall|j: int|
                0 <= j < lod.interval_spec() && #[trigger] lod.updates_on((tick + j) as u64) ==> j
                    == k,
{
    let n = lod.interval_spec() as int;
    let k = (n - (tick as int % n)) % n;
    assert(((tick + k) as u64) % (n as u64) == 0) by (nonlinear_arith)
        requires
            n == 1 || n == 2 || n == 4,
            k == (n - (tick as int % n)) % n,
            tick + n <= u64::MAX,
    ;
    assert forall|j: int|
        0 <= j < n && #[trigger] lod.updates_on((tick + j) as u64) implies j == k by {
        assert(j == k) by (nonlinear_arith)
            requires
                n == 1 || n == 2 || n == 4,
                0 <= j < n,
                0 <= k < n,
                ((tick + k) as int) % n == 0,
                ((tick + j) as int) % n == 0,
                tick + n <= u64::MAX,
        ;
    }
    assert(0 <= k < n);
    assert(lod.updates_on((tick + k) as u64));
}

/// A squad that is updated at a coarser tier would also be updated at every
/// finer tier: `Low` updates fall on `Medium` updates, which fall on `High` ones.
pub proof fn lemma_lod_nested(tick: u64)
    ensures
        SimLod::Low.updates_on(tick) ==> SimLod::Medium.updates_on(tick),
        SimLod::Medium.updates_on(tick) ==> SimLod::High.updates_on(tick),
        SimLod::High.updates_on(tick),
{
    assert(tick % 4 == 0 ==> tick % 2 == 0) by (nonlinear_arith);
}

/// Global tick counter of the fixed update loop.
#[derive(Clone, Copy, Debug)]
pub struct SimTick(pub u64);

impl SimTick {
    /// Advances the counter by one, wrapping at `u64::MAX`.
    pub fn increment(&mut self)
        ensures
            final(self).0 == if old(self).0 == u64::MAX {
                0
            } else {
                (old(self).0 + 1) as u64
            },
    {
        self.0 = self.0.wrapping_add(1);
    }

    /// Whether a squad of tier `lod` is processed on this tick.
    pub fn should_update(&self, lod: SimLod) -> (r: bool)
        ensures
            r == lod.updates_on(self.0),
    {
        lod.should_update(self.0)
    }
}

/// Coarse cell of the battlefield that a squad stands in.
#[derive(Clone, Copy, Debug, PartialEq, Eq, Structural, Hash)]
pub struct SectorId(pub i32, pub i32);

} // verus!
