use vstd::prelude::*;

verus! {

/// Protection class of a cover zone.
#[derive(Clone, Copy, Debug, PartialEq, Eq, Structural)]
pub enum CoverType {
    NoCover,
    /// Craters, debris.
    Light,
    /// Trenches, walls.
    Medium,
    /// Bunkers, buildings.
    Heavy,
}

impl CoverType {
    /// Position of the class in the order of protection.
    pub open spec fn rank_spec(self) -> nat {
        match self {
            CoverType::NoCover => 0,
            CoverType::Light => 1,
            CoverType::Medium => 2,
            CoverType::Heavy => 3,
        }
    }

    pub fn rank(&self) -> (r: u8)
        ensures
            r == self.rank_spec(),
    {
        match self {
            CoverType::NoCover => 0,
            CoverType::Light => 1,
            CoverType::Medium => 2,
            CoverType::Heavy => 3,
        }
    }
}

/// The best cover among the zones that contain a point: the class of
/// highest protection among `covering`, or `NoCover` when no zone contains it.
pub fn best_cover(covering: &Vec<CoverType>) -> (r: CoverType)
    ensures
        forall|i: int| 0 <= i < covering@.len() ==> covering@[i].rank_spec() <= r.rank_spec(),
        r == CoverType::NoCover || exists|i: int| 0 <= i < covering@.len() && covering@[i] == r,
{
    let mut best = CoverType::NoCover;
    let mut i: usize = 0;
    while i < covering.len()
        invariant
            i <= covering@.len(),
            forall|k: int| 0 <= k < i ==> covering@[k].rank_spec() <= best.rank_spec(),
            best == CoverType::NoCover || exists|k: int| 0 <= k < i && covering@[k] == best,
        decreases covering.len() - i,
    {
        if covering[i].rank() > best.rank() {
            best = covering[i];
        }
        i = i + 1;
    }
    best
}

} // verus!
