use vstd::prelude::*;

verus! {

/// Unique identifier of a squad, chosen by the host.
#[derive(Clone, Copy, Debug, PartialEq, Eq, Structural, Hash)]
pub struct SquadId(pub u32);

/// Side of a squad.
#[derive(Clone, Copy, Debug, PartialEq, Eq, Structural, Hash)]
pub enum Faction {
    Blue,
    Red,
}

impl Faction {
    pub open spec fn code_spec(self) -> u8 {
        match self {
            Faction::Blue => 0,
            Faction::Red => 1,
        }
    }

    /// Faction code of the spatial index and the flat snapshot: Blue 0, Red 1.
    pub fn code(&self) -> (r: u8)
        ensures
            r == self.code_spec(),
    {
        match self {
            Faction::Blue => 0,
            Faction::Red => 1,
        }
    }

    /// Name of the faction in a snapshot.
    pub fn name(&self) -> (r: &'static str)
        ensures
            *self == Faction::Blue ==> r@ == "Blue"@,
            *self == Faction::Red ==> r@ == "Red"@,
    {
        match self {
            Faction::Blue => "Blue",
            Faction::Red => "Red",
        }
    }
}

/// The kind of an order, without its target point.
#[derive(Clone, Copy, Debug, PartialEq, Eq, Structural)]
pub enum OrderKind {
    Hold,
    MoveTo,
    AttackMove,
    Retreat,
}

impl OrderKind {
    pub open spec fn code_spec(self) -> u8 {
        match self {
            OrderKind::Hold => 0,
            OrderKind::MoveTo => 1,
            OrderKind::AttackMove => 2,
            OrderKind::Retreat => 3,
        }
    }

    /// Order code of the flat snapshot: Hold 0, MoveTo 1, AttackMove 2, Retreat 3.
    pub fn code(&self) -> (r: u8)
        ensures
            r == self.code_spec(),
    {
        match self {
            OrderKind::Hold => 0,
            OrderKind::MoveTo => 1,
            OrderKind::AttackMove => 2,
            OrderKind::Retreat => 3,
        }
    }

    /// Whether the order has a target point.
    pub fn has_target(&self) -> (r: bool)
        ensures
            r == (*self == OrderKind::MoveTo || *self == OrderKind::AttackMove),
    {
        match self {
            OrderKind::MoveTo | OrderKind::AttackMove => true,
            _ => false,
        }
    }
}

/// Per-squad flags that let heavy systems skip idle squads.
#[derive(Clone, Copy, Debug)]
pub struct ActivityFlags {
    pub is_moving: bool,
    pub is_firing: bool,
    pub recently_damaged: bool,
    pub is_suppressed: bool,
    /// Tick on which the squad last took damage.
    pub last_damage_tick: u64,
}

impl ActivityFlags {
    pub open spec fn active_spec(self) -> bool {
        self.is_moving || self.is_firing || self.recently_damaged || self.is_suppressed
    }

    /// Whether `current_tick` lies within `memory` ticks after `last`.
    pub open spec fn remembers(last: u64, current_tick: u64, memory: u64) -> bool {
        (if current_tick >= last {
            current_tick - last
        } else {
            0
        }) < memory
    }

    /// All flags off, no damage yet.
    pub fn new() -> (r: ActivityFlags)
        ensures
            !r.active_spec(),
            r.last_damage_tick == 0,
    {
        ActivityFlags {
            is_moving: false,
            is_firing: false,
            recently_damaged: false,
            is_suppressed: false,
            last_damage_tick: 0,
        }
    }

    pub fn is_active(&self) -> (r: bool)
        ensures
            r == self.active_spec(),
    {
        self.is_moving || self.is_firing || self.recently_damaged || self.is_suppressed
    }

    pub fn is_idle(&self) -> (r: bool)
        ensures
            r == !self.active_spec(),
    {
        !self.is_active()
    }

    /// Recomputes `recently_damaged`: true while fewer than
    /// `damage_memory_ticks` ticks have passed since the last damage.
    pub fn update_damage_status(&mut self, current_tick: u64, damage_memory_ticks: u64)
        ensures
            final(self).recently_damaged == ActivityFlags::remembers(
                old(self).last_damage_tick,
                current_tick,
                damage_memory_ticks,
            ),
            final(self).last_damage_tick == old(self).last_damage_tick,
            final(self).is_moving == old(self).is_moving,
            final(self).is_firing == old(self).is_firing,
            final(self).is_suppressed == old(self).is_suppressed,
    {
        self.recently_damaged = current_tick.saturating_sub(self.last_damage_tick)
            < damage_memory_ticks;
    }

    /// Records damage taken on `tick`.
    pub fn mark_damaged(&mut self, tick: u64)
        ensures
            final(self).last_damage_tick == tick,
            final(self).recently_damaged,
            final(self).is_moving == old(self).is_moving,
            final(self).is_firing == old(self).is_firing,
            final(self).is_suppressed == old(self).is_suppressed,
    {
        self.last_damage_tick = tick;
        self.recently_damaged = true;
    }

    /// The per-tick refresh: the movement and suppression flags as measured,
    /// and the damage memory as of `current_tick`.
    pub fn refresh(
        &mut self,
        moving: bool,
        suppressed: bool,
        current_tick: u64,
        damage_memory_ticks: u64,
    )
        ensures
            final(self).is_moving == moving,
            final(self).is_suppressed == suppressed,
            final(self).is_firing == old(self).is_firing,
            final(self).last_damage_tick == old(self).last_damage_tick,
            final(self).recently_damaged == ActivityFlags::remembers(
                old(self).last_damage_tick,
                current_tick,
                damage_memory_ticks,
            ),
    {
        self.is_moving = moving;
        self.is_suppressed = suppressed;
        self.update_damage_status(current_tick, damage_memory_ticks);
    }
}

/// Identifier of a destructible object, chosen by the host.
#[derive(Clone, Copy, Debug, PartialEq, Eq, Structural, Hash)]
pub struct DestructibleId(pub u32);

/// Condition of a destructible object.
#[derive(Clone, Copy, Debug, PartialEq, Eq, Structural)]
pub enum DestructibleState {
    Intact,
    Damaged,
    Destroyed,
}

impl DestructibleState {
    /// The state that a destructible's health puts it in: destroyed before
    /// damaged before intact.
    pub fn from_health(destroyed: bool, damaged: bool) -> (r: DestructibleState)
        ensures
            destroyed ==> r == DestructibleState::Destroyed,
            !destroyed && damaged ==> r == DestructibleState::Damaged,
            !destroyed && !damaged ==> r == DestructibleState::Intact,
    {
        if destroyed {
            DestructibleState::Destroyed
        } else if damaged {
            DestructibleState::Damaged
        } else {
            DestructibleState::Intact
        }
    }

    /// Name of the state in a snapshot.
    pub fn name(&self) -> (r: &'static str)
        ensures
            *self == DestructibleState::Intact ==> r@ == "Intact"@,
            *self == DestructibleState::Damaged ==> r@ == "Damaged"@,
            *self == DestructibleState::Destroyed ==> r@ == "Destroyed"@,
    {
        match self {
            DestructibleState::Intact => "Intact",
            DestructibleState::Damaged => "Damaged",
            DestructibleState::Destroyed => "Destroyed",
        }
    }
}

/// Kind of a destructible object.
#[derive(Clone, Copy, Debug, PartialEq, Eq, Structural)]
pub enum DestructibleType {
    Tree,
    Building,
    Wall,
    Vehicle,
}

impl DestructibleType {
    /// Name of the kind in a snapshot.
    pub fn name(&self) -> (r: &'static str)
        ensures
            *self == DestructibleType::Tree ==> r@ == "Tree"@,
            *self == DestructibleType::Building ==> r@ == "Building"@,
            *self == DestructibleType::Wall ==> r@ == "Wall"@,
            *self == DestructibleType::Vehicle ==> r@ == "Vehicle"@,
    {
        match self {
            DestructibleType::Tree => "Tree",
            DestructibleType::Building => "Building",
            DestructibleType::Wall => "Wall",
            DestructibleType::Vehicle => "Vehicle",
        }
    }
}

} // verus!
