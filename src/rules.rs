use vstd::prelude::*;

use crate::components::OrderKind;
use crate::lod::SimLod;

verus! {

/// The order after the rout rule: a broken squad is forced to retreat.
pub open spec fn rout_spec(order: OrderKind, broken: bool) -> OrderKind {
    if broken {
        OrderKind::Retreat
    } else {
        order
    }
}

/// Applies the rout rule to a squad's order.
pub fn rout(order: OrderKind, broken: bool) -> (r: OrderKind)
    ensures
        r == rout_spec(order, broken),
{
    if broken {
        OrderKind::Retreat
    } else {
        order
    }
}

/// Routing twice is routing once.
pub proof fn lemma_rout_idempotent(order: OrderKind, broken: bool)
    ensures
        rout_spec(rout_spec(order, broken), broken) == rout_spec(order, broken),
{
}

/// How an order sets a squad's velocity.
#[derive(Clone, Copy, Debug, PartialEq, Eq, Structural)]
pub enum Drive {
    /// Velocity is zero.
    Stop,
    /// Full speed toward the order's target, unless within one unit of it.
    FullSpeedToTarget,
    /// 0.6 of full speed toward the order's target, unless within one unit of it.
    ReducedSpeedToTarget,
}

pub open spec fn drive_spec(order: OrderKind, pinned: bool, broken: bool) -> Drive {
    if pinned || broken {
        Drive::Stop
    } else {
        match order {
            OrderKind::MoveTo => Drive::FullSpeedToTarget,
            OrderKind::AttackMove => Drive::ReducedSpeedToTarget,
            _ => Drive::Stop,
        }
    }
}

/// The velocity rule of an order: pinned or broken squads stop, `Hold` and
/// `Retreat` stop, `MoveTo` drives at full and `AttackMove` at reduced speed.
pub fn order_drive(order: OrderKind, pinned: bool, broken: bool) -> (r: Drive)
    ensures
        r == drive_spec(order, pinned, broken),
{
    if pinned || broken {
        return Drive::Stop;
    }
    match order {
        OrderKind::MoveTo => Drive::FullSpeedToTarget,
        OrderKind::AttackMove => Drive::ReducedSpeedToTarget,
        _ => Drive::Stop,
    }
}

/// Speed class of a squad's movement integration.
#[derive(Clone, Copy, Debug, PartialEq, Eq, Structural)]
pub enum Pace {
    /// The squad does not move this tick.
    Frozen,
    /// 0.3 of the velocity.
    Suppressed,
    /// 0.6 of the velocity.
    Shaken,
    /// The full velocity.
    Steady,
}

pub open spec fn pace_spec(pinned: bool, broken: bool, suppressed: bool, shaken: bool) -> Pace {
    if pinned || broken {
        Pace::Frozen
    } else if suppressed {
        Pace::Suppressed
    } else if shaken {
        Pace::Shaken
    } else {
        Pace::Steady
    }
}

/// Which speed class movement integration uses for a squad.
pub fn movement_pace(pinned: bool, broken: bool, suppressed: bool, shaken: bool) -> (r: Pace)
    ensures
        r == pace_spec(pinned, broken, suppressed, shaken),
{
    if pinned || broken {
        Pace::Frozen
    } else if suppressed {
        Pace::Suppressed
    } else if shaken {
        Pace::Shaken
    } else {
        Pace::Steady
    }
}

/// Which morale terms apply to a squad on one tick.
#[derive(Clone, Copy, Debug, PartialEq, Eq, Structural)]
pub struct MoraleTerms {
    /// Lose 0.10 per second.
    pub pinned_loss: bool,
    /// Lose 0.05 per second.
    pub suppressed_loss: bool,
    /// Lose `(1 - health fraction) · 0.002` per second.
    pub casualty_loss: bool,
    /// Lose another 0.05 per second.
    pub panic_loss: bool,
    /// Gain `0.02 + 0.01 · k` per second, `k` the nearby friendlies.
    pub recovery: bool,
    /// Gain 0.002 per second.
    pub broken_recovery: bool,
}

/// The morale terms, given the squad's state; `broken_after_losses` says
/// whether morale is broken once the losses of this tick are applied, and
/// `broken_after_recovery` whether it still is after the recovery.
pub open spec fn morale_terms_spec(
    pinned: bool,
    suppressed: bool,
    health_below_three_quarters: bool,
    health_below_quarter: bool,
    health_above_half: bool,
    broken_after_losses: bool,
    broken_after_recovery: bool,
) -> MoraleTerms {
    MoraleTerms {
        pinned_loss: pinned,
        suppressed_loss: !pinned && suppressed,
        casualty_loss: health_below_three_quarters,
        panic_loss: health_below_quarter,
        recovery: !suppressed && !broken_after_losses,
        broken_recovery: broken_after_recovery && !suppressed && health_above_half,
    }
}

pub fn morale_terms(
    pinned: bool,
    suppressed: bool,
    health_below_three_quarters: bool,
    health_below_quarter: bool,
    health_above_half: bool,
    broken_after_losses: bool,
    broken_after_recovery: bool,
) -> (r: MoraleTerms)
    ensures
        r == morale_terms_spec(
            pinned,
            suppressed,
            health_below_three_quarters,
            health_below_quarter,
            health_above_half,
            broken_after_losses,
            broken_after_recovery,
        ),
{
    MoraleTerms {
        pinned_loss: pinned,
        suppressed_loss: !pinned && suppressed,
        casualty_loss: health_below_three_quarters,
        panic_loss: health_below_quarter,
        recovery: !suppressed && !broken_after_losses,
        broken_recovery: broken_after_recovery && !suppressed && health_above_half,
    }
}

/// Whether a squad fires on `tick`: it is alive, neither pinned nor broken,
/// and its tier is scheduled on this tick.
pub open spec fn fires_spec(alive: bool, pinned: bool, broken: bool, lod: SimLod, tick: u64) -> bool {
    alive && !pinned && !broken && lod.updates_on(tick)
}

pub fn may_fire(alive: bool, pinned: bool, broken: bool, lod: SimLod, tick: u64) -> (r: bool)
    ensures
        r == fires_spec(alive, pinned, broken, lod, tick),
{
    alive && !pinned && !broken && lod.should_update(tick)
}

} // verus!
