use vstd::prelude::*;

use crate::components::OrderKind;

verus! {

/// High-level label of what an AI squad is doing this tick.
#[derive(Clone, Copy, Debug, PartialEq, Eq, Structural)]
pub enum BehaviorState {
    Idle,
    Advancing,
    Engaging,
    TakingCover,
    Flanking,
    Retreating,
    Regrouping,
}

/// What the behavior state of a squad is decided from, each threshold
/// already applied to the squad's measured values.
#[derive(Clone, Copy, Debug)]
pub struct BehaviorInputs {
    /// The current order.
    pub order: OrderKind,
    /// Morale below the breaking point.
    pub broken: bool,
    /// Suppression at the pinning level.
    pub pinned: bool,
    /// Suppression at the suppressed level.
    pub suppressed: bool,
    /// Threat level above 0.7.
    pub high_threat: bool,
    /// Aggression below 0.5.
    pub cautious: bool,
    /// Fire taken within the last two seconds.
    pub under_fire: bool,
    /// Cover-seeking preference above 0.5.
    pub seeks_cover: bool,
    /// Flanking tendency above 0.6.
    pub flanker: bool,
    /// Enemies within engagement range.
    pub enemies_in_range: u32,
}

/// The behavior state, by the first rule that applies.
pub open spec fn behavior_spec(i: BehaviorInputs) -> BehaviorState {
    if i.broken {
        BehaviorState::Retreating
    } else if i.pinned {
        BehaviorState::TakingCover
    } else if i.high_threat && i.cautious {
        BehaviorState::TakingCover
    } else if i.under_fire && i.seeks_cover && i.suppressed {
        BehaviorState::TakingCover
    } else if i.order == OrderKind::Retreat {
        BehaviorState::Retreating
    } else if i.enemies_in_range > 0 {
        if i.flanker && i.enemies_in_range <= 2 {
            BehaviorState::Flanking
        } else {
            BehaviorState::Engaging
        }
    } else if i.order == OrderKind::MoveTo || i.order == OrderKind::AttackMove {
        BehaviorState::Advancing
    } else {
        BehaviorState::Idle
    }
}

/// Decides the behavior state from the instantaneous inputs alone.
pub fn determine_behavior_state(inputs: &BehaviorInputs) -> (r: BehaviorState)
    ensures
        r == behavior_spec(*inputs),
{
    if inputs.broken {
        return BehaviorState::Retreating;
    }
    if inputs.pinned {
        return BehaviorState::TakingCover;
    }
    if inputs.high_threat && inputs.cautious {
        return BehaviorState::TakingCover;
    }
    if inputs.under_fire && inputs.seeks_cover && inputs.suppressed {
        return BehaviorState::TakingCover;
    }
    if inputs.order == OrderKind::Retreat {
        return BehaviorState::Retreating;
    }
    if inputs.enemies_in_range > 0 {
        if inputs.flanker && inputs.enemies_in_range <= 2 {
            return BehaviorState::Flanking;
        }
        return BehaviorState::Engaging;
    }
    if inputs.order.has_target() {
        return BehaviorState::Advancing;
    }
    BehaviorState::Idle
}

/// How the AI rewrites a squad's order after deciding its behavior.
#[derive(Clone, Copy, Debug, PartialEq, Eq, Structural)]
pub enum OrderRewrite {
    /// The order stays as it is.
    Keep,
    /// Move to a point 40 units away from the nearest enemy.
    MoveAwayFromEnemy,
    /// Attack-move to a point beside the nearest enemy.
    FlankEnemy,
    /// Move to the centre of mass of the nearby friendlies.
    MoveToFriendlies,
    /// Attack-move to the nearest enemy.
    AttackNearestEnemy,
}

pub open spec fn rewrite_spec(
    state: BehaviorState,
    knows_enemy: bool,
    has_friendlies: bool,
    aggressive: bool,
) -> OrderRewrite {
    match state {
        BehaviorState::Retreating => if knows_enemy {
            OrderRewrite::MoveAwayFromEnemy
        } else {
            OrderRewrite::Keep
        },
        BehaviorState::Flanking => if knows_enemy {
            OrderRewrite::FlankEnemy
        } else {
            OrderRewrite::Keep
        },
        BehaviorState::Regrouping => if has_friendlies {
            OrderRewrite::MoveToFriendlies
        } else {
            OrderRewrite::Keep
        },
        BehaviorState::Engaging => if aggressive && knows_enemy {
            OrderRewrite::AttackNearestEnemy
        } else {
            OrderRewrite::Keep
        },
        _ => OrderRewrite::Keep,
    }
}

/// The order rewrite for a squad in `state`: `knows_enemy` when a nearest
/// enemy is known, `has_friendlies` when friendlies are near, `aggressive`
/// when aggression is above 0.6.
pub fn order_rewrite(
    state: BehaviorState,
    knows_enemy: bool,
    has_friendlies: bool,
    aggressive: bool,
) -> (r: OrderRewrite)
    ensures
        r == rewrite_spec(state, knows_enemy, has_friendlies, aggressive),
{
    match state {
        BehaviorState::Retreating => if knows_enemy {
            OrderRewrite::MoveAwayFromEnemy
        } else {
            OrderRewrite::Keep
        },
        BehaviorState::Flanking => if knows_enemy {
            OrderRewrite::FlankEnemy
        } else {
            OrderRewrite::Keep
        },
        BehaviorState::Regrouping => if has_friendlies {
            OrderRewrite::MoveToFriendlies
        } else {
            OrderRewrite::Keep
        },
        BehaviorState::Engaging => if aggressive && knows_enemy {
            OrderRewrite::AttackNearestEnemy
        } else {
            OrderRewrite::Keep
        },
        _ => OrderRewrite::Keep,
    }
}

/// A squad whose morale is broken always retreats, whatever else holds.
pub proof fn lemma_broken_retreats(i: BehaviorInputs)
    requires
        i.broken,
    ensures
        behavior_spec(i) == BehaviorState::Retreating,
        rewrite_spec(behavior_spec(i), true, true, true) == OrderRewrite::MoveAwayFromEnemy,
{
}

} // verus!
