use tbg_sim::behavior::{
    determine_behavior_state, order_rewrite, BehaviorInputs, BehaviorState, OrderRewrite,
};
use tbg_sim::components::OrderKind;

fn calm(order: OrderKind) -> BehaviorInputs {
    // default preferences: aggression 0.5, cover seeking 0.6, flanking 0.4;
    // no suppression, no threat, time since fire 0
    BehaviorInputs {
        order,
        broken: false,
        pinned: false,
        suppressed: false,
        high_threat: false,
        cautious: 0.5f32 < 0.5,
        under_fire: 0.0f32 < 2.0,
        seeks_cover: 0.6f32 > 0.5,
        flanker: 0.4f32 > 0.6,
        enemies_in_range: 0,
    }
}

#[test]
fn test_behavior_state_transitions() {
    let mut broken = calm(OrderKind::Hold);
    broken.broken = 0.1f32 < 0.2;
    assert_eq!(determine_behavior_state(&broken), BehaviorState::Retreating);

    let mut engaged = calm(OrderKind::Hold);
    engaged.enemies_in_range = 2;
    assert_eq!(determine_behavior_state(&engaged), BehaviorState::Engaging);
}

#[test]
fn behavior_rule_order() {
    let mut i = calm(OrderKind::MoveTo);
    assert_eq!(determine_behavior_state(&i), BehaviorState::Advancing);
    i.order = OrderKind::AttackMove;
    assert_eq!(determine_behavior_state(&i), BehaviorState::Advancing);
    i.order = OrderKind::Hold;
    assert_eq!(determine_behavior_state(&i), BehaviorState::Idle);
    i.order = OrderKind::Retreat;
    assert_eq!(determine_behavior_state(&i), BehaviorState::Retreating);

    let mut c = calm(OrderKind::Retreat);
    c.pinned = true;
    assert_eq!(determine_behavior_state(&c), BehaviorState::TakingCover);

    let mut t = calm(OrderKind::Hold);
    t.high_threat = true;
    t.cautious = true;
    assert_eq!(determine_behavior_state(&t), BehaviorState::TakingCover);
    t.cautious = false;
    assert_eq!(determine_behavior_state(&t), BehaviorState::Idle);

    let mut s = calm(OrderKind::Hold);
    s.suppressed = true;
    assert_eq!(determine_behavior_state(&s), BehaviorState::TakingCover);
    s.under_fire = false;
    assert_eq!(determine_behavior_state(&s), BehaviorState::Idle);

    let mut f = calm(OrderKind::Hold);
    f.flanker = true;
    f.enemies_in_range = 2;
    assert_eq!(determine_behavior_state(&f), BehaviorState::Flanking);
    f.enemies_in_range = 3;
    assert_eq!(determine_behavior_state(&f), BehaviorState::Engaging);
}

#[test]
fn ai_order_rewrites() {
    assert_eq!(
        order_rewrite(BehaviorState::Retreating, true, false, false),
        OrderRewrite::MoveAwayFromEnemy
    );
    assert_eq!(order_rewrite(BehaviorState::Retreating, false, true, true), OrderRewrite::Keep);
    assert_eq!(order_rewrite(BehaviorState::Flanking, true, false, false), OrderRewrite::FlankEnemy);
    assert_eq!(
        order_rewrite(BehaviorState::Regrouping, false, true, false),
        OrderRewrite::MoveToFriendlies
    );
    assert_eq!(
        order_rewrite(BehaviorState::Engaging, true, false, true),
        OrderRewrite::AttackNearestEnemy
    );
    assert_eq!(order_rewrite(BehaviorState::Engaging, true, false, false), OrderRewrite::Keep);
    assert_eq!(order_rewrite(BehaviorState::Idle, true, true, true), OrderRewrite::Keep);
    assert_eq!(order_rewrite(BehaviorState::Advancing, true, true, true), OrderRewrite::Keep);
}
