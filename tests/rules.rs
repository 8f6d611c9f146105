use tbg_sim::components::OrderKind;
use tbg_sim::lod::SimLod;
use tbg_sim::rules::{may_fire, morale_terms, movement_pace, order_drive, rout, Drive, Pace};

#[test]
fn test_rout_when_broken() {
    let morale = 0.1f32;
    let order = rout(OrderKind::Hold, morale < 0.2);
    assert_eq!(order, OrderKind::Retreat);
}

#[test]
fn rout_keeps_order_of_steady_squad() {
    assert_eq!(rout(OrderKind::MoveTo, false), OrderKind::MoveTo);
    assert_eq!(rout(OrderKind::AttackMove, true), OrderKind::Retreat);
    let once = rout(OrderKind::AttackMove, true);
    assert_eq!(rout(once, true), once);
}

#[test]
fn order_drive_rules() {
    assert_eq!(order_drive(OrderKind::MoveTo, false, false), Drive::FullSpeedToTarget);
    assert_eq!(order_drive(OrderKind::AttackMove, false, false), Drive::ReducedSpeedToTarget);
    assert_eq!(order_drive(OrderKind::Hold, false, false), Drive::Stop);
    assert_eq!(order_drive(OrderKind::Retreat, false, false), Drive::Stop);
    assert_eq!(order_drive(OrderKind::MoveTo, true, false), Drive::Stop);
    assert_eq!(order_drive(OrderKind::MoveTo, false, true), Drive::Stop);
}

#[test]
fn movement_pace_rules() {
    assert_eq!(movement_pace(true, false, true, false), Pace::Frozen);
    assert_eq!(movement_pace(false, true, false, true), Pace::Frozen);
    assert_eq!(movement_pace(false, false, true, true), Pace::Suppressed);
    assert_eq!(movement_pace(false, false, false, true), Pace::Shaken);
    assert_eq!(movement_pace(false, false, false, false), Pace::Steady);
}

#[test]
fn morale_terms_rules() {
    let pinned = morale_terms(true, true, false, false, true, false, false);
    assert!(pinned.pinned_loss);
    assert!(!pinned.suppressed_loss);
    assert!(!pinned.recovery);

    let suppressed = morale_terms(false, true, true, false, true, false, false);
    assert!(suppressed.suppressed_loss);
    assert!(suppressed.casualty_loss);
    assert!(!suppressed.panic_loss);
    assert!(!suppressed.recovery);

    let calm = morale_terms(false, false, false, false, true, false, false);
    assert!(calm.recovery);
    assert!(!calm.broken_recovery);

    let broken = morale_terms(false, false, true, true, true, true, true);
    assert!(!broken.recovery);
    assert!(broken.panic_loss);
    assert!(broken.broken_recovery);
}

#[test]
fn fire_eligibility() {
    assert!(may_fire(true, false, false, SimLod::High, 3));
    assert!(!may_fire(false, false, false, SimLod::High, 0));
    assert!(!may_fire(true, true, false, SimLod::High, 0));
    assert!(!may_fire(true, false, true, SimLod::High, 0));
    assert!(may_fire(true, false, false, SimLod::Medium, 2));
    assert!(!may_fire(true, false, false, SimLod::Medium, 3));
    assert!(!may_fire(true, false, false, SimLod::Low, 2));
    assert!(may_fire(true, false, false, SimLod::Low, 8));
}
