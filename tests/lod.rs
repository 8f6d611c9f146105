use tbg_sim::lod::{SimLod, SimTick};

#[test]
fn test_sim_tick_lod_scheduling() {
    let tick = SimTick(0);
    assert!(tick.should_update(SimLod::High));
    assert!(tick.should_update(SimLod::Medium));
    assert!(tick.should_update(SimLod::Low));

    let tick = SimTick(1);
    assert!(tick.should_update(SimLod::High));
    assert!(!tick.should_update(SimLod::Medium));
    assert!(!tick.should_update(SimLod::Low));

    let tick = SimTick(2);
    assert!(tick.should_update(SimLod::High));
    assert!(tick.should_update(SimLod::Medium));
    assert!(!tick.should_update(SimLod::Low));

    let tick = SimTick(4);
    assert!(tick.should_update(SimLod::High));
    assert!(tick.should_update(SimLod::Medium));
    assert!(tick.should_update(SimLod::Low));
}

#[test]
fn lod_intervals() {
    assert_eq!(SimLod::High.tick_interval(), 1);
    assert_eq!(SimLod::Medium.tick_interval(), 2);
    assert_eq!(SimLod::Low.tick_interval(), 4);
}

#[test]
fn lod_updates_once_per_interval() {
    for lod in [SimLod::High, SimLod::Medium, SimLod::Low] {
        let n = lod.tick_interval();
        for start in 0u64..16 {
            let hits = (start..start + n).filter(|t| lod.should_update(*t)).count();
            assert_eq!(hits, 1);
        }
    }
    let updates: Vec<u64> = (0u64..12).filter(|t| SimLod::Low.should_update(*t)).collect();
    assert_eq!(updates, vec![0, 4, 8]);
}

#[test]
fn lod_from_distance_classes() {
    assert_eq!(SimLod::from_distance(true, true), SimLod::High);
    assert_eq!(SimLod::from_distance(false, true), SimLod::Medium);
    assert_eq!(SimLod::from_distance(false, false), SimLod::Low);
}

#[test]
fn test_lod_assignment() {
    // reference point (0, 0), high radius 100, medium radius 200
    let high_sq = 100.0f32 * 100.0;
    let med_sq = 200.0f32 * 200.0;
    let lod_at = |x: f32| {
        let d = x * x;
        SimLod::from_distance(d <= high_sq, d <= med_sq)
    };
    assert_eq!(lod_at(0.0), SimLod::High);
    assert_eq!(lod_at(150.0), SimLod::Medium);
    assert_eq!(lod_at(300.0), SimLod::Low);
}

#[test]
fn sim_tick_increment_wraps() {
    let mut t = SimTick(5);
    t.increment();
    assert_eq!(t.0, 6);
    let mut t = SimTick(u64::MAX);
    t.increment();
    assert_eq!(t.0, 0);
}
