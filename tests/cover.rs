use tbg_sim::cover::{best_cover, CoverType};

#[test]
fn test_cover_zones() {
    let zones = [(0.0f32, 0.0f32, 10.0f32, CoverType::Medium), (20.0, 0.0, 5.0, CoverType::Heavy)];
    let cover_at = |x: f32, y: f32| {
        let covering: Vec<CoverType> = zones
            .iter()
            .filter(|(zx, zy, r, _)| ((x - zx).powi(2) + (y - zy).powi(2)).sqrt() <= *r)
            .map(|z| z.3)
            .collect();
        best_cover(&covering)
    };
    assert_eq!(cover_at(0.0, 0.0), CoverType::Medium);
    assert_eq!(cover_at(5.0, 0.0), CoverType::Medium);
    assert_eq!(cover_at(20.0, 0.0), CoverType::Heavy);
    assert_eq!(cover_at(100.0, 100.0), CoverType::NoCover);
}

#[test]
fn best_cover_takes_highest_class() {
    assert_eq!(best_cover(&vec![]), CoverType::NoCover);
    assert_eq!(best_cover(&vec![CoverType::Light, CoverType::Heavy, CoverType::Medium]), CoverType::Heavy);
    assert_eq!(best_cover(&vec![CoverType::Light, CoverType::Light]), CoverType::Light);
    assert_eq!(CoverType::NoCover.rank(), 0);
    assert_eq!(CoverType::Heavy.rank(), 3);
}
