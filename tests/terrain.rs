use tbg_sim::terrain::{clamp_to_grid, promote, TerrainLayer, TerrainType};

#[test]
fn test_terrain_grid_creation() {
    let layer = TerrainLayer::new(100, 100);
    assert_eq!(layer.width(), 100);
    assert_eq!(layer.height(), 100);
    assert_eq!(layer.type_codes().len(), 10000);
}

#[test]
fn test_world_to_grid() {
    // 100 × 100 cells of size 2: the origin is at (-100, -100)
    let origin = -(100.0f32 * 2.0) / 2.0;
    let g = ((0.0f32 - origin) / 2.0).floor() as i64;
    assert_eq!(clamp_to_grid(g, 100), 50);
    assert_eq!(clamp_to_grid(-3, 100), 0);
    assert_eq!(clamp_to_grid(250, 100), 99);
}

#[test]
fn promotion_rules() {
    assert_eq!(promote(TerrainType::Road, true, true, true), TerrainType::Crater);
    assert_eq!(promote(TerrainType::Forest, false, true, true), TerrainType::Rubble);
    assert_eq!(promote(TerrainType::Open, false, true, true), TerrainType::Rough);
    assert_eq!(promote(TerrainType::Open, false, false, true), TerrainType::Rough);
    assert_eq!(promote(TerrainType::Forest, false, false, true), TerrainType::Forest);
    assert_eq!(promote(TerrainType::Mud, false, true, true), TerrainType::Mud);
    assert_eq!(promote(TerrainType::Open, false, false, false), TerrainType::Open);
}

#[test]
fn terrain_codes() {
    let all = [
        TerrainType::Open,
        TerrainType::Rough,
        TerrainType::Mud,
        TerrainType::Crater,
        TerrainType::Trench,
        TerrainType::Water,
        TerrainType::Road,
        TerrainType::Forest,
        TerrainType::Rubble,
    ];
    for (k, t) in all.iter().enumerate() {
        assert_eq!(t.code() as usize, k);
    }
    assert!(TerrainType::Forest.blocks_los());
    assert!(!TerrainType::Rubble.blocks_los());
}

#[test]
fn layer_set_get_and_promote() {
    let mut layer = TerrainLayer::new(4, 3);
    assert_eq!(layer.cell_index(1, 2), Some(9));
    assert_eq!(layer.cell_index(4, 0), None);
    assert_eq!(layer.get(3, 2), Some(TerrainType::Open));
    assert_eq!(layer.get(0, 3), None);
    layer.set(2, 1, TerrainType::Forest);
    assert_eq!(layer.get(2, 1), Some(TerrainType::Forest));
    layer.promote_cell(2, 1, false, true, true);
    assert_eq!(layer.get(2, 1), Some(TerrainType::Rubble));
    layer.promote_cell(0, 0, false, false, true);
    assert_eq!(layer.get(0, 0), Some(TerrainType::Rough));
    layer.set(9, 9, TerrainType::Water);
    assert_eq!(layer.type_codes(), vec![1, 0, 0, 0, 0, 0, 8, 0, 0, 0, 0, 0]);
}

#[test]
fn patches_and_roads() {
    let mut layer = TerrainLayer::new(7, 7);
    layer.add_patch(3, 3, 1, true);
    assert_eq!(layer.get(3, 3), Some(TerrainType::Forest));
    assert_eq!(layer.get(3, 2), Some(TerrainType::Forest));
    assert_eq!(layer.get(4, 3), Some(TerrainType::Forest));
    assert_eq!(layer.get(4, 4), Some(TerrainType::Open));
    layer.add_patch(3, 3, 2, false);
    assert_eq!(layer.get(3, 3), Some(TerrainType::Forest));
    assert_eq!(layer.get(4, 4), Some(TerrainType::Rough));
    assert_eq!(layer.get(5, 5), Some(TerrainType::Open));
    layer.add_patch(0, 0, 1, true);
    assert_eq!(layer.get(0, 0), Some(TerrainType::Forest));
    assert_eq!(layer.get(1, 1), Some(TerrainType::Open));
    layer.add_road_row(6);
    for x in 0..7 {
        assert_eq!(layer.get(x, 6), Some(TerrainType::Road));
    }

    let featured = TerrainLayer::new_with_features(100, 100);
    assert_eq!(featured.get(10, 50), Some(TerrainType::Road));
    assert_eq!(featured.get(10, 49), Some(TerrainType::Road));
    assert_eq!(featured.get(25, 25), Some(TerrainType::Forest));
    assert_eq!(featured.get(33, 33), Some(TerrainType::Rough));
    assert_eq!(featured.get(0, 0), Some(TerrainType::Open));
}
