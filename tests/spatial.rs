use tbg_sim::spatial::{cell_id_of, GridInput, SpatialGrid};

#[test]
fn grid_insert_and_cells() {
    let mut g: SpatialGrid<u32> = SpatialGrid::new();
    assert_eq!(g.total_count(), 0);
    g.insert(0, 0, 1, 10);
    g.insert(0, 0, 2, 20);
    g.insert(-1, 3, 3, 30);
    assert_eq!(g.total_count(), 3);
    assert_eq!(g.cell_count(), 2);
    assert_eq!(g.cell(0, 0), &[(1, 10), (2, 20)]);
    assert_eq!(g.cell(-1, 3), &[(3, 30)]);
    assert!(g.cell(5, 5).is_empty());
    g.clear();
    assert_eq!(g.total_count(), 0);
    assert_eq!(g.cell_count(), 0);
}

#[test]
fn reinsert_moves_the_entity() {
    let mut g: SpatialGrid<u32> = SpatialGrid::new();
    g.insert(0, 0, 7, 1);
    g.insert(0, 0, 8, 2);
    // same entity, same cell: its entry is replaced, not doubled
    g.insert(0, 0, 7, 3);
    assert_eq!(g.total_count(), 2);
    assert_eq!(g.cell(0, 0), &[(8, 2), (7, 3)]);
    // same entity, another cell: it leaves the old one
    g.insert(4, -2, 7, 4);
    assert_eq!(g.total_count(), 2);
    assert_eq!(g.cell(0, 0), &[(8, 2)]);
    assert_eq!(g.cell(4, -2), &[(7, 4)]);
}

#[test]
fn cell_ids_are_distinct() {
    assert_ne!(cell_id_of(0, 1), cell_id_of(1, 0));
    assert_ne!(cell_id_of(-1, 0), cell_id_of(0, -1));
    assert_ne!(cell_id_of(i32::MIN, i32::MAX), cell_id_of(i32::MAX, i32::MIN));
    assert_eq!(cell_id_of(i32::MIN, i32::MIN), 0);
    assert_eq!(cell_id_of(i32::MAX, i32::MAX), u64::MAX);
}

#[test]
fn rebuild_counts_alive_only() {
    let mut inputs = Vec::new();
    for i in 0..200u32 {
        inputs.push(GridInput {
            cell_x: (i % 7) as i32 - 3,
            cell_y: (i / 50) as i32,
            alive: i % 10 != 0,
            key: i as u64,
            item: i,
        });
    }
    let mut g: SpatialGrid<u32> = SpatialGrid::new();
    g.insert(9, 9, 999, 999);
    g.rebuild(&inputs);
    assert_eq!(g.total_count(), 180);
    assert!(g.cell(9, 9).is_empty());
    // cell (-3, 0) holds the alive i < 50 with i % 7 == 0, in input order
    let expected: Vec<(u64, u32)> =
        [7u32, 14, 21, 28, 35, 42, 49].iter().map(|&i| (i as u64, i)).collect();
    assert_eq!(g.cell(-3, 0), expected.as_slice());
}

#[test]
fn rebuild_of_mass_spawn_holds_every_squad() {
    let mut inputs = Vec::new();
    for i in 0..200u32 {
        inputs.push(GridInput { cell_x: (i % 20) as i32, cell_y: 0, alive: true, key: i as u64, item: i });
    }
    let mut g: SpatialGrid<u32> = SpatialGrid::new();
    g.rebuild(&inputs);
    assert_eq!(g.total_count(), 200);
    assert_eq!(g.cell_count(), 20);
}

#[test]
fn rebuild_with_a_repeated_entity_keeps_the_last() {
    let inputs = vec![
        GridInput { cell_x: 0, cell_y: 0, alive: true, key: 1, item: 'a' },
        GridInput { cell_x: 1, cell_y: 0, alive: true, key: 1, item: 'b' },
    ];
    let mut g: SpatialGrid<char> = SpatialGrid::new();
    g.rebuild(&inputs);
    assert_eq!(g.total_count(), 1);
    assert!(g.cell(0, 0).is_empty());
    assert_eq!(g.cell(1, 0), &[(1, 'b')]);
}

#[test]
fn entries_around_scans_the_square_column_by_column() {
    let mut g: SpatialGrid<u32> = SpatialGrid::new();
    g.insert(0, 0, 1, 1);
    g.insert(1, -1, 2, 2);
    g.insert(-1, 1, 3, 3);
    g.insert(0, 0, 4, 4);
    g.insert(2, 0, 5, 5);
    g.insert(-5, -5, 6, 6);
    // cells (-1..=1) × (-1..=1), x-major: (-1,1) then (0,0) then (1,-1)
    let items = |v: Vec<(u64, u32)>| v.into_iter().map(|e| e.1).collect::<Vec<u32>>();
    assert_eq!(items(g.entries_around(0, 0, 1)), vec![3, 1, 4, 2]);
    assert_eq!(items(g.entries_around(0, 0, 0)), vec![1, 4]);
    assert_eq!(items(g.entries_around(2, 0, 0)), vec![5]);
    assert!(g.entries_around(10, 10, 2).is_empty());
    assert_eq!(g.entries_around(0, 0, 5).len(), 6);
}
