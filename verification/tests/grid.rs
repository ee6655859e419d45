use particle_sim::grid::SpatialGrid;

#[test]
fn new_grid_is_empty() {
    let g = SpatialGrid::new(4, 3);
    assert_eq!(g.cols, 4);
    assert_eq!(g.rows, 3);
    assert!(g.cell_entities((0, 0)).is_empty());
    assert!(g.get_neighbors((1, 1)).is_empty());
}

#[test]
fn insert_keeps_insertion_order_per_cell() {
    let mut g = SpatialGrid::new(4, 4);
    g.insert((1, 2), 10);
    g.insert((1, 2), 11);
    g.insert((3, 0), 12);
    assert_eq!(g.cell_entities((1, 2)), vec![10, 11]);
    assert_eq!(g.cell_entities((3, 0)), vec![12]);
    assert!(g.cell_entities((0, 0)).is_empty());
}

#[test]
fn neighbors_cover_the_three_by_three_block_in_order() {
    let mut g = SpatialGrid::new(5, 5);
    // one particle per cell, id = 10 * x + y
    for x in 0..5 {
        for y in 0..5 {
            g.insert((x, y), (10 * x + y) as u64);
        }
    }
    // dx outer, dy inner
    assert_eq!(
        g.get_neighbors((2, 2)),
        vec![11, 12, 13, 21, 22, 23, 31, 32, 33]
    );
}

#[test]
fn neighbors_wrap_around_the_edges() {
    let mut g = SpatialGrid::new(5, 4);
    for x in 0..5 {
        for y in 0..4 {
            g.insert((x, y), (10 * x + y) as u64);
        }
    }
    // the corner (0, 0) sees the last column and the last row
    assert_eq!(
        g.get_neighbors((0, 0)),
        vec![43, 40, 41, 3, 0, 1, 13, 10, 11]
    );
    // cells outside the grid are wrapped too
    assert_eq!(g.get_neighbors((5, 4)), g.get_neighbors((0, 0)));
    assert_eq!(g.get_neighbors((-1, -1)), g.get_neighbors((4, 3)));
}

#[test]
fn small_grid_visits_a_cell_once_per_offset() {
    let mut g = SpatialGrid::new(1, 1);
    g.insert((0, 0), 7);
    assert_eq!(g.get_neighbors((0, 0)), vec![7; 9]);
    let mut g2 = SpatialGrid::new(2, 1);
    g2.insert((0, 0), 1);
    g2.insert((1, 0), 2);
    assert_eq!(g2.get_neighbors((0, 0)), vec![2, 2, 2, 1, 1, 1, 2, 2, 2]);
}

#[test]
fn rebuild_replaces_every_registration() {
    let mut g = SpatialGrid::new(3, 3);
    g.insert((0, 0), 1);
    g.insert((2, 2), 2);
    g.rebuild(&vec![((1, 1), 5), ((0, 0), 6), ((1, 1), 7)]);
    assert_eq!(g.cols, 3);
    assert_eq!(g.rows, 3);
    assert_eq!(g.cell_entities((1, 1)), vec![5, 7]);
    assert_eq!(g.cell_entities((0, 0)), vec![6]);
    assert!(g.cell_entities((2, 2)).is_empty());
}

#[test]
fn clear_forgets_everything() {
    let mut g = SpatialGrid::new(3, 3);
    g.insert((0, 0), 1);
    g.insert((1, 2), 2);
    g.clear();
    assert!(g.cell_entities((0, 0)).is_empty());
    assert!(g.cell_entities((1, 2)).is_empty());
    assert!(g.get_neighbors((1, 1)).is_empty());
}

#[test]
fn particles_in_adjacent_cells_see_each_other() {
    let mut g = SpatialGrid::new(6, 6);
    // 0 and 5 are adjacent across the wrap
    g.rebuild(&vec![((0, 3), 100), ((5, 2), 200), ((3, 3), 300)]);
    assert!(g.get_neighbors((0, 3)).contains(&200));
    assert!(g.get_neighbors((5, 2)).contains(&100));
    assert!(!g.get_neighbors((0, 3)).contains(&300));
    assert!(!g.get_neighbors((3, 3)).contains(&100));
}

#[test]
fn negative_sizes_wrap_like_their_magnitude() {
    let mut g = SpatialGrid::new(-3, 3);
    let mut h = SpatialGrid::new(3, 3);
    for grid in [&mut g, &mut h] {
        grid.insert((2, 1), 5);
        grid.insert((0, 1), 6);
    }
    // (0 - 1) wraps to column 2, as with three columns
    assert!(g.get_neighbors((0, 1)).contains(&5));
    assert_eq!(g.get_neighbors((0, 1)), h.get_neighbors((0, 1)));
}
