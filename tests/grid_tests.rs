use robotics_lib::dstar::{DStarLite, GridMap};

#[test]
fn grid_cells_are_stored_row_by_row() {
    let mut map = GridMap::new(3, 2);
    map.set_obstacle(2, 1, true);
    assert_eq!(map.obstacles, vec![false, false, false, false, false, true]);
    map.set_obstacle(1, 0, true);
    assert_eq!(map.obstacles, vec![false, true, false, false, false, true]);
}

#[test]
fn grid_set_leaves_other_cells() {
    let mut map = GridMap::new(4, 4);
    map.set_obstacle(1, 2, true);
    for x in 0..4 {
        for y in 0..4 {
            assert_eq!(map.is_obstacle(x, y), x == 1 && y == 2);
        }
    }
}

#[test]
fn grid_set_just_past_edge_is_ignored() {
    let mut map = GridMap::new(4, 3);
    map.set_obstacle(4, 0, true);
    map.set_obstacle(0, 3, true);
    assert!(map.obstacles.iter().all(|b| !b));
    assert!(map.is_obstacle(4, 0));
    assert!(map.is_obstacle(0, 3));
    assert!(!map.is_obstacle(3, 2));
}

#[test]
fn grid_zero_size_blocks_everything() {
    let map = GridMap::new(0, 0);
    assert!(map.is_obstacle(0, 0));
}

#[test]
fn planner_path_is_start_then_goal() {
    let mut ds = DStarLite::new(6, 4);
    ds.map.set_obstacle(2, 2, true);
    ds.compute_shortest_path();
    assert_eq!(ds.path, vec![(0, 0), (5, 3)]);
    assert!(ds.map.is_obstacle(2, 2));
    assert!(!ds.map.is_obstacle(2, 1));
}

#[test]
fn planner_new_grid_is_empty() {
    let ds = DStarLite::new(3, 7);
    assert_eq!(ds.map.obstacles.len(), 21);
    assert!(ds.map.obstacles.iter().all(|b| !b));
}
