use tapado::grid::{CellType, GridMap, GRID_H, GRID_W};

#[test]
fn default_maze_has_one_goal_in_far_corner() {
    let g = GridMap::default();
    let mut goals = Vec::new();
    for y in 0..GRID_H {
        for x in 0..GRID_W {
            if g.cell(x, y) == CellType::Goal {
                goals.push((x, y));
            }
        }
    }
    assert_eq!(goals, vec![(9, 9)]);
    assert_eq!(g.cell(0, 0), CellType::Empty);
    assert!(g.is_walkable(0, 0));
}

#[test]
fn default_maze_walls_match_layout() {
    let g = GridMap::default();
    assert_eq!(g.cell(3, 0), CellType::Wall);
    assert_eq!(g.cell(1, 1), CellType::Wall);
    assert_eq!(g.cell(8, 2), CellType::Wall);
    assert_eq!(g.cell(2, 9), CellType::Wall);
    assert_eq!(g.cell(9, 0), CellType::Empty);
    let walls = (0..GRID_H)
        .flat_map(|y| (0..GRID_W).map(move |x| (x, y)))
        .filter(|&(x, y)| g.cell(x, y) == CellType::Wall)
        .count();
    assert_eq!(walls, 25);
}

#[test]
fn walkable_is_not_wall() {
    let g = GridMap::default();
    for y in 0..GRID_H {
        for x in 0..GRID_W {
            assert_eq!(g.is_walkable(x, y), g.cell(x, y) != CellType::Wall);
        }
    }
    assert!(!g.is_walkable(3, 0));
    assert!(g.is_walkable(9, 9));
}
