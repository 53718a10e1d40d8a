use space_time::grid::{Building, Direction, Grid, TileCoords, GRID_SIZE};

#[test]
fn off_grid_lookups_are_none() {
    let g = Grid::with_interior_tiles();
    let outside = [
        TileCoords::new(-1, 0),
        TileCoords::new(0, -1),
        TileCoords::new(10, 5),
        TileCoords::new(5, 10),
        TileCoords::new(i32::MIN, i32::MAX),
        TileCoords::new(i32::MAX, 0),
    ];
    for pos in outside {
        assert!(!g.get_tile(pos));
        assert_eq!(g.get_building(pos), None);
    }
}

#[test]
fn off_grid_insert_changes_nothing() {
    let mut g = Grid::with_interior_tiles();
    assert_eq!(g.insert_building(TileCoords::new(-1, 3), Building::Pipe(0)), None);
    assert_eq!(g.remove_building(TileCoords::new(3, 10)), None);
    for i in 0..g.buildings.len() {
        assert_eq!(g.buildings[i], None);
    }
}

#[test]
fn interior_tiles_only() {
    let g = Grid::with_interior_tiles();
    assert!(!g.get_tile(TileCoords::new(0, 0)));
    assert!(!g.get_tile(TileCoords::new(0, 3)));
    assert!(!g.get_tile(TileCoords::new(9, 9)));
    assert!(!g.get_tile(TileCoords::new(4, 9)));
    assert!(g.get_tile(TileCoords::new(1, 1)));
    assert!(g.get_tile(TileCoords::new(8, 8)));
    assert!(g.get_tile(TileCoords::new(1, 3)));
    let mut n = 0;
    for i in 0..g.tiles.len() {
        if g.tiles[i] {
            n += 1;
        }
    }
    assert_eq!(n, (GRID_SIZE - 2) * (GRID_SIZE - 2));
}

#[test]
fn insert_and_remove_hand_back_old() {
    let mut g = Grid::with_interior_tiles();
    let pos = TileCoords::new(2, 7);
    assert_eq!(g.insert_building(pos, Building::Pipe(4)), None);
    assert_eq!(g.get_building(pos), Some(Building::Pipe(4)));
    assert_eq!(g.buildings[7 * GRID_SIZE + 2], Some(Building::Pipe(4)));
    assert_eq!(g.insert_building(pos, Building::Machine(1)), Some(Building::Pipe(4)));
    assert_eq!(g.remove_building(pos), Some(Building::Machine(1)));
    assert_eq!(g.get_building(pos), None);
    assert_eq!(g.remove_building(pos), None);
}

#[test]
fn set_tile_marks_one_cell() {
    let mut g = Grid::empty();
    g.set_tile(TileCoords::new(3, 4), true);
    assert!(g.get_tile(TileCoords::new(3, 4)));
    assert!(!g.get_tile(TileCoords::new(4, 3)));
}

#[test]
fn direction_helpers() {
    assert_eq!(
        Direction::iter(),
        vec![Direction::Right, Direction::Up, Direction::Left, Direction::Down]
    );
    assert_eq!(Direction::Right.flip(), Direction::Left);
    assert_eq!(Direction::Up.flip(), Direction::Down);
    assert_eq!(Direction::Left.flip(), Direction::Right);
    assert_eq!(Direction::Down.flip(), Direction::Up);
    assert_eq!(Direction::Right.as_ivec2(), (1, 0));
    assert_eq!(Direction::Up.as_ivec2(), (0, 1));
    assert_eq!(Direction::Left.as_ivec2(), (-1, 0));
    assert_eq!(Direction::Down.as_ivec2(), (0, -1));
}

#[test]
fn neighbor_and_direction_to() {
    let c = TileCoords::new(3, 3);
    assert_eq!(c.neighbor(Direction::Right), Some(TileCoords::new(4, 3)));
    assert_eq!(c.neighbor(Direction::Down), Some(TileCoords::new(3, 2)));
    assert_eq!(TileCoords::new(i32::MAX, 0).neighbor(Direction::Right), None);
    assert_eq!(TileCoords::new(0, i32::MIN).neighbor(Direction::Down), None);
    assert_eq!(c.direction_to(&TileCoords::new(3, 5)), Direction::Up);
    assert_eq!(c.direction_to(&TileCoords::new(3, 1)), Direction::Down);
    assert_eq!(c.direction_to(&TileCoords::new(3, 3)), Direction::Down);
    assert_eq!(c.direction_to(&TileCoords::new(7, 0)), Direction::Right);
    assert_eq!(c.direction_to(&TileCoords::new(0, 9)), Direction::Left);
}
