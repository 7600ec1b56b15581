use mbw::map::{Position, Tile, TileMap};
use mbw::path::PathCache;

fn open_map(w: usize, h: usize) -> TileMap {
    TileMap::fill(w, h, Tile::Empty)
}

fn is_adjacent(a: &Position, b: &Position) -> bool {
    (a.x == b.x && (a.y + 1 == b.y || b.y + 1 == a.y)) || (a.y == b.y && (a.x + 1 == b.x || b.x + 1 == a.x))
}

#[test]
fn fill_sets_every_cell() {
    let m = TileMap::fill(3, 2, Tile::Building);
    assert_eq!(m.width, 3);
    assert_eq!(m.height, 2);
    assert_eq!(m.tiles.len(), 3);
    for column in &m.tiles {
        assert_eq!(column.len(), 2);
        assert!(column.iter().all(|t| *t == Tile::Building));
    }
}

#[test]
fn walkability_by_tile() {
    assert!(Tile::Empty.is_walkable());
    assert!(Tile::TestCenter.is_walkable());
    assert!(Tile::VaccineCenter.is_walkable());
    assert!(Tile::Door(None).is_walkable());
    assert!(!Tile::Door(Some(5)).is_walkable());
    assert!(!Tile::Building.is_walkable());
    assert!(!Tile::RoadBlock.is_walkable());
    assert!(!Tile::MaskCampain(480).is_walkable());
    assert!(!Tile::AntivaxCampain(480).is_walkable());
}

#[test]
fn can_walk_checks_bounds() {
    let m = open_map(4, 4);
    assert!(m.can_walk(&Position::new(3, 3)));
    assert!(!m.can_walk(&Position::new(4, 0)));
    assert!(!m.can_walk(&Position::new(0, 4)));
    assert!(m.in_bounds(&Position::new(0, 0)));
    assert!(!m.in_bounds(&Position::new(9, 9)));
}

#[test]
fn set_tile_changes_one_cell() {
    let mut m = open_map(3, 3);
    m.set_tile(&Position::new(1, 2), Tile::RoadBlock);
    assert_eq!(*m.get_tile(&Position::new(1, 2)), Tile::RoadBlock);
    assert_eq!(*m.get_tile(&Position::new(2, 1)), Tile::Empty);
    assert!(!m.can_walk(&Position::new(1, 2)));
}

#[test]
fn neighbors_in_corner_and_middle() {
    let mut m = open_map(3, 3);
    let corner = m.neighbors(&Position::new(0, 0));
    assert_eq!(corner.len(), 2);
    assert!(corner.iter().all(|(_, c)| *c == 1));
    m.set_tile(&Position::new(1, 0), Tile::Building);
    let middle = m.neighbors(&Position::new(1, 1));
    assert_eq!(middle.len(), 3);
    assert!(!middle.iter().any(|(p, _)| *p == Position::new(1, 0)));
}

#[test]
fn path_is_shortest_and_runs_end_to_start() {
    let mut m = open_map(5, 5);
    // a wall with one gap at the bottom
    for y in 0..4 {
        m.set_tile(&Position::new(2, y), Tile::Building);
    }
    let mut cache = PathCache::new();
    let start = Position::new(0, 0);
    let end = Position::new(4, 0);
    let route = cache.get_path(&m, start, end).expect("a route exists");
    // 4 right, 4 down and up again: 12 steps, 13 cells
    assert_eq!(route.len(), 13);
    assert_eq!(route[0], end);
    assert_eq!(*route.last().unwrap(), start);
    for w in route.windows(2) {
        assert!(is_adjacent(&w[0], &w[1]));
        assert!(m.can_walk(&w[1]));
    }
}

#[test]
fn path_to_self_is_one_cell() {
    let m = open_map(3, 3);
    let mut cache = PathCache::new();
    let p = Position::new(1, 1);
    assert_eq!(cache.get_path(&m, p, p), Some(vec![p]));
}

#[test]
fn unreachable_is_none_and_cached() {
    let mut m = open_map(3, 3);
    for y in 0..3 {
        m.set_tile(&Position::new(1, y), Tile::Building);
    }
    let mut cache = PathCache::new();
    assert_eq!(cache.get_path(&m, Position::new(0, 0), Position::new(2, 2)), None);
    // the cached answer is served even for another map until invalidated
    let open = open_map(3, 3);
    assert_eq!(cache.get_path(&open, Position::new(0, 0), Position::new(2, 2)), None);
    cache.invalidate();
    assert!(cache.get_path(&open, Position::new(0, 0), Position::new(2, 2)).is_some());
}

#[test]
fn repeated_query_returns_same_route() {
    let m = open_map(6, 6);
    let mut cache = PathCache::new();
    let a = cache.get_path(&m, Position::new(0, 0), Position::new(5, 5));
    let b = cache.get_path(&m, Position::new(0, 0), Position::new(5, 5));
    assert_eq!(a, b);
    assert_eq!(a.unwrap().len(), 11);
}

#[test]
fn closing_the_only_door_removes_the_route() {
    let mut m = open_map(5, 3);
    for y in 0..3 {
        m.set_tile(&Position::new(2, y), Tile::Building);
    }
    m.set_tile(&Position::new(2, 1), Tile::Door(None));
    let mut cache = PathCache::new();
    let start = Position::new(0, 1);
    let end = Position::new(4, 1);
    assert_eq!(cache.get_path(&m, start, end).unwrap().len(), 5);
    m.set_tile(&Position::new(2, 1), Tile::Door(Some(1440)));
    cache.invalidate();
    assert_eq!(cache.get_path(&m, start, end), None);
    m.set_tile(&Position::new(2, 1), Tile::Door(None));
    cache.invalidate();
    assert_eq!(cache.get_path(&m, start, end).unwrap().len(), 5);
}

#[test]
fn roadblock_forces_a_detour() {
    let m0 = open_map(3, 3);
    let mut cache = PathCache::new();
    let start = Position::new(0, 1);
    let end = Position::new(2, 1);
    assert_eq!(cache.get_path(&m0, start, end).unwrap().len(), 3);
    let mut m = m0.clone();
    m.set_tile(&Position::new(1, 1), Tile::RoadBlock);
    cache.invalidate();
    let detour = cache.get_path(&m, start, end).unwrap();
    assert_eq!(detour.len(), 5);
    assert!(!detour.contains(&Position::new(1, 1)));
}
