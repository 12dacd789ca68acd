use std::collections::HashSet;

use mcguffin_quest::colors::{AETHER, BLOOD_BG, DEFAULT_BG, FLOOR_BG, FLOOR_FG, LIT_BG, MEM_FG, STAIRS_FG, WALL_BG, WALL_FG};
use mcguffin_quest::components::EntityId;
use mcguffin_quest::map::{draw_map, is_inbounds, is_revealed_and_wall, wall_glyph, Exit, GameMap, TileType, MAPCOUNT, MAPHEIGHT, MAPWIDTH};

/// A map of `w` by `h` tiles, all walls, nothing revealed.
fn blank(w: i32, h: i32) -> GameMap {
    let n = (w * h) as usize;
    GameMap {
        tiles: vec![TileType::Wall; n],
        width: w,
        height: h,
        revealed_tiles: vec![false; n],
        visible_tiles: vec![false; n],
        blocked: vec![false; n],
        depth: 1,
        bloodstains: HashSet::new(),
        tile_content: vec![Vec::new(); n],
    }
}

#[test]
fn new_map_is_solid_unseen_wall() {
    let m = GameMap::new(3);
    assert_eq!(m.width, 80);
    assert_eq!(m.height, 43);
    assert_eq!(MAPCOUNT, MAPWIDTH * MAPHEIGHT);
    assert_eq!(m.tiles.len(), 3440);
    assert!(m.tiles.iter().all(|t| *t == TileType::Wall));
    assert!(m.revealed_tiles.iter().all(|r| !*r));
    assert!(m.visible_tiles.iter().all(|r| !*r));
    assert!(m.blocked.iter().all(|r| !*r));
    assert!(m.tile_content.iter().all(|c| c.is_empty()));
    assert!(m.bloodstains.is_empty());
    assert_eq!(m.depth, 3);
}

#[test]
fn index_and_position_round_trip() {
    let m = GameMap::new(1);
    assert_eq!(m.xy_idx(3, 2), 163);
    assert_eq!(m.xy_idx(0, 0), 0);
    assert_eq!(m.xy_idx(79, 42), 3439);
    assert_eq!(m.idx_xy(163), (3, 2));
    assert_eq!(m.idx_xy(3439), (79, 42));
    for &(x, y) in &[(0, 0), (5, 7), (79, 0), (12, 42)] {
        let idx = m.xy_idx(x, y);
        assert_eq!(m.idx_xy(idx), (x, y));
    }
}

#[test]
fn opaque_tiles_are_walls() {
    let mut m = blank(5, 5);
    m.tiles[12] = TileType::Floor;
    m.tiles[13] = TileType::DownStairs;
    assert!(m.is_opaque(0));
    assert!(!m.is_opaque(12));
    assert!(!m.is_opaque(13));
}

#[test]
fn populate_blocked_marks_walls_only() {
    let mut m = blank(5, 5);
    m.tiles[12] = TileType::Floor;
    m.tiles[7] = TileType::DownStairs;
    m.blocked[12] = true;
    m.populate_blocked();
    for i in 0..25 {
        assert_eq!(m.blocked[i], m.tiles[i] == TileType::Wall);
    }
    assert!(!m.blocked[12]);
    assert!(!m.blocked[7]);
    assert!(m.blocked[0]);
}

#[test]
fn exits_of_an_open_tile_in_order() {
    let mut m = blank(5, 5);
    for y in 1..4 {
        for x in 1..4 {
            m.tiles[y * 5 + x] = TileType::Floor;
        }
    }
    m.populate_blocked();
    let exits = m.get_available_exits(12);
    let expected = vec![
        Exit { idx: 11, diagonal: false },
        Exit { idx: 13, diagonal: false },
        Exit { idx: 7, diagonal: false },
        Exit { idx: 17, diagonal: false },
        Exit { idx: 6, diagonal: true },
        Exit { idx: 8, diagonal: true },
        Exit { idx: 16, diagonal: true },
        Exit { idx: 18, diagonal: true },
    ];
    assert_eq!(exits, expected);
    // A corner of the open area only reaches its open neighbours.
    let corner = m.get_available_exits(6);
    assert_eq!(
        corner,
        vec![
            Exit { idx: 7, diagonal: false },
            Exit { idx: 11, diagonal: false },
            Exit { idx: 12, diagonal: true },
        ]
    );
    // From the corner of the grid, only the open diagonal tile is an exit.
    assert_eq!(m.get_available_exits(0), vec![Exit { idx: 6, diagonal: true }]);
    // A wall tile inside the map still lists its open neighbours.
    assert_eq!(m.get_available_exits(1), vec![Exit { idx: 6, diagonal: false }, Exit { idx: 7, diagonal: true }]);
}

#[test]
fn exit_validity_follows_edges_and_blocking() {
    let mut m = blank(5, 5);
    assert!(m.is_exit_valid(2, 2));
    m.blocked[12] = true;
    assert!(!m.is_exit_valid(2, 2));
    assert!(!m.is_exit_valid(0, 2));
    assert!(!m.is_exit_valid(2, 0));
    assert!(m.is_exit_valid(4, 4));
    assert!(!m.is_exit_valid(5, 4));
    assert!(!m.is_exit_valid(-1, 3));
}

#[test]
fn inbounds_checks() {
    let m = blank(5, 4);
    assert!(is_inbounds(&m, 0, 0));
    assert!(is_inbounds(&m, 4, 3));
    assert!(!is_inbounds(&m, 5, 3));
    assert!(!is_inbounds(&m, 4, 4));
    assert!(!is_inbounds(&m, -1, 0));
    assert!(!is_inbounds(&m, 0, -1));
}

#[test]
fn wall_glyphs_join_revealed_neighbours() {
    let mut m = blank(5, 5);
    // A lone revealed wall among floors.
    for i in 0..25 {
        m.tiles[i] = TileType::Floor;
    }
    m.tiles[12] = TileType::Wall;
    m.revealed_tiles[12] = true;
    assert!(is_revealed_and_wall(&m, 2, 2));
    assert!(!is_revealed_and_wall(&m, 1, 2));
    assert_eq!(wall_glyph(&m, 2, 2), 9);
    // North and south neighbours: a vertical line.
    m.tiles[7] = TileType::Wall;
    m.tiles[17] = TileType::Wall;
    m.revealed_tiles[7] = true;
    m.revealed_tiles[17] = true;
    assert_eq!(wall_glyph(&m, 2, 2), 186);
    // An unrevealed neighbour does not count.
    m.tiles[11] = TileType::Wall;
    assert_eq!(wall_glyph(&m, 2, 2), 186);
    // All four: a cross.
    m.revealed_tiles[11] = true;
    m.tiles[13] = TileType::Wall;
    m.revealed_tiles[13] = true;
    assert_eq!(wall_glyph(&m, 2, 2), 206);
    // West only.
    let mut w = blank(3, 3);
    for i in 0..9 {
        w.tiles[i] = TileType::Floor;
    }
    w.tiles[3] = TileType::Wall;
    w.revealed_tiles[3] = true;
    w.tiles[4] = TileType::Wall;
    assert_eq!(wall_glyph(&w, 1, 1), 181);
    // Walls off the map count for nothing.
    assert_eq!(wall_glyph(&w, 0, 0), 210);
}

#[test]
fn draw_map_shows_each_kind_of_tile() {
    let mut m = GameMap::new(1);
    // Unrevealed: aether.
    // Revealed, visible floor.
    m.tiles[81] = TileType::Floor;
    m.revealed_tiles[81] = true;
    m.visible_tiles[81] = true;
    // Revealed, visible stairs, stained.
    m.tiles[82] = TileType::DownStairs;
    m.revealed_tiles[82] = true;
    m.visible_tiles[82] = true;
    m.bloodstains.insert(82);
    // Revealed but not visible floor: remembered.
    m.tiles[83] = TileType::Floor;
    m.revealed_tiles[83] = true;
    // Revealed visible wall with nothing revealed around it.
    m.revealed_tiles[85] = true;
    m.visible_tiles[85] = true;
    let cells = draw_map(&m);
    assert_eq!(cells.len(), 3440);
    let c0 = cells[0];
    assert_eq!((c0.x, c0.y, c0.fg, c0.bg, c0.glyph), (0, 0, AETHER, DEFAULT_BG, 247));
    let c = cells[81];
    assert_eq!((c.x, c.y, c.fg, c.bg, c.glyph), (1, 1, FLOOR_FG, FLOOR_BG, 46));
    let c = cells[82];
    assert_eq!((c.x, c.y, c.fg, c.bg, c.glyph), (2, 1, STAIRS_FG, BLOOD_BG, 175));
    let c = cells[83];
    assert_eq!((c.x, c.y, c.fg, c.bg, c.glyph), (3, 1, MEM_FG, DEFAULT_BG, 46));
    let c = cells[85];
    assert_eq!((c.x, c.y, c.fg, c.bg, c.glyph), (5, 1, WALL_FG, WALL_BG, 9));
    let last = cells[3439];
    assert_eq!((last.x, last.y), (79, 42));
    let _ = LIT_BG;
}

#[test]
fn duplicate_copies_every_field() {
    let mut m = blank(4, 3);
    m.tiles[5] = TileType::Floor;
    m.revealed_tiles[6] = true;
    m.visible_tiles[7] = true;
    m.blocked[8] = true;
    m.bloodstains.insert(3);
    m.tile_content[2].push(EntityId { index: 4, generation: 1 });
    m.depth = 9;
    let c = m.duplicate();
    assert_eq!(c.tiles, m.tiles);
    assert_eq!(c.width, 4);
    assert_eq!(c.height, 3);
    assert_eq!(c.revealed_tiles, m.revealed_tiles);
    assert_eq!(c.visible_tiles, m.visible_tiles);
    assert_eq!(c.blocked, m.blocked);
    assert_eq!(c.depth, 9);
    assert_eq!(c.bloodstains, m.bloodstains);
    assert_eq!(c.tile_content, m.tile_content);
}

#[test]
fn clear_content_index_empties_every_tile() {
    let mut m = blank(3, 3);
    m.tile_content[0].push(EntityId { index: 1, generation: 0 });
    m.tile_content[8].push(EntityId { index: 2, generation: 0 });
    m.tiles[4] = TileType::Floor;
    m.clear_content_index();
    assert_eq!(m.tile_content.len(), 9);
    assert!(m.tile_content.iter().all(|c| c.is_empty()));
    assert_eq!(m.tiles[4], TileType::Floor);
}
