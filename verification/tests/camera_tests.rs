use std::collections::HashSet;

use mcguffin_quest::camera::{draw_order, get_screen_bounds, get_tile_glyph, is_inbounds, render_camera, render_debug_map, RenderItem};
use mcguffin_quest::colors::{BLOOD_BG, BOUNDARY_FG, DEFAULT_BG, FLOOR_FG, LIT_BG, MEM_FG, STAIRS_FG, WALL_FG};
use mcguffin_quest::console::ScreenCell;
use mcguffin_quest::map::{GameMap, TileType};

fn blank(w: i32, h: i32) -> GameMap {
    let n = (w * h) as usize;
    GameMap {
        tiles: vec![TileType::Wall; n],
        width: w,
        height: h,
        revealed_tiles: vec![false; n],
        visible_tiles: vec![false; n],
        blocked: vec![false; n],
        depth: 1,
        bloodstains: HashSet::new(),
        tile_content: vec![Vec::new(); n],
    }
}

fn item(x: i32, y: i32, render_order: i32, glyph: u16) -> RenderItem {
    RenderItem { x, y, render_order, glyph, fg: 1, bg: 2 }
}

#[test]
fn screen_bounds_centre_on_the_player() {
    assert_eq!(get_screen_bounds(40, 21, 80, 50), (0, 80, -4, 46));
    assert_eq!(get_screen_bounds(0, 0, 5, 3), (-2, 3, -1, 2));
    assert_eq!(get_screen_bounds(10, 10, 0, 0), (10, 10, 10, 10));
}

#[test]
fn tile_glyphs_for_the_camera() {
    let mut m = blank(5, 5);
    m.tiles[6] = TileType::Floor;
    m.visible_tiles[6] = true;
    assert_eq!(get_tile_glyph(6, &m), (46, FLOOR_FG, LIT_BG));
    m.bloodstains.insert(6);
    assert_eq!(get_tile_glyph(6, &m), (46, FLOOR_FG, BLOOD_BG));
    m.visible_tiles[6] = false;
    assert_eq!(get_tile_glyph(6, &m), (46, MEM_FG, DEFAULT_BG));
    m.tiles[7] = TileType::DownStairs;
    m.visible_tiles[7] = true;
    assert_eq!(get_tile_glyph(7, &m), (175, STAIRS_FG, LIT_BG));
    m.visible_tiles[12] = true;
    assert_eq!(get_tile_glyph(12, &m), (9, WALL_FG, LIT_BG));
}

#[test]
fn draw_order_is_a_stable_descending_sort() {
    let items = vec![item(0, 0, 1, 0), item(0, 0, 3, 1), item(0, 0, 2, 2), item(0, 0, 3, 3)];
    assert_eq!(draw_order(&items), vec![1, 3, 2, 0]);
    let same = vec![item(0, 0, 0, 0), item(0, 0, 0, 1), item(0, 0, 0, 2)];
    assert_eq!(draw_order(&same), vec![0, 1, 2]);
    assert_eq!(draw_order(&Vec::new()), Vec::<usize>::new());
    let rising = vec![item(0, 0, -1, 0), item(0, 0, 0, 1), item(0, 0, 5, 2)];
    assert_eq!(draw_order(&rising), vec![2, 1, 0]);
}

#[test]
fn draw_order_lists_each_entity_once() {
    let orders = [4, -2, 4, 0, 7, 0, 4, -2, 1];
    let items: Vec<RenderItem> = orders.iter().enumerate().map(|(i, o)| item(0, 0, *o, i as u16)).collect();
    let p = draw_order(&items);
    let mut sorted = p.clone();
    sorted.sort();
    assert_eq!(sorted, (0..orders.len()).collect::<Vec<_>>());
    for w in p.windows(2) {
        let (a, b) = (w[0], w[1]);
        assert!(orders[a] > orders[b] || (orders[a] == orders[b] && a < b));
    }
}

#[test]
fn camera_draws_tiles_then_entities() {
    let mut m = blank(10, 10);
    for i in 0..100 {
        m.tiles[i] = TileType::Floor;
        m.revealed_tiles[i] = true;
        m.visible_tiles[i] = true;
    }
    let items = vec![item(5, 5, 1, 64), item(6, 5, 2, 103)];
    let cells = render_camera(&m, 5, 5, 4, 4, &items);
    assert_eq!(cells.len(), 18);
    for (k, c) in cells.iter().take(16).enumerate() {
        assert_eq!((c.x, c.y), ((k % 4) as i32, (k / 4) as i32));
        assert_eq!((c.glyph, c.fg, c.bg), (46, FLOOR_FG, LIT_BG));
    }
    // The higher render order is drawn first.
    assert_eq!(cells[16], ScreenCell { x: 3, y: 2, fg: 1, bg: 2, glyph: 103 });
    assert_eq!(cells[17], ScreenCell { x: 2, y: 2, fg: 1, bg: 2, glyph: 64 });
}

#[test]
fn camera_shows_boundary_dots_and_skips_unrevealed() {
    let m = blank(10, 10);
    let cells = render_camera(&m, 0, 0, 4, 2, &Vec::new());
    // Screen rows show map rows -1 and 0, both outside the interior.
    assert_eq!(cells.len(), 8);
    assert!(cells.iter().all(|c| c.glyph == 250 && c.fg == BOUNDARY_FG && c.bg == DEFAULT_BG));
    // An unrevealed interior tile draws nothing.
    let cells = render_camera(&m, 5, 5, 2, 2, &Vec::new());
    assert!(cells.is_empty());
    // An unseen entity draws nothing either.
    let cells = render_camera(&m, 5, 5, 2, 2, &vec![item(5, 5, 0, 64)]);
    assert!(cells.is_empty());
}

#[test]
fn debug_map_centres_on_the_middle() {
    let mut m = blank(6, 6);
    m.tiles[14] = TileType::Floor;
    m.revealed_tiles[14] = true;
    let cells = render_debug_map(&m, 2, 2);
    // View from (2, 2) to (4, 4): tiles 14, 15, 20, 21; only 14 is revealed.
    assert_eq!(cells, vec![ScreenCell { x: 0, y: 0, fg: MEM_FG, bg: DEFAULT_BG, glyph: 46 }]);
}

#[test]
fn camera_inbounds() {
    let m = blank(3, 2);
    assert!(is_inbounds(&m, 2, 1));
    assert!(!is_inbounds(&m, 3, 1));
    assert!(!is_inbounds(&m, 0, 2));
    assert!(!is_inbounds(&m, -1, 0));
}
