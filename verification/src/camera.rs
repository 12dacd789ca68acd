use vstd::prelude::*;
use crate::colors::{BLOOD_BG, BOUNDARY_FG, DEFAULT_BG, FLOOR_FG, LIT_BG, MEM_FG, STAIRS_FG, WALL_FG};
use crate::console::ScreenCell;
use crate::map::{glyph_for_mask, idx_of, lemma_idx_in_range, wall_glyph, GameMap, MapView, TileType};
use crate::outside::{cp437_glyph, to_cp437};

verus! {

broadcast use vstd::std_specs::hash::group_hash_axioms;

/// Whether screen cells outside the map's interior are drawn as boundary dots.
pub const SHOW_BOUNDARIES: bool = true;

/// The screen rectangle `(min_x, max_x, min_y, max_y)` of map coordinates shown by a
/// terminal of `x_chars` by `y_chars` characters centred on `(player_x, player_y)`.
pub open spec fn screen_bounds(player_x: int, player_y: int, x_chars: u32, y_chars: u32) -> (int, int, int, int) {
    let min_x = player_x - (x_chars / 2) as int;
    let min_y = player_y - (y_chars / 2) as int;
    (min_x, min_x + (x_chars as i32) as int, min_y, min_y + (y_chars as i32) as int)
}

/// Computes the map rectangle shown on screen around the player.
pub fn get_screen_bounds(player_x: i32, player_y: i32, x_chars: u32, y_chars: u32) -> (b: (i32, i32, i32, i32))
    requires
        i32::MIN <= player_x - (x_chars / 2) as int,
        i32::MIN <= player_x - (x_chars / 2) as int + (x_chars as i32) as int <= i32::MAX,
        i32::MIN <= player_y - (y_chars / 2) as int,
        i32::MIN <= player_y - (y_chars / 2) as int + (y_chars as i32) as int <= i32::MAX,
    ensures
        (b.0 as int, b.1 as int, b.2 as int, b.3 as int) == screen_bounds(player_x as int, player_y as int, x_chars, y_chars),
{
    let center_x = (x_chars / 2) as i32;
    let center_y = (y_chars / 2) as i32;
    let min_x = player_x - center_x;
    let max_x = min_x + #[verifier::truncate] (x_chars as i32);
    let min_y = player_y - center_y;
    let max_y = min_y + #[verifier::truncate] (y_chars as i32);
    (min_x, max_x, min_y, max_y)
}

impl MapView {
    /// Glyph and colours of the tile at `idx` in the camera view.
    pub open spec fn tile_glyph(self, idx: int) -> (u16, u8, u8) {
        let glyph = match self.tiles[idx] {
            TileType::Floor => cp437_glyph('.'),
            TileType::Wall => glyph_for_mask(self.wall_mask(idx % self.width, idx / self.width)),
            TileType::DownStairs => cp437_glyph('»'),
        };
        let fg0 = match self.tiles[idx] {
            TileType::Floor => FLOOR_FG,
            TileType::Wall => WALL_FG,
            TileType::DownStairs => STAIRS_FG,
        };
        let bg0 = if self.bloodstains.contains(idx as usize) { BLOOD_BG } else { LIT_BG };
        if self.visible[idx] { (glyph, fg0, bg0) } else { (glyph, MEM_FG, DEFAULT_BG) }
    }

    /// The map coordinate `(tx, ty)` lies strictly inside the outer ring of the map.
    pub open spec fn interior(self, tx: int, ty: int) -> bool {
        tx > 0 && tx < self.width - 1 && ty > 0 && ty < self.height - 1
    }

    /// What the camera draws at screen `(x, y)` for map `(tx, ty)`: the tile if it is
    /// interior and revealed, nothing if interior and unrevealed, a boundary dot
    /// otherwise.
    pub open spec fn camera_cell(self, tx: int, ty: int, x: int, y: int) -> Seq<ScreenCell> {
        if self.interior(tx, ty) {
            let idx = idx_of(self.width, tx, ty);
            if self.revealed[idx] {
                let g = self.tile_glyph(idx);
                seq![ScreenCell { x: x as i32, y: y as i32, fg: g.1, bg: g.2, glyph: g.0 }]
            } else {
                seq![]
            }
        } else if SHOW_BOUNDARIES {
            seq![ScreenCell { x: x as i32, y: y as i32, fg: BOUNDARY_FG, bg: DEFAULT_BG, glyph: cp437_glyph('·') }]
        } else {
            seq![]
        }
    }

    /// The cells of the first `cols` columns of screen row `y`, which shows map row `ty`.
    pub open spec fn camera_row(self, min_x: int, ty: int, y: int, cols: int) -> Seq<ScreenCell>
        decreases cols,
    {
        if cols <= 0 {
            seq![]
        } else {
            self.camera_row(min_x, ty, y, cols - 1) + self.camera_cell(min_x + cols - 1, ty, cols - 1, y)
        }
    }

    /// The cells of the first `rows` screen rows of the rectangle starting at
    /// `(min_x, min_y)` with `cols` columns, row by row.
    pub open spec fn camera_tiles(self, min_x: int, min_y: int, cols: int, rows: int) -> Seq<ScreenCell>
        decreases rows,
    {
        if rows <= 0 {
            seq![]
        } else {
            self.camera_tiles(min_x, min_y, cols, rows - 1) + self.camera_row(min_x, min_y + rows - 1, rows - 1, cols)
        }
    }
}

/// The glyph and colours of the tile at `idx` as the camera shows it.
pub fn get_tile_glyph(idx: usize, map: &GameMap) -> (r: (u16, u8, u8))
    requires
        map.wf(),
        idx < map.tiles.len(),
        idx < i32::MAX,
    ensures
        r == map@.tile_glyph(idx as int),
{
    let glyph;
    let mut fg;
    let mut bg = LIT_BG;
    match map.tiles[idx] {
        TileType::Floor => {
            glyph = to_cp437('.');
            fg = FLOOR_FG;
        }
        TileType::Wall => {
            let x = idx as i32 % map.width;
            let y = idx as i32 / map.width;
            proof {
                assert(0 <= y <= idx) by (nonlinear_arith)
                    requires y == idx as int / map.width as int, map.width > 0, idx >= 0;
            }
            glyph = wall_glyph(map, x, y);
            fg = WALL_FG;
        }
        TileType::DownStairs => {
            glyph = to_cp437('»');
            fg = STAIRS_FG;
        }
    }
    if map.bloodstains.contains(&idx) {
        bg = BLOOD_BG;
    }
    if !map.visible_tiles[idx] {
        fg = MEM_FG;
        bg = DEFAULT_BG;
    }
    (glyph, fg, bg)
}

/// Appends the cells of the map rectangle `[min_x, max_x) x [min_y, max_y)`, drawn
/// from screen position `(0, 0)`.
fn draw_tiles(map: &GameMap, cells: &mut Vec<ScreenCell>, min_x: i32, max_x: i32, min_y: i32, max_y: i32)
    requires
        map.wf(),
        map.tiles.len() < i32::MAX,
        min_x <= max_x,
        min_y <= max_y,
        max_x - min_x <= i32::MAX,
        max_y - min_y <= i32::MAX,
    ensures
        final(cells)@ == old(cells)@ + map@.camera_tiles(min_x as int, min_y as int, max_x - min_x, max_y - min_y),
{
    let map_width = map.width - 1;
    let map_height = map.height - 1;
    let ghost m = map@;
    let ghost cols = max_x - min_x;
    let mut y: i32 = 0;
    let mut ty = min_y;
    while ty < max_y
        invariant
            map.wf(),
            map.tiles.len() < i32::MAX,
            m == map@,
            map_width == map.width - 1,
            map_height == map.height - 1,
            cols == max_x - min_x,
            min_x <= max_x,
            max_x - min_x <= i32::MAX,
            max_y - min_y <= i32::MAX,
            min_y <= ty <= max_y,
            y == ty - min_y,
            cells@ == old(cells)@ + m.camera_tiles(min_x as int, min_y as int, cols, y as int),
        decreases max_y - ty,
    {
        let ghost before = cells@;
        let mut x: i32 = 0;
        let mut tx = min_x;
        while tx < max_x
            invariant
                map.wf(),
                map.tiles.len() < i32::MAX,
                m == map@,
                map_width == map.width - 1,
                map_height == map.height - 1,
                max_x - min_x <= i32::MAX,
                min_x <= tx <= max_x,
                x == tx - min_x,
                min_y <= ty < max_y,
                y == ty - min_y,
                cells@ == before + m.camera_row(min_x as int, ty as int, y as int, x as int),
            decreases max_x - tx,
        {
            let ghost pre = cells@;
            if tx > 0 && tx < map_width && ty > 0 && ty < map_height {
                proof {
                    lemma_idx_in_range(map.width as int, map.height as int, tx as int, ty as int);
                    assert(map.tiles@.len() == map.tiles.len());
                }
                let idx = map.xy_idx(tx, ty);
                if map.revealed_tiles[idx] {
                    let (glyph, fg, bg) = get_tile_glyph(idx, map);
                    cells.push(ScreenCell { x, y, fg, bg, glyph });
                }
            } else if SHOW_BOUNDARIES {
                let glyph = to_cp437('·');
                cells.push(ScreenCell { x, y, fg: BOUNDARY_FG, bg: DEFAULT_BG, glyph });
            }
            assert(cells@ =~= pre + m.camera_cell(tx as int, ty as int, x as int, y as int));
            assert(m.camera_row(min_x as int, ty as int, y as int, x + 1)
                =~= m.camera_row(min_x as int, ty as int, y as int, x as int) + m.camera_cell(tx as int, ty as int, x as int, y as int));
            x += 1;
            tx += 1;
        }
        assert(m.camera_tiles(min_x as int, min_y as int, cols, y + 1)
            =~= m.camera_tiles(min_x as int, min_y as int, cols, y as int) + m.camera_row(min_x as int, ty as int, y as int, cols));
        y += 1;
        ty += 1;
    }
}

/// An entity to draw: its map position, its render order and how it looks.
#[derive(Clone, Copy, PartialEq, Eq, Structural, Debug)]
pub struct RenderItem {
    pub x: i32,
    pub y: i32,
    pub render_order: i32,
    pub glyph: u16,
    pub fg: u8,
    pub bg: u8,
}

/// Item `a` is drawn before item `b`: higher render order first, and among equal
/// orders the one that came first.
pub open spec fn draws_before(items: Seq<RenderItem>, a: int, b: int) -> bool {
    items[a].render_order > items[b].render_order
        || (items[a].render_order == items[b].render_order && a < b)
}

/// `p` lists every index of `items` once, in drawing order.
pub open spec fn is_draw_order(items: Seq<RenderItem>, p: Seq<usize>) -> bool {
    &&& p.len() == items.len()
    &&& p.no_duplicates()
    &&& forall|k: int| 0 <= k < p.len() ==> #[trigger] p[k] < items.len()
    &&& forall|k: int, l: int| 0 <= k < l < p.len() ==> draws_before(items, #[trigger] p[k] as int, #[trigger] p[l] as int)
}

/// The order in which entities are drawn: a stable sort by descending render order.
pub fn draw_order(items: &Vec<RenderItem>) -> (p: Vec<usize>)
    ensures
        is_draw_order(items@, p@),
{
    let n = items.len();
    let mut p: Vec<usize> = Vec::new();
    let mut i: usize = 0;
    while i < n
        invariant
            n == items@.len(),
            i <= n,
            p@.len() == i,
            p@.no_duplicates(),
            forall|k: int| 0 <= k < p@.len() ==> #[trigger] p@[k] < i,
            forall|k: int, l: int| 0 <= k < l < p@.len() ==> draws_before(items@, #[trigger] p@[k] as int, #[trigger] p@[l] as int),
        decreases n - i,
    {
        let order = items[i].render_order;
        let mut pos: usize = 0;
        while pos < p.len() && items[p[pos]].render_order >= order
            invariant
                n == items@.len(),
                i < n,
                order == items@[i as int].render_order,
                pos <= p@.len(),
                forall|k: int| 0 <= k < p@.len() ==> #[trigger] p@[k] < i,
                forall|k: int| 0 <= k < pos ==> items@[#[trigger] p@[k] as int].render_order >= order,
            decreases p@.len() - pos,
        {
            pos += 1;
        }
        let ghost old_p = p@;
        proof {
            assert forall|k: int| pos <= k < old_p.len() implies items@[#[trigger] old_p[k] as int].render_order < order by {
                if k > pos {
                    assert(draws_before(items@, old_p[pos as int] as int, old_p[k] as int));
                }
            }
        }
        p.insert(pos, i);
        proof {
            assert(p@ =~= old_p.subrange(0, pos as int).push(i).add(old_p.subrange(pos as int, old_p.len() as int)));
            assert forall|k: int| 0 <= k < p@.len() implies #[trigger] p@[k] < i + 1 by {
                if k < pos {
                    assert(p@[k] == old_p[k]);
                } else if k > pos {
                    assert(p@[k] == old_p[k - 1]);
                }
            }
            assert forall|k: int, l: int| 0 <= k < l < p@.len() implies draws_before(items@, #[trigger] p@[k] as int, #[trigger] p@[l] as int) by {
                if l < pos {
                    assert(p@[k] == old_p[k] && p@[l] == old_p[l]);
                } else if l == pos {
                    assert(p@[k] == old_p[k]);
                } else if k < pos {
                    assert(p@[k] == old_p[k] && p@[l] == old_p[l - 1]);
                } else if k == pos {
                    assert(p@[l] == old_p[l - 1]);
                } else {
                    assert(p@[k] == old_p[k - 1] && p@[l] == old_p[l - 1]);
                }
            }
            assert forall|k: int, l: int| 0 <= k < l < p@.len() implies p@[k] != p@[l] by {
                assert(draws_before(items@, p@[k] as int, p@[l] as int));
            }
        }
        i += 1;
    }
    p
}

impl MapView {
    /// What the camera draws for one entity: its glyph at its screen position, when its
    /// tile is in view and the screen position is inside the map's interior extent.
    pub open spec fn entity_cell(self, min_x: int, min_y: int, e: RenderItem) -> Seq<ScreenCell> {
        let idx = idx_of(self.width, e.x as int, e.y as int);
        let sx = e.x - min_x;
        let sy = e.y - min_y;
        if self.visible[idx] && sx > 0 && sx < self.width - 1 && sy > 0 && sy < self.height - 1 {
            seq![ScreenCell { x: sx as i32, y: sy as i32, fg: e.fg, bg: e.bg, glyph: e.glyph }]
        } else {
            seq![]
        }
    }

    /// The cells of the first `k` entities in drawing order `p`.
    pub open spec fn entity_cells(self, min_x: int, min_y: int, items: Seq<RenderItem>, p: Seq<usize>, k: int) -> Seq<ScreenCell>
        decreases k,
    {
        if k <= 0 {
            seq![]
        } else {
            self.entity_cells(min_x, min_y, items, p, k - 1) + self.entity_cell(min_x, min_y, items[p[k - 1] as int])
        }
    }

    /// Everything the camera draws for a view of `(min_x, max_x, min_y, max_y)`: the
    /// tiles row by row, then the entities in drawing order.
    pub open spec fn camera_view(self, b: (int, int, int, int), items: Seq<RenderItem>, p: Seq<usize>) -> Seq<ScreenCell> {
        let tiles = if b.0 < b.1 && b.2 < b.3 {
            self.camera_tiles(b.0, b.2, b.1 - b.0, b.3 - b.2)
        } else {
            seq![]
        };
        tiles + self.entity_cells(b.0, b.2, items, p, p.len() as int)
    }
}

/// An entity stands on a tile of the map and its screen position fits in an `i32`.
pub open spec fn item_placeable(m: MapView, min_x: int, min_y: int, e: RenderItem) -> bool {
    &&& 0 <= e.x
    &&& 0 <= e.y
    &&& idx_of(m.width, e.x as int, e.y as int) < m.tiles.len()
    &&& i32::MIN <= e.x - min_x <= i32::MAX
    &&& i32::MIN <= e.y - min_y <= i32::MAX
}

/// Appends the cells of the entities, in drawing order.
fn draw_entities(map: &GameMap, cells: &mut Vec<ScreenCell>, min_x: i32, min_y: i32, items: &Vec<RenderItem>, p: &Vec<usize>)
    requires
        map.wf(),
        is_draw_order(items@, p@),
        forall|i: int| 0 <= i < items@.len() ==> item_placeable(map@, min_x as int, min_y as int, #[trigger] items@[i]),
    ensures
        final(cells)@ == old(cells)@ + map@.entity_cells(min_x as int, min_y as int, items@, p@, p@.len() as int),
{
    let map_width = map.width - 1;
    let map_height = map.height - 1;
    let ghost m = map@;
    let mut k: usize = 0;
    while k < p.len()
        invariant
            map.wf(),
            m == map@,
            map_width == map.width - 1,
            map_height == map.height - 1,
            is_draw_order(items@, p@),
            forall|i: int| 0 <= i < items@.len() ==> item_placeable(m, min_x as int, min_y as int, #[trigger] items@[i]),
            k <= p@.len(),
            cells@ == old(cells)@ + m.entity_cells(min_x as int, min_y as int, items@, p@, k as int),
        decreases p@.len() - k,
    {
        let ghost pre = cells@;
        let e = items[p[k]];
        assert(item_placeable(m, min_x as int, min_y as int, items@[p@[k as int] as int]));
        proof { assert(map.tiles@.len() == map.tiles.len()); }
        let idx = map.xy_idx(e.x, e.y);
        if map.visible_tiles[idx] {
            let sx = e.x - min_x;
            let sy = e.y - min_y;
            if sx > 0 && sx < map_width && sy > 0 && sy < map_height {
                cells.push(ScreenCell { x: sx, y: sy, fg: e.fg, bg: e.bg, glyph: e.glyph });
            }
        }
        assert(cells@ =~= pre + m.entity_cell(min_x as int, min_y as int, e));
        k += 1;
    }
}

/// The screen the camera shows around the player, as the cells to draw in order:
/// the map tiles of the view rectangle (see `get_screen_bounds`), then the visible
/// entities, higher render order first.
pub fn render_camera(map: &GameMap, player_x: i32, player_y: i32, x_chars: u32, y_chars: u32, items: &Vec<RenderItem>) -> (cells: Vec<ScreenCell>)
    requires
        map.wf(),
        map.tiles.len() < i32::MAX,
        i32::MIN <= player_x - (x_chars / 2) as int,
        i32::MIN <= player_x - (x_chars / 2) as int + (x_chars as i32) as int <= i32::MAX,
        i32::MIN <= player_y - (y_chars / 2) as int,
        i32::MIN <= player_y - (y_chars / 2) as int + (y_chars as i32) as int <= i32::MAX,
        forall|i: int| 0 <= i < items@.len() ==> item_placeable(map@,
            screen_bounds(player_x as int, player_y as int, x_chars, y_chars).0,
            screen_bounds(player_x as int, player_y as int, x_chars, y_chars).2, #[trigger] items@[i]),
    ensures
        exists|p: Seq<usize>| is_draw_order(items@, p)
            && cells@ == map@.camera_view(screen_bounds(player_x as int, player_y as int, x_chars, y_chars), items@, p),
{
    let (min_x, max_x, min_y, max_y) = get_screen_bounds(player_x, player_y, x_chars, y_chars);
    let mut cells: Vec<ScreenCell> = Vec::new();
    if min_x < max_x && min_y < max_y {
        draw_tiles(map, &mut cells, min_x, max_x, min_y, max_y);
    }
    let p = draw_order(items);
    draw_entities(map, &mut cells, min_x, min_y, items, &p);
    assert(cells@ =~= map@.camera_view((min_x as int, max_x as int, min_y as int, max_y as int), items@, p@));
    cells
}

/// The map shown centred on its middle tile, as the cells to draw in order, without
/// entities.
pub fn render_debug_map(map: &GameMap, x_chars: u32, y_chars: u32) -> (cells: Vec<ScreenCell>)
    requires
        map.wf(),
        map.tiles.len() < i32::MAX,
        i32::MIN <= map.width / 2 - (x_chars / 2) as int,
        i32::MIN <= map.width / 2 - (x_chars / 2) as int + (x_chars as i32) as int <= i32::MAX,
        i32::MIN <= map.height / 2 - (y_chars / 2) as int,
        i32::MIN <= map.height / 2 - (y_chars / 2) as int + (y_chars as i32) as int <= i32::MAX,
    ensures
        cells@ == map@.camera_view(screen_bounds(map.width / 2, map.height / 2, x_chars, y_chars), seq![], seq![]),
{
    let (min_x, max_x, min_y, max_y) = get_screen_bounds(map.width / 2, map.height / 2, x_chars, y_chars);
    let mut cells: Vec<ScreenCell> = Vec::new();
    if min_x < max_x && min_y < max_y {
        draw_tiles(map, &mut cells, min_x, max_x, min_y, max_y);
    }
    assert(cells@ =~= map@.camera_view((min_x as int, max_x as int, min_y as int, max_y as int), seq![], seq![]));
    cells
}

/// Checks if the tile is in bounds: true when `0 <= x < width` and `0 <= y < height`.
pub fn is_inbounds(map: &GameMap, x: i32, y: i32) -> (r: bool)
    requires
        map.width > i32::MIN,
        map.height > i32::MIN,
    ensures
        r == map@.in_bounds(x as int, y as int),
{
    crate::map::is_inbounds(map, x, y)
}

/// A drawing order lists every entity index.
pub proof fn lemma_draw_order_covers(items: Seq<RenderItem>, p: Seq<usize>, i: int)
    requires
        is_draw_order(items, p),
        0 <= i < items.len(),
    ensures
        exists|k: int| 0 <= k < p.len() && p[k] as int == i,
{
    let n = items.len() as int;
    let q = p.map_values(|v: usize| v as int);
    assert forall|a: int, b: int| 0 <= a < q.len() && 0 <= b < q.len() && a != b implies q[a] != q[b] by {
        assert(p[a] != p[b]);
    }
    assert(q.no_duplicates());
    q.unique_seq_to_set();
    vstd::set_lib::lemma_int_range(0, n);
    assert forall|v: int| q.to_set().contains(v) implies vstd::set_lib::set_int_range(0, n).contains(v) by {
        let k = choose|k: int| 0 <= k < q.len() && q[k] == v;
        assert(p[k] < items.len());
    }
    vstd::set_lib::lemma_subset_equality(q.to_set(), vstd::set_lib::set_int_range(0, n));
    assert(vstd::set_lib::set_int_range(0, n).contains(i));
    assert(q.to_set().contains(i));
    let k = choose|k: int| 0 <= k < q.len() && q[k] == i;
    assert(p[k] as int == i);
}

proof fn lemma_draw_orders_agree_at(items: Seq<RenderItem>, p: Seq<usize>, q: Seq<usize>, k: int)
    requires
        is_draw_order(items, p),
        is_draw_order(items, q),
        0 <= k < p.len(),
    ensures
        p[k] == q[k],
    decreases k,
{
    assert forall|j: int| 0 <= j < k implies p[j] == q[j] by {
        lemma_draw_orders_agree_at(items, p, q, j);
    }
    lemma_draw_order_covers(items, q, p[k] as int);
    let l = choose|l: int| 0 <= l < q.len() && q[l] as int == p[k] as int;
    lemma_draw_order_covers(items, p, q[k] as int);
    let l2 = choose|l2: int| 0 <= l2 < p.len() && p[l2] as int == q[k] as int;
    if l < k {
        assert(p[l] == q[l]);
        assert(p[l] == p[k]);
    } else if l > k {
        assert(q[k] != q[l]);
        if l2 < k {
            assert(p[l2] == q[l2]);
            assert(q[l2] == q[k]);
        } else if l2 > k {
            assert(draws_before(items, p[k] as int, p[l2] as int));
            assert(draws_before(items, q[k] as int, q[l] as int));
        }
    }
}

/// The drawing order is unique: two orders that both sort the entities by descending
/// render order, keeping ties in their listed order, are the same.
pub proof fn law_draw_order_unique(items: Seq<RenderItem>, p: Seq<usize>, q: Seq<usize>)
    requires
        is_draw_order(items, p),
        is_draw_order(items, q),
    ensures
        p == q,
{
    assert forall|k: int| 0 <= k < p.len() implies p[k] == q[k] by {
        lemma_draw_orders_agree_at(items, p, q, k);
    }
    assert(p =~= q);
}

/// Entities are drawn from the highest render order down, so lower orders are drawn
/// later, on top.
pub proof fn law_draw_order_descending(items: Seq<RenderItem>, p: Seq<usize>, k: int, l: int)
    requires
        is_draw_order(items, p),
        0 <= k < l < p.len(),
    ensures
        items[p[k] as int].render_order >= items[p[l] as int].render_order,
{
    assert(draws_before(items, p[k] as int, p[l] as int));
}


/// Entities are drawn only where the player sees now: an entity on a tile that is not
/// visible (even a revealed, remembered one) gives no cell, and a drawn entity shows
/// its own glyph and colours at its place relative to the view's corner.
pub proof fn law_entities_only_on_visible_tiles(m: MapView, min_x: int, min_y: int, e: RenderItem)
    ensures
        !m.visible[idx_of(m.width, e.x as int, e.y as int)] ==> m.entity_cell(min_x, min_y, e).len() == 0,
        m.entity_cell(min_x, min_y, e).len() <= 1,
        m.entity_cell(min_x, min_y, e).len() == 1 ==> {
            &&& m.visible[idx_of(m.width, e.x as int, e.y as int)]
            &&& m.entity_cell(min_x, min_y, e)[0] == (ScreenCell {
                x: (e.x - min_x) as i32, y: (e.y - min_y) as i32, fg: e.fg, bg: e.bg, glyph: e.glyph,
            })
        },
{
}

/// Entity `j` of the drawing order `p` stands on a tile the player sees now, and `cell`
/// is how it is drawn.
pub open spec fn seen_entity_cell(m: MapView, min_x: int, min_y: int, items: Seq<RenderItem>, p: Seq<usize>, j: int, cell: ScreenCell) -> bool {
    let e = items[p[j] as int];
    &&& m.visible[idx_of(m.width, e.x as int, e.y as int)]
    &&& m.entity_cell(min_x, min_y, e).len() == 1
    &&& cell == m.entity_cell(min_x, min_y, e)[0]
}

/// Over the whole drawing order: every entity cell the camera draws belongs to one of
/// the entities drawn so far whose tile is visible, so an entity on an unseen tile
/// never shows.
pub proof fn law_drawn_entities_are_seen(m: MapView, min_x: int, min_y: int, items: Seq<RenderItem>, p: Seq<usize>, k: int, c: int)
    requires
        0 <= k <= p.len(),
        0 <= c < m.entity_cells(min_x, min_y, items, p, k).len(),
    ensures
        exists|j: int| 0 <= j < k
            && #[trigger] seen_entity_cell(m, min_x, min_y, items, p, j, m.entity_cells(min_x, min_y, items, p, k)[c]),
    decreases k,
{
    let prev = m.entity_cells(min_x, min_y, items, p, k - 1);
    let cur = m.entity_cells(min_x, min_y, items, p, k);
    let e = items[p[k - 1] as int];
    law_entities_only_on_visible_tiles(m, min_x, min_y, e);
    assert(cur == prev + m.entity_cell(min_x, min_y, e));
    if c < prev.len() {
        law_drawn_entities_are_seen(m, min_x, min_y, items, p, k - 1, c);
        let j = choose|j: int| 0 <= j < k - 1 && #[trigger] seen_entity_cell(m, min_x, min_y, items, p, j, prev[c]);
        assert(cur[c] == prev[c]);
        assert(seen_entity_cell(m, min_x, min_y, items, p, j, cur[c]));
    } else {
        assert(cur[c] == m.entity_cell(min_x, min_y, e)[0]);
        assert(seen_entity_cell(m, min_x, min_y, items, p, k - 1, cur[c]));
    }
}

} // verus!
