use vstd::prelude::*;
use std::collections::HashSet;
use vstd::std_specs::iter::IteratorSpec;
use crate::colors::{AETHER, BLOOD_BG, DEFAULT_BG, FLOOR_BG, FLOOR_FG, LIT_BG, MEM_FG, STAIRS_FG, WALL_BG, WALL_FG};
use crate::components::EntityId;
use crate::console::ScreenCell;
use crate::outside::{cp437_glyph, to_cp437};

verus! {

broadcast use vstd::std_specs::hash::group_hash_axioms;

pub const MAPWIDTH: usize = 80;
pub const MAPHEIGHT: usize = 43;
pub const MAPCOUNT: usize = MAPHEIGHT * MAPWIDTH;

/// The kinds of tile a level is made of.
#[derive(Clone, Copy, PartialEq, Eq, Structural, Debug, Hash)]
pub enum TileType {
    Wall,
    Floor,
    DownStairs,
}

/// A dungeon level: a grid of `width * height` tiles stored row by row, with what the
/// player has seen, sees now, what blocks movement, blood stains and the entities on
/// each tile.
pub struct GameMap {
    pub tiles: Vec<TileType>,
    pub width: i32,
    pub height: i32,
    pub revealed_tiles: Vec<bool>,
    pub visible_tiles: Vec<bool>,
    pub blocked: Vec<bool>,
    pub depth: i32,
    pub bloodstains: HashSet<usize>,
    pub tile_content: Vec<Vec<EntityId>>,
}

/// The mathematical value of a `GameMap`.
pub struct MapView {
    pub tiles: Seq<TileType>,
    pub width: int,
    pub height: int,
    pub revealed: Seq<bool>,
    pub visible: Seq<bool>,
    pub blocked: Seq<bool>,
    pub depth: int,
    pub bloodstains: Set<usize>,
    pub content: Seq<Seq<EntityId>>,
}

impl View for GameMap {
    type V = MapView;

    open spec fn view(&self) -> MapView {
        MapView {
            tiles: self.tiles@,
            width: self.width as int,
            height: self.height as int,
            revealed: self.revealed_tiles@,
            visible: self.visible_tiles@,
            blocked: self.blocked@,
            depth: self.depth as int,
            bloodstains: self.bloodstains@,
            content: self.tile_content@.map_values(|v: Vec<EntityId>| v@),
        }
    }
}

/// Index of the tile at `(x, y)` on a grid of the given width.
pub open spec fn idx_of(width: int, x: int, y: int) -> int {
    y * width + x
}

impl MapView {
    /// Positive dimensions and every per-tile layer of the same length, `width * height`.
    pub open spec fn wf(self) -> bool {
        &&& 0 < self.width
        &&& 0 < self.height
        &&& self.tiles.len() == self.width * self.height
        &&& self.revealed.len() == self.tiles.len()
        &&& self.visible.len() == self.tiles.len()
        &&& self.blocked.len() == self.tiles.len()
        &&& self.content.len() == self.tiles.len()
    }

    pub open spec fn in_bounds(self, x: int, y: int) -> bool {
        0 <= x < self.width && 0 <= y < self.height
    }

    pub open spec fn tile_at(self, x: int, y: int) -> TileType {
        self.tiles[idx_of(self.width, x, y)]
    }

    /// The tile at `(x, y)` is inside the map, a wall, and revealed.
    pub open spec fn revealed_wall_at(self, x: int, y: int) -> bool {
        &&& self.in_bounds(x, y)
        &&& self.tiles[idx_of(self.width, x, y)] == TileType::Wall
        &&& self.revealed[idx_of(self.width, x, y)]
    }

    /// The neighbour mask of a wall: 1 north, 2 south, 4 west, 8 east, for each
    /// neighbour that is a revealed wall.
    pub open spec fn wall_mask(self, x: int, y: int) -> int {
        (if self.revealed_wall_at(x, y - 1) { 1int } else { 0int })
            + (if self.revealed_wall_at(x, y + 1) { 2int } else { 0int })
            + (if self.revealed_wall_at(x - 1, y) { 4int } else { 0int })
            + (if self.revealed_wall_at(x + 1, y) { 8int } else { 0int })
    }
}

/// The glyph that joins a wall to its neighbours, by neighbour mask.
pub open spec fn glyph_for_mask(mask: int) -> u16 {
    if mask == 0 { 9 }
    else if mask == 1 { 208 }
    else if mask == 2 { 210 }
    else if mask == 3 { 186 }
    else if mask == 4 { 181 }
    else if mask == 5 { 188 }
    else if mask == 6 { 187 }
    else if mask == 7 { 185 }
    else if mask == 8 { 198 }
    else if mask == 9 { 200 }
    else if mask == 10 { 201 }
    else if mask == 11 { 204 }
    else if mask == 12 { 205 }
    else if mask == 13 { 202 }
    else if mask == 14 { 203 }
    else if mask == 15 { 206 }
    else { 35 }
}

/// An index names the tile `(x, y)` exactly when its remainder is `x` and its quotient `y`.
pub proof fn lemma_idx_unique(width: int, x: int, y: int, i: int)
    requires
        0 <= x < width,
        0 <= y,
        0 <= i,
    ensures
        (i == idx_of(width, x, y)) <==> (i % width == x && i / width == y),
{
    lemma_idx_facts(width, x, y);
    assert(i == (i / width) * width + i % width) by (nonlinear_arith)
        requires width > 0;
}

/// The index of `(x, y)` gives back `x` and `y` by remainder and quotient.
pub proof fn lemma_idx_facts(width: int, x: int, y: int)
    requires
        0 <= x < width,
        0 <= y,
    ensures
        idx_of(width, x, y) % width == x,
        idx_of(width, x, y) / width == y,
{
    assert((y * width + x) % width == x && (y * width + x) / width == y) by (nonlinear_arith)
        requires 0 <= x < width, 0 <= y;
}

/// A tile in bounds of a well-formed map has an index inside every layer.
pub proof fn lemma_idx_in_range(width: int, height: int, x: int, y: int)
    requires
        0 <= x < width,
        0 <= y < height,
    ensures
        0 <= idx_of(width, x, y) < width * height,
{
    assert(0 <= y * width) by (nonlinear_arith)
        requires 0 <= y, 0 <= width;
    assert(y * width + x < width * height) by (nonlinear_arith)
        requires 0 <= x < width, 0 <= y < height;
}

impl GameMap {
    pub open spec fn wf(&self) -> bool {
        self@.wf()
    }

    /// The view of a freshly made level at the given depth: all wall, nothing seen,
    /// nothing blocked, no stains, no entities.
    pub open spec fn fresh_view(depth: int) -> MapView {
        MapView {
            tiles: Seq::new(MAPCOUNT as nat, |i: int| TileType::Wall),
            width: MAPWIDTH as int,
            height: MAPHEIGHT as int,
            revealed: Seq::new(MAPCOUNT as nat, |i: int| false),
            visible: Seq::new(MAPCOUNT as nat, |i: int| false),
            blocked: Seq::new(MAPCOUNT as nat, |i: int| false),
            depth,
            bloodstains: Set::empty(),
            content: Seq::new(MAPCOUNT as nat, |i: int| Seq::<EntityId>::empty()),
        }
    }

    /// A new level of `MAPWIDTH` by `MAPHEIGHT` wall tiles at depth `new_depth`.
    pub fn new(new_depth: i32) -> (m: GameMap)
        ensures
            m@ == GameMap::fresh_view(new_depth as int),
            m.wf(),
    {
        let mut tiles: Vec<TileType> = Vec::new();
        let mut revealed: Vec<bool> = Vec::new();
        let mut visible: Vec<bool> = Vec::new();
        let mut blocked: Vec<bool> = Vec::new();
        let mut content: Vec<Vec<EntityId>> = Vec::new();
        let mut i: usize = 0;
        while i < MAPCOUNT
            invariant
                i <= MAPCOUNT,
                tiles@ == Seq::new(i as nat, |k: int| TileType::Wall),
                revealed@ == Seq::new(i as nat, |k: int| false),
                visible@ == Seq::new(i as nat, |k: int| false),
                blocked@ == Seq::new(i as nat, |k: int| false),
                content@.len() == i,
                forall|k: int| 0 <= k < i ==> (#[trigger] content@[k])@ == Seq::<EntityId>::empty(),
            decreases MAPCOUNT - i,
        {
            tiles.push(TileType::Wall);
            revealed.push(false);
            visible.push(false);
            blocked.push(false);
            content.push(Vec::new());
            i = i + 1;
        }
        let m = GameMap {
            tiles,
            width: MAPWIDTH as i32,
            height: MAPHEIGHT as i32,
            revealed_tiles: revealed,
            visible_tiles: visible,
            blocked,
            depth: new_depth,
            bloodstains: HashSet::new(),
            tile_content: content,
        };
        assert(m@.content =~= GameMap::fresh_view(new_depth as int).content);
        assert(m@.bloodstains =~= Set::<usize>::empty());
        assert(m@.tiles.len() == m@.width * m@.height) by (nonlinear_arith)
            requires m@.tiles.len() == 3440, m@.width == 80, m@.height == 43;
        m
    }

    /// The index of `(x, y)`: `y * width + x`.
    pub fn xy_idx(&self, x: i32, y: i32) -> (idx: usize)
        requires
            0 <= x,
            0 <= y,
            0 <= self.width,
            idx_of(self.width as int, x as int, y as int) <= usize::MAX,
        ensures
            idx as int == idx_of(self.width as int, x as int, y as int),
    {
        assert(0 <= y * self.width) by (nonlinear_arith)
            requires 0 <= y, 0 <= self.width;
        (y as usize * self.width as usize) + x as usize
    }
}

/// A neighbouring tile that can be stepped to, and whether the step is diagonal.
#[derive(Clone, Copy, PartialEq, Eq, Structural, Debug)]
pub struct Exit {
    pub idx: usize,
    pub diagonal: bool,
}

impl MapView {
    /// An exit may lead to `(x, y)`: `1 <= x <= width - 1`, `1 <= y <= height - 1`,
    /// and the tile there is not blocked.
    pub open spec fn exit_valid(self, x: int, y: int) -> bool {
        &&& 1 <= x <= self.width - 1
        &&& 1 <= y <= self.height - 1
        &&& !self.blocked[idx_of(self.width, x, y)]
    }

    /// The exit towards `(x + dx, y + dy)`, as a sequence of zero or one element.
    pub open spec fn exit_to(self, x: int, y: int, dx: int, dy: int, diagonal: bool) -> Seq<Exit> {
        if self.exit_valid(x + dx, y + dy) {
            seq![Exit { idx: idx_of(self.width, x + dx, y + dy) as usize, diagonal }]
        } else {
            seq![]
        }
    }

    /// The exits of the tile at `idx`, in order: west, east, north, south, then the
    /// diagonals north-west, north-east, south-west, south-east.
    pub open spec fn available_exits(self, idx: int) -> Seq<Exit> {
        let x = idx % self.width;
        let y = idx / self.width;
        self.exit_to(x, y, -1, 0, false) + self.exit_to(x, y, 1, 0, false)
            + self.exit_to(x, y, 0, -1, false) + self.exit_to(x, y, 0, 1, false)
            + self.exit_to(x, y, -1, -1, true) + self.exit_to(x, y, 1, -1, true)
            + self.exit_to(x, y, -1, 1, true) + self.exit_to(x, y, 1, 1, true)
    }

    /// What `draw_map` shows for the tile at `idx`, laid out 80 columns to a row.
    pub open spec fn map_cell(self, idx: int) -> ScreenCell {
        let x = idx % 80;
        let y = idx / 80;
        if self.revealed[idx] {
            let glyph = match self.tiles[idx] {
                TileType::Floor => cp437_glyph('.'),
                TileType::Wall => glyph_for_mask(self.wall_mask(x, y)),
                TileType::DownStairs => cp437_glyph('»'),
            };
            let fg0 = match self.tiles[idx] {
                TileType::Floor => FLOOR_FG,
                TileType::Wall => WALL_FG,
                TileType::DownStairs => STAIRS_FG,
            };
            let bg0 = match self.tiles[idx] {
                TileType::Floor => FLOOR_BG,
                TileType::Wall => WALL_BG,
                TileType::DownStairs => LIT_BG,
            };
            let bg1 = if self.bloodstains.contains(idx as usize) { BLOOD_BG } else { bg0 };
            if self.visible[idx] {
                ScreenCell { x: x as i32, y: y as i32, fg: fg0, bg: bg1, glyph }
            } else {
                ScreenCell { x: x as i32, y: y as i32, fg: MEM_FG, bg: DEFAULT_BG, glyph }
            }
        } else {
            ScreenCell { x: x as i32, y: y as i32, fg: AETHER, bg: DEFAULT_BG, glyph: cp437_glyph('≈') }
        }
    }
}

impl GameMap {
    /// True when `(x, y)` may be stepped onto (see `MapView::exit_valid`).
    pub fn is_exit_valid(&self, x: i32, y: i32) -> (r: bool)
        requires
            self.wf(),
        ensures
            r == self@.exit_valid(x as int, y as int),
    {
        if x < 1 || x > self.width - 1 || y < 1 || y > self.height - 1 {
            return false;
        }
        proof {
            lemma_idx_in_range(self.width as int, self.height as int, x as int, y as int);
            assert(self.tiles@.len() == self.tiles.len());
        }
        let idx = self.xy_idx(x, y);
        !self.blocked[idx]
    }

    /// A tile blocks sight exactly when it is a wall.
    pub fn is_opaque(&self, idx: usize) -> (r: bool)
        requires
            idx < self.tiles.len(),
        ensures
            r == (self.tiles@[idx as int] == TileType::Wall),
    {
        self.tiles[idx] == TileType::Wall
    }

    /// The grid position of `idx`: `(idx % width, idx / width)`.
    pub fn idx_xy(&self, idx: usize) -> (p: (i32, i32))
        requires
            self.wf(),
            idx < self.tiles.len(),
        ensures
            p.0 as int == idx as int % self.width as int,
            p.1 as int == idx as int / self.width as int,
    {
        let w = self.width as usize;
        proof {
            assert(idx as int / w as int <= idx as int) by (nonlinear_arith)
                requires w >= 1, idx >= 0;
            assert(idx as int / w as int <= self.height as int) by (nonlinear_arith)
                requires w >= 1, idx < w * self.height, self.height > 0;
        }
        ((idx % w) as i32, (idx / w) as i32)
    }

    /// Appends the exit towards `(x + dx, y + dy)` when it is valid.
    fn push_exit(&self, exits: &mut Vec<Exit>, x: i32, y: i32, dx: i32, dy: i32, diagonal: bool)
        requires
            self.wf(),
            -1 <= dx <= 1,
            -1 <= dy <= 1,
            0 <= x < self.width,
            0 <= y < self.height,
        ensures
            final(exits)@ == old(exits)@ + self@.exit_to(x as int, y as int, dx as int, dy as int, diagonal),
    {
        if self.is_exit_valid(x + dx, y + dy) {
            proof {
                lemma_idx_in_range(self.width as int, self.height as int, (x + dx) as int, (y + dy) as int);
                assert(self.tiles@.len() == self.tiles.len());
            }
            let target = self.xy_idx(x + dx, y + dy);
            exits.push(Exit { idx: target, diagonal });
        }
        assert(exits@ =~= old(exits)@ + self@.exit_to(x as int, y as int, dx as int, dy as int, diagonal));
    }

    /// The tiles reachable in one step from `idx`, with a flag for diagonal steps.
    pub fn get_available_exits(&self, idx: usize) -> (exits: Vec<Exit>)
        requires
            self.wf(),
            idx < self.tiles.len(),
            idx <= i32::MAX,
        ensures
            exits@ == self@.available_exits(idx as int),
    {
        let ghost m = self@;
        let x = idx as i32 % self.width;
        let y = idx as i32 / self.width;
        proof {
            let ii = idx as int;
            let wi = self.width as int;
            assert(0 <= ii % wi < wi) by (nonlinear_arith)
                requires wi > 0;
            assert(0 <= ii / wi) by (nonlinear_arith)
                requires wi > 0, ii >= 0;
            assert(ii / wi < self.height) by (nonlinear_arith)
                requires wi > 0, ii < wi * self.height, 0 <= ii;
        }
        let mut exits: Vec<Exit> = Vec::new();
        self.push_exit(&mut exits, x, y, -1, 0, false);
        self.push_exit(&mut exits, x, y, 1, 0, false);
        self.push_exit(&mut exits, x, y, 0, -1, false);
        self.push_exit(&mut exits, x, y, 0, 1, false);
        self.push_exit(&mut exits, x, y, -1, -1, true);
        self.push_exit(&mut exits, x, y, 1, -1, true);
        self.push_exit(&mut exits, x, y, -1, 1, true);
        self.push_exit(&mut exits, x, y, 1, 1, true);
        assert(exits@ =~= m.available_exits(idx as int));
        exits
    }

    /// A copy of the level, equal to it in every field.
    pub fn duplicate(&self) -> (copy: GameMap)
        ensures
            copy@ == self@,
    {
        let mut stains: HashSet<usize> = HashSet::new();
        let ghost keys = vstd::std_specs::hash::spec_hash_keys_iter(&self.bloodstains).remaining();
        let ghost mut count: int = 0;
        for k in it: self.bloodstains.iter()
            invariant
                it.seq() == keys,
                count == it.index(),
                stains@ == keys.take(count).unref().to_set(),
        {
            proof {
                assert(keys.take(count + 1).unref() =~= keys.take(count).unref().push(*k));
                keys.take(count).unref().lemma_push_to_set_commute(*k);
                count = count + 1;
            }
            stains.insert(*k);
        }
        proof {
            assert(keys.take(count) =~= keys);
        }
        let mut content: Vec<Vec<EntityId>> = Vec::new();
        let n = self.tile_content.len();
        let mut i: usize = 0;
        while i < n
            invariant
                n == self.tile_content@.len(),
                i <= n,
                content@.len() == i,
                forall|k: int| 0 <= k < i ==> (#[trigger] content@[k])@ == self.tile_content@[k]@,
            decreases n - i,
        {
            let inner = self.tile_content[i].clone();
            assert(inner@ =~= self.tile_content@[i as int]@);
            content.push(inner);
            i = i + 1;
        }
        let copy = GameMap {
            tiles: self.tiles.clone(),
            width: self.width,
            height: self.height,
            revealed_tiles: self.revealed_tiles.clone(),
            visible_tiles: self.visible_tiles.clone(),
            blocked: self.blocked.clone(),
            depth: self.depth,
            bloodstains: stains,
            tile_content: content,
        };
        assert(copy@.tiles =~= self@.tiles);
        assert(copy@.revealed =~= self@.revealed);
        assert(copy@.visible =~= self@.visible);
        assert(copy@.blocked =~= self@.blocked);
        assert(copy@.content =~= self@.content);
        copy
    }

    /// Marks as blocked exactly the wall tiles; every other field stays as it was.
    pub fn populate_blocked(&mut self)
        requires
            old(self).blocked.len() >= old(self).tiles.len(),
        ensures
            final(self).blocked@.len() == old(self).blocked@.len(),
            forall|i: int| 0 <= i < old(self).tiles@.len() ==>
                final(self).blocked@[i] == (old(self).tiles@[i] == TileType::Wall),
            forall|i: int| old(self).tiles@.len() <= i < old(self).blocked@.len() ==>
                final(self).blocked@[i] == old(self).blocked@[i],
            final(self).tiles == old(self).tiles,
            final(self).width == old(self).width,
            final(self).height == old(self).height,
            final(self).revealed_tiles == old(self).revealed_tiles,
            final(self).visible_tiles == old(self).visible_tiles,
            final(self).depth == old(self).depth,
            final(self).bloodstains == old(self).bloodstains,
            final(self).tile_content == old(self).tile_content,
    {
        let n = self.tiles.len();
        let mut i: usize = 0;
        while i < n
            invariant
                n == self.tiles.len(),
                i <= n,
                self.blocked@.len() == old(self).blocked@.len(),
                forall|k: int| 0 <= k < i ==> self.blocked@[k] == (self.tiles@[k] == TileType::Wall),
                forall|k: int| i <= k < self.blocked@.len() ==> self.blocked@[k] == old(self).blocked@[k],
                self.tiles == old(self).tiles,
                self.width == old(self).width,
                self.height == old(self).height,
                self.revealed_tiles == old(self).revealed_tiles,
                self.visible_tiles == old(self).visible_tiles,
                self.depth == old(self).depth,
                self.bloodstains == old(self).bloodstains,
                self.tile_content == old(self).tile_content,
                old(self).blocked.len() >= n,
            decreases n - i,
        {
            let wall = self.tiles[i] == TileType::Wall;
            self.blocked.set(i, wall);
            i = i + 1;
        }
    }

    /// Empties the entity list of every tile; every other field stays as it was.
    pub fn clear_content_index(&mut self)
        ensures
            final(self).tile_content@.len() == old(self).tile_content@.len(),
            forall|i: int| 0 <= i < final(self).tile_content@.len() ==>
                (#[trigger] final(self).tile_content@[i])@ == Seq::<EntityId>::empty(),
            final(self).tiles == old(self).tiles,
            final(self).width == old(self).width,
            final(self).height == old(self).height,
            final(self).revealed_tiles == old(self).revealed_tiles,
            final(self).visible_tiles == old(self).visible_tiles,
            final(self).blocked == old(self).blocked,
            final(self).depth == old(self).depth,
            final(self).bloodstains == old(self).bloodstains,
    {
        let n = self.tile_content.len();
        let mut i: usize = 0;
        while i < n
            invariant
                n == self.tile_content.len(),
                i <= n,
                forall|k: int| 0 <= k < i ==> (#[trigger] self.tile_content@[k])@ == Seq::<EntityId>::empty(),
                self.tiles == old(self).tiles,
                self.width == old(self).width,
                self.height == old(self).height,
                self.revealed_tiles == old(self).revealed_tiles,
                self.visible_tiles == old(self).visible_tiles,
                self.blocked == old(self).blocked,
                self.depth == old(self).depth,
                self.bloodstains == old(self).bloodstains,
                old(self).tile_content.len() == n,
            decreases n - i,
        {
            self.tile_content.set(i, Vec::new());
            i = i + 1;
        }
    }
}

/// Checks if the tile is in bounds: true when `0 <= x < width` and `0 <= y < height`.
pub fn is_inbounds(map: &GameMap, x: i32, y: i32) -> (r: bool)
    requires
        map.width > i32::MIN,
        map.height > i32::MIN,
    ensures
        r == map@.in_bounds(x as int, y as int),
{
    if x < 0 || x > map.width - 1 || y < 0 || y > map.height - 1 {
        return false;
    } else {
        return true;
    }
}

/// Checks if the tile at `(x, y)` is a wall and revealed.
pub fn is_revealed_and_wall(map: &GameMap, x: i32, y: i32) -> (r: bool)
    requires
        map.wf(),
        map@.in_bounds(x as int, y as int),
    ensures
        r == map@.revealed_wall_at(x as int, y as int),
{
    proof {
        lemma_idx_in_range(map.width as int, map.height as int, x as int, y as int);
        assert(map.tiles@.len() == map.tiles.len());
    }
    let idx = map.xy_idx(x, y);
    map.tiles[idx] == TileType::Wall && map.revealed_tiles[idx]
}

/// The glyph for a wall at `(x, y)`, chosen by which of its four neighbours are
/// revealed walls.
pub fn wall_glyph(map: &GameMap, x: i32, y: i32) -> (glyph: u16)
    requires
        map.wf(),
        i32::MIN < x < i32::MAX,
        i32::MIN < y < i32::MAX,
    ensures
        glyph == glyph_for_mask(map@.wall_mask(x as int, y as int)),
{
    let mut mask: u8 = 0;
    // North
    if is_inbounds(map, x, y - 1) && is_revealed_and_wall(map, x, y - 1) {
        mask += 1;
    }
    // South
    if is_inbounds(map, x, y + 1) && is_revealed_and_wall(map, x, y + 1) {
        mask += 2;
    }
    // West
    if is_inbounds(map, x - 1, y) && is_revealed_and_wall(map, x - 1, y) {
        mask += 4;
    }
    // East
    if is_inbounds(map, x + 1, y) && is_revealed_and_wall(map, x + 1, y) {
        mask += 8;
    }
    match mask {
        0 => 9,
        1 => 208,
        2 => 210,
        3 => 186,
        4 => 181,
        5 => 188,
        6 => 187,
        7 => 185,
        8 => 198,
        9 => 200,
        10 => 201,
        11 => 204,
        12 => 205,
        13 => 202,
        14 => 203,
        15 => 206,
        _ => 35,
    }
}

/// The cells that show the whole map, one per tile in index order, laid out 80
/// columns to a row: revealed tiles by their type (walls joined to their revealed
/// neighbours), stained tiles on a blood background, remembered but unseen tiles
/// dimmed, and unrevealed tiles as aether.
pub fn draw_map(map: &GameMap) -> (cells: Vec<ScreenCell>)
    requires
        map.wf(),
        map.tiles.len() <= i32::MAX,
    ensures
        cells@.len() == map.tiles@.len(),
        forall|i: int| 0 <= i < cells@.len() ==> cells@[i] == map@.map_cell(i),
{
    let n = map.tiles.len();
    let mut cells: Vec<ScreenCell> = Vec::new();
    let mut y: i32 = 0;
    let mut x: i32 = 0;
    let mut idx: usize = 0;
    while idx < n
        invariant
            map.wf(),
            n == map.tiles@.len(),
            n <= i32::MAX,
            idx <= n,
            x as int == idx as int % 80,
            y as int == idx as int / 80,
            cells@.len() == idx,
            forall|i: int| 0 <= i < idx ==> cells@[i] == map@.map_cell(i),
        decreases n - idx,
    {
        proof {
            assert(y as int <= idx as int) by (nonlinear_arith)
                requires y as int == idx as int / 80, idx >= 0;
        }
        let cell;
        if map.revealed_tiles[idx] {
            let glyph;
            let mut fg: u8;
            let mut bg: u8;
            match map.tiles[idx] {
                TileType::Floor => {
                    glyph = to_cp437('.');
                    fg = FLOOR_FG;
                    bg = FLOOR_BG;
                }
                TileType::Wall => {
                    glyph = wall_glyph(map, x, y);
                    fg = WALL_FG;
                    bg = WALL_BG;
                }
                TileType::DownStairs => {
                    glyph = to_cp437('»');
                    fg = STAIRS_FG;
                    bg = LIT_BG;
                }
            }
            if map.bloodstains.contains(&idx) {
                bg = BLOOD_BG;
            }
            if !map.visible_tiles[idx] {
                fg = MEM_FG;
                bg = DEFAULT_BG;
            }
            cell = ScreenCell { x, y, fg, bg, glyph };
        } else {
            let glyph = to_cp437('≈');
            cell = ScreenCell { x, y, fg: AETHER, bg: DEFAULT_BG, glyph };
        }
        assert(cell == map@.map_cell(idx as int));
        cells.push(cell);
        x += 1;
        if x > 79 {
            x = 0;
            y += 1;
        }
        proof {
            let i = idx as int;
            assert(x as int == (i + 1) % 80 && y as int == (i + 1) / 80) by (nonlinear_arith)
                requires
                    (x as int == i % 80 + 1 && i % 80 + 1 <= 79 && y as int == i / 80)
                    || (x as int == 0 && i % 80 == 79 && y as int == i / 80 + 1),
                    i >= 0;
        }
        idx += 1;
    }
    cells
}

/// Index and position agree: the tile at `(x, y)` of a map has index `y * width + x`,
/// and that index gives back `x` as its remainder and `y` as its quotient by the width.
pub proof fn law_index_position_roundtrip(m: MapView, x: int, y: int)
    requires
        m.wf(),
        m.in_bounds(x, y),
    ensures
        0 <= idx_of(m.width, x, y) < m.tiles.len(),
        idx_of(m.width, x, y) % m.width == x,
        idx_of(m.width, x, y) / m.width == y,
{
    lemma_idx_in_range(m.width, m.height, x, y);
    lemma_idx_facts(m.width, x, y);
}

/// A wall always joins to its neighbours with a box-drawing glyph: the neighbour mask
/// stays within 0 to 15, so the fallback `#` is never chosen.
pub proof fn law_wall_glyph_never_fallback(m: MapView, x: int, y: int)
    ensures
        0 <= m.wall_mask(x, y) <= 15,
        glyph_for_mask(m.wall_mask(x, y)) != 35,
{
}

/// The arms of a code page 437 wall glyph: whether it reaches up, down, left and
/// right. The double-line box-drawing characters are 185 ╣, 186 ║, 187 ╗, 188 ╝,
/// 200 ╚, 201 ╔, 202 ╩, 203 ╦, 204 ╠, 205 ═ and 206 ╬; the half lines 208 ╨,
/// 210 ╥, 181 ╡ and 198 ╞ reach one way; 9 ○ is a pillar with no arms.
pub open spec fn glyph_arms(g: u16) -> Option<(bool, bool, bool, bool)> {
    if g == 9 { Some((false, false, false, false)) }
    else if g == 208 { Some((true, false, false, false)) }
    else if g == 210 { Some((false, true, false, false)) }
    else if g == 181 { Some((false, false, true, false)) }
    else if g == 198 { Some((false, false, false, true)) }
    else if g == 186 { Some((true, true, false, false)) }
    else if g == 205 { Some((false, false, true, true)) }
    else if g == 188 { Some((true, false, true, false)) }
    else if g == 200 { Some((true, false, false, true)) }
    else if g == 187 { Some((false, true, true, false)) }
    else if g == 201 { Some((false, true, false, true)) }
    else if g == 185 { Some((true, true, true, false)) }
    else if g == 204 { Some((true, true, false, true)) }
    else if g == 202 { Some((true, false, true, true)) }
    else if g == 203 { Some((false, true, true, true)) }
    else if g == 206 { Some((true, true, true, true)) }
    else { None }
}

/// A wall is drawn with the box-drawing glyph whose arms point exactly at its
/// revealed wall neighbours: up when the tile to the north is one, down for the south,
/// left for the west and right for the east.
pub proof fn law_wall_glyph_points_at_neighbours(m: MapView, x: int, y: int)
    ensures
        glyph_arms(glyph_for_mask(m.wall_mask(x, y))) == Some((
            m.revealed_wall_at(x, y - 1),
            m.revealed_wall_at(x, y + 1),
            m.revealed_wall_at(x - 1, y),
            m.revealed_wall_at(x + 1, y),
        )),
{
}

/// Every exit leads to a neighbouring tile (one step, straight or diagonal, as its flag
/// says) inside the map that is not blocked.
pub proof fn law_exits_lead_to_open_neighbours(m: MapView, idx: int, k: int)
    requires
        m.wf(),
        m.tiles.len() <= usize::MAX,
        0 <= idx < m.tiles.len(),
        0 <= k < m.available_exits(idx).len(),
    ensures
        ({
            let e = m.available_exits(idx)[k];
            let x = idx % m.width;
            let y = idx / m.width;
            let tx = e.idx as int % m.width;
            let ty = e.idx as int / m.width;
            &&& 0 <= e.idx < m.tiles.len()
            &&& -1 <= tx - x <= 1
            &&& -1 <= ty - y <= 1
            &&& (tx != x || ty != y)
            &&& e.diagonal == (tx != x && ty != y)
            &&& m.exit_valid(tx, ty)
            &&& !m.blocked[e.idx as int]
        }),
{
    let x = idx % m.width;
    let y = idx / m.width;
    let s1 = m.exit_to(x, y, -1, 0, false);
    let s2 = m.exit_to(x, y, 1, 0, false);
    let s3 = m.exit_to(x, y, 0, -1, false);
    let s4 = m.exit_to(x, y, 0, 1, false);
    let s5 = m.exit_to(x, y, -1, -1, true);
    let s6 = m.exit_to(x, y, 1, -1, true);
    let s7 = m.exit_to(x, y, -1, 1, true);
    let s8 = m.exit_to(x, y, 1, 1, true);
    let all = m.available_exits(idx);
    assert(all == s1 + s2 + s3 + s4 + s5 + s6 + s7 + s8);
    let c1 = s1.len() as int;
    let c2 = c1 + s2.len();
    let c3 = c2 + s3.len();
    let c4 = c3 + s4.len();
    let c5 = c4 + s5.len();
    let c6 = c5 + s6.len();
    let c7 = c6 + s7.len();
    let e = all[k];
    if k < c1 {
        assert(e == s1[k]);
        lemma_exit_witness(m, x, y, -1, 0, false);
    } else if k < c2 {
        assert(e == s2[k - c1]);
        lemma_exit_witness(m, x, y, 1, 0, false);
    } else if k < c3 {
        assert(e == s3[k - c2]);
        lemma_exit_witness(m, x, y, 0, -1, false);
    } else if k < c4 {
        assert(e == s4[k - c3]);
        lemma_exit_witness(m, x, y, 0, 1, false);
    } else if k < c5 {
        assert(e == s5[k - c4]);
        lemma_exit_witness(m, x, y, -1, -1, true);
    } else if k < c6 {
        assert(e == s6[k - c5]);
        lemma_exit_witness(m, x, y, 1, -1, true);
    } else if k < c7 {
        assert(e == s7[k - c6]);
        lemma_exit_witness(m, x, y, -1, 1, true);
    } else {
        assert(e == s8[k - c7]);
        lemma_exit_witness(m, x, y, 1, 1, true);
    }
}

/// The exit produced by one candidate step is that step, to an open tile in the map.
proof fn lemma_exit_witness(m: MapView, x: int, y: int, dx: int, dy: int, diagonal: bool)
    requires
        m.wf(),
        m.tiles.len() <= usize::MAX,
        -1 <= dx <= 1,
        -1 <= dy <= 1,
        dx != 0 || dy != 0,
        diagonal == (dx != 0 && dy != 0),
    ensures
        forall|i: int| 0 <= i < m.exit_to(x, y, dx, dy, diagonal).len() ==> {
            let e = #[trigger] m.exit_to(x, y, dx, dy, diagonal)[i];
            &&& e.diagonal == diagonal
            &&& m.exit_valid(x + dx, y + dy)
            &&& e.idx as int % m.width == x + dx
            &&& e.idx as int / m.width == y + dy
            &&& 0 <= e.idx < m.tiles.len()
            &&& !m.blocked[e.idx as int]
        },
{
    if m.exit_valid(x + dx, y + dy) {
        law_index_position_roundtrip(m, x + dx, y + dy);
    }
}

} // verus!
