use vstd::prelude::*;
use bracket_lib::random::RandomNumberGenerator;
use crate::components::Position;
use crate::map::{idx_of, lemma_idx_in_range, GameMap, MapView, TileType};
use crate::outside::{bresenham_line, line_points, roll_dice};
use super::{all_revealed, BuilderMap};

verus! {

/// How diggers move in diffusion-limited aggregation.
#[derive(Clone, Copy, PartialEq, Eq, Structural, Debug)]
pub enum DLAAAlgorithm {
    WalkInwards,
    WalkOutwards,
    CentralAttractor,
}

/// Whether each dug tile is mirrored.
#[derive(Clone, Copy, PartialEq, Eq, Structural, Debug)]
pub enum Symmetry {
    NoSymmetry,
    Horizontal,
}

/// Builds a cave by diffusion-limited aggregation: diggers wander until they touch the
/// open area and dig there, until a share of the map (`floor_percent` per cent) is
/// floor.
#[derive(Clone, Copy, PartialEq, Eq, Structural, Debug)]
pub struct DLABuilder {
    pub algo: DLAAAlgorithm,
    pub brush_size: i32,
    pub symmetry: Symmetry,
    pub floor_percent: u32,
}

/// How many of the tiles are floor.
pub open spec fn floor_count(tiles: Seq<TileType>) -> nat
    decreases tiles.len(),
{
    if tiles.len() == 0 {
        0
    } else {
        floor_count(tiles.drop_last()) + (if tiles.last() == TileType::Floor { 1nat } else { 0nat })
    }
}

/// Counts the floor tiles of the map.
pub fn count_floor_tiles(map: &GameMap) -> (c: usize)
    ensures
        c as nat == floor_count(map.tiles@),
{
    let n = map.tiles.len();
    let mut c: usize = 0;
    let mut i: usize = 0;
    while i < n
        invariant
            n == map.tiles@.len(),
            i <= n,
            c as nat == floor_count(map.tiles@.subrange(0, i as int)),
            c <= i,
        decreases n - i,
    {
        assert(map.tiles@.subrange(0, i + 1).drop_last() =~= map.tiles@.subrange(0, i as int));
        if map.tiles[i] == TileType::Floor {
            c += 1;
        }
        i += 1;
    }
    assert(map.tiles@.subrange(0, n as int) =~= map.tiles@);
    c
}

/// One stagger of a digger: direction 1 moves west, 2 east, 3 north and anything else
/// south, each only while at least two tiles from that edge.
pub open spec fn stagger(x: int, y: int, dir: int, w: int, h: int) -> (int, int) {
    if dir == 1 {
        if x > 2 { (x - 1, y) } else { (x, y) }
    } else if dir == 2 {
        if x < w - 2 { (x + 1, y) } else { (x, y) }
    } else if dir == 3 {
        if y > 2 { (x, y - 1) } else { (x, y) }
    } else {
        if y < h - 2 { (x, y + 1) } else { (x, y) }
    }
}

/// Moves a digger one step in direction `dir` (see `stagger`).
pub fn stagger_step(x: i32, y: i32, dir: i32, w: i32, h: i32) -> (p: (i32, i32))
    requires
        w > i32::MIN + 2,
        h > i32::MIN + 2,
    ensures
        (p.0 as int, p.1 as int) == stagger(x as int, y as int, dir as int, w as int, h as int),
{
    let mut digger_x = x;
    let mut digger_y = y;
    match dir {
        1 => {
            if digger_x > 2 {
                digger_x -= 1;
            }
        }
        2 => {
            if digger_x < w - 2 {
                digger_x += 1;
            }
        }
        3 => {
            if digger_y > 2 {
                digger_y -= 1;
            }
        }
        _ => {
            if digger_y < h - 2 {
                digger_y += 1;
            }
        }
    }
    (digger_x, digger_y)
}

impl DLABuilder {
    /// Walking inwards with a brush of two.
    pub fn new() -> (b: Box<DLABuilder>)
        ensures
            *b == (DLABuilder { algo: DLAAAlgorithm::WalkInwards, brush_size: 2, symmetry: Symmetry::NoSymmetry, floor_percent: 25 }),
    {
        Box::new(DLABuilder { algo: DLAAAlgorithm::WalkInwards, brush_size: 2, symmetry: Symmetry::NoSymmetry, floor_percent: 25 })
    }

    /// Walking inwards with a brush of one.
    pub fn walk_inwards() -> (b: Box<DLABuilder>)
        ensures
            *b == (DLABuilder { algo: DLAAAlgorithm::WalkInwards, brush_size: 1, symmetry: Symmetry::NoSymmetry, floor_percent: 25 }),
    {
        Box::new(DLABuilder { algo: DLAAAlgorithm::WalkInwards, brush_size: 1, symmetry: Symmetry::NoSymmetry, floor_percent: 25 })
    }

    /// Walking outwards from the centre with a brush of two.
    pub fn walk_outwards() -> (b: Box<DLABuilder>)
        ensures
            *b == (DLABuilder { algo: DLAAAlgorithm::WalkOutwards, brush_size: 2, symmetry: Symmetry::NoSymmetry, floor_percent: 25 }),
    {
        Box::new(DLABuilder { algo: DLAAAlgorithm::WalkOutwards, brush_size: 2, symmetry: Symmetry::NoSymmetry, floor_percent: 25 })
    }

    /// Diggers drawn straight towards the centre, brush of two.
    pub fn central_attractor() -> (b: Box<DLABuilder>)
        ensures
            *b == (DLABuilder { algo: DLAAAlgorithm::CentralAttractor, brush_size: 2, symmetry: Symmetry::NoSymmetry, floor_percent: 25 }),
    {
        Box::new(DLABuilder { algo: DLAAAlgorithm::CentralAttractor, brush_size: 2, symmetry: Symmetry::NoSymmetry, floor_percent: 25 })
    }

    /// Central attractor mirrored horizontally, which gives insect-like shapes.
    pub fn insectoid() -> (b: Box<DLABuilder>)
        ensures
            *b == (DLABuilder { algo: DLAAAlgorithm::CentralAttractor, brush_size: 2, symmetry: Symmetry::Horizontal, floor_percent: 25 }),
    {
        Box::new(DLABuilder { algo: DLAAAlgorithm::CentralAttractor, brush_size: 2, symmetry: Symmetry::Horizontal, floor_percent: 25 })
    }

    /// How many floor tiles the cave should reach: `floor_percent` per cent of
    /// `width * height`, rounded down.
    pub fn desired_floor_tiles(&self, map: &GameMap) -> (d: usize)
        requires
            map.wf(),
            map.width * map.height <= i32::MAX,
            self.floor_percent <= 100,
        ensures
            d as int == (self.floor_percent as int) * (map.width * map.height) / 100,
    {
        let total_tiles = map.width * map.height;
        assert(0 <= map.width * map.height) by (nonlinear_arith)
            requires map.width > 0, map.height > 0;
        assert((self.floor_percent as int) * (total_tiles as int) <= 100 * i32::MAX) by (nonlinear_arith)
            requires self.floor_percent <= 100, 0 <= total_tiles <= i32::MAX;
        assert(0 <= (self.floor_percent as int) * (total_tiles as int)) by (nonlinear_arith)
            requires 0 <= total_tiles;
        let scaled = (self.floor_percent as u64) * (total_tiles as u64);
        (scaled / 100) as usize
    }

    /// Whether the cave is still short of its size: fewer floor tiles than
    /// `floor_percent` per cent of the map (see `desired_floor_tiles`), so that another
    /// digger is sent out.
    pub fn keeps_digging(&self, map: &GameMap) -> (r: bool)
        requires
            map.wf(),
            map.width * map.height <= i32::MAX,
            self.floor_percent <= 100,
        ensures
            r == (floor_count(map.tiles@) < (self.floor_percent as int) * (map.width * map.height) / 100),
    {
        count_floor_tiles(map) < self.desired_floor_tiles(map)
    }

    /// Opens the seed of the cave: the centre tile and its four neighbours (by index:
    /// `c`, `c - 1`, `c + 1`, `c - width`, `c + width`) become floor; then snapshots.
    /// Gives the centre position.
    pub fn start_seed(&self, build_data: &mut BuilderMap) -> (start: Position)
        requires
            old(build_data).map.wf(),
            old(build_data).map.height >= 3,
        ensures
            start.x == old(build_data).map.width / 2,
            start.y == old(build_data).map.height / 2,
            ({
                let m0 = old(build_data).map@;
                let c = idx_of(m0.width, start.x as int, start.y as int);
                final(build_data).map@ == (MapView {
                    tiles: m0.tiles.update(c, TileType::Floor).update(c - 1, TileType::Floor).update(c + 1, TileType::Floor)
                        .update(c - m0.width, TileType::Floor).update(c + m0.width, TileType::Floor),
                    ..m0
                })
            }),
            final(build_data).starting_pos == old(build_data).starting_pos,
            final(build_data).history@ == old(build_data).history@.push(final(build_data).history@.last()),
            final(build_data).history@.last()@ == all_revealed(final(build_data).map@),
    {
        let starting_pos = Position { x: build_data.map.width / 2, y: build_data.map.height / 2 };
        let w = build_data.map.width;
        let h = build_data.map.height;
        proof {
            lemma_idx_in_range(w as int, h as int, starting_pos.x as int, starting_pos.y as int);
            lemma_idx_in_range(w as int, h as int, starting_pos.x as int, starting_pos.y + 1);
            assert(build_data.map.tiles@.len() == build_data.map.tiles.len());
            assert(idx_of(w as int, starting_pos.x as int, starting_pos.y + 1) == idx_of(w as int, starting_pos.x as int, starting_pos.y as int) + w) by (nonlinear_arith);
            assert(idx_of(w as int, starting_pos.x as int, starting_pos.y as int) >= w) by (nonlinear_arith)
                requires starting_pos.y >= 1, w > 0, starting_pos.x >= 0;
        }
        let start_idx = build_data.map.xy_idx(starting_pos.x, starting_pos.y);
        build_data.map.tiles.set(start_idx, TileType::Floor);
        build_data.map.tiles.set(start_idx - 1, TileType::Floor);
        build_data.map.tiles.set(start_idx + 1, TileType::Floor);
        build_data.map.tiles.set(start_idx - w as usize, TileType::Floor);
        build_data.map.tiles.set(start_idx + w as usize, TileType::Floor);
        build_data.take_snapshot();
        assert(build_data.history@ =~= old(build_data).history@.push(build_data.history@.last()));
        starting_pos
    }

    /// Places a digger for a walk: `x` in `2..=width-2`, `y` in `2..=height-2`, at random.
    pub fn roll_digger(&self, rng: &mut RandomNumberGenerator, map: &GameMap) -> (p: (i32, i32))
        requires
            4 <= map.width,
            4 <= map.height,
        ensures
            2 <= p.0 <= map.width - 2,
            2 <= p.1 <= map.height - 2,
    {
        let digger_x = roll_dice(rng, 1, map.width - 3) + 1;
        let digger_y = roll_dice(rng, 1, map.height - 3) + 1;
        (digger_x, digger_y)
    }
}


/// A digger that starts at least two tiles inside the map stays there, whatever the
/// direction it staggers in.
pub proof fn law_stagger_stays_inside(x: int, y: int, dir: int, w: int, h: int)
    requires
        2 <= x <= w - 2,
        2 <= y <= h - 2,
    ensures
        2 <= stagger(x, y, dir, w, h).0 <= w - 2,
        2 <= stagger(x, y, dir, w, h).1 <= h - 2,
        -1 <= stagger(x, y, dir, w, h).0 - x <= 1,
        -1 <= stagger(x, y, dir, w, h).1 - y <= 1,
{
}


/// Where a digger drawn along `path` stops: from `(x, y)`, having come from
/// `(px, py)`, it moves to the next point of the path while it stands on wall; the
/// result is the tile it stood on before its last move.
pub open spec fn line_walk(m: MapView, x: int, y: int, px: int, py: int, path: Seq<Position>) -> (int, int)
    decreases path.len(),
{
    if m.tile_at(x, y) != TileType::Wall || path.len() == 0 {
        (px, py)
    } else {
        line_walk(m, path[0].x as int, path[0].y as int, x, y, path.drop_first())
    }
}

/// Every point of `path` lies on the map.
pub open spec fn path_on_map(m: MapView, path: Seq<Position>) -> bool {
    forall|k: int| 0 <= k < path.len() ==> m.in_bounds((#[trigger] path[k]).x as int, path[k].y as int)
}

/// Walks a digger from `(x, y)` along `path` (see `line_walk`).
pub fn follow_line(map: &GameMap, x: i32, y: i32, path: &Vec<Position>) -> (p: (i32, i32))
    requires
        map.wf(),
        map@.in_bounds(x as int, y as int),
        path_on_map(map@, path@),
    ensures
        (p.0 as int, p.1 as int) == line_walk(map@, x as int, y as int, x as int, y as int, path@),
{
    let ghost m = map@;
    let mut digger_x = x;
    let mut digger_y = y;
    let mut prev_x = x;
    let mut prev_y = y;
    proof {
        lemma_idx_in_range(map.width as int, map.height as int, x as int, y as int);
        assert(map.tiles@.len() == map.tiles.len());
        assert(path@.subrange(0, path@.len() as int) =~= path@);
    }
    let mut digger_idx = map.xy_idx(digger_x, digger_y);
    let mut k: usize = 0;
    while map.tiles[digger_idx] == TileType::Wall && k < path.len()
        invariant
            map.wf(),
            m == map@,
            map.tiles@.len() == map.tiles.len(),
            path_on_map(m, path@),
            k <= path@.len(),
            m.in_bounds(digger_x as int, digger_y as int),
            digger_idx as int == idx_of(m.width, digger_x as int, digger_y as int),
            digger_idx < map.tiles@.len(),
            line_walk(m, x as int, y as int, x as int, y as int, path@)
                == line_walk(m, digger_x as int, digger_y as int, prev_x as int, prev_y as int, path@.subrange(k as int, path@.len() as int)),
        decreases path@.len() - k,
    {
        let ghost rest = path@.subrange(k as int, path@.len() as int);
        assert(rest.drop_first() =~= path@.subrange(k + 1, path@.len() as int));
        prev_x = digger_x;
        prev_y = digger_y;
        digger_x = path[k].x;
        digger_y = path[k].y;
        assert(m.in_bounds(path@[k as int].x as int, path@[k as int].y as int));
        proof {
            lemma_idx_in_range(map.width as int, map.height as int, digger_x as int, digger_y as int);
        }
        digger_idx = map.xy_idx(digger_x, digger_y);
        k += 1;
    }
    (prev_x, prev_y)
}

/// Whether every point of `path` lies on the map.
fn all_on_map(map: &GameMap, path: &Vec<Position>) -> (r: bool)
    requires
        map.width > i32::MIN,
        map.height > i32::MIN,
    ensures
        r == path_on_map(map@, path@),
{
    let mut k: usize = 0;
    while k < path.len()
        invariant
            map.width > i32::MIN,
            map.height > i32::MIN,
            k <= path@.len(),
            forall|j: int| 0 <= j < k ==> map@.in_bounds((#[trigger] path@[j]).x as int, path@[j].y as int),
        decreases path@.len() - k,
    {
        if !crate::map::is_inbounds(map, path[k].x, path[k].y) {
            return false;
        }
        k += 1;
    }
    true
}

impl DLABuilder {
    /// One digger of the central attractor: dropped at random inside the map (see
    /// `roll_digger`) and drawn along the straight line to `start`, it stops as
    /// `line_walk` says; the cave grows at the tile it gives. `None` when a point of
    /// that line lies off the map.
    pub fn attractor_target(&self, rng: &mut RandomNumberGenerator, map: &GameMap, start: Position) -> (r: Option<(i32, i32)>)
        requires
            map.wf(),
            4 <= map.width < 0x10000,
            4 <= map.height < 0x10000,
            map@.in_bounds(start.x as int, start.y as int),
        ensures
            exists|dx: i32, dy: i32| #![trigger bresenham_line(dx, dy, start.x, start.y)] {
                &&& 2 <= dx <= map.width - 2
                &&& 2 <= dy <= map.height - 2
                &&& ({
                    let line = bresenham_line(dx, dy, start.x, start.y);
                    &&& path_on_map(map@, line) ==> (r matches Some(p)
                        && (p.0 as int, p.1 as int) == line_walk(map@, dx as int, dy as int, dx as int, dy as int, line))
                    &&& !path_on_map(map@, line) ==> r is None
                })
            },
    {
        let (digger_x, digger_y) = self.roll_digger(rng, map);
        let path = line_points(Position { x: digger_x, y: digger_y }, start);
        if all_on_map(map, &path) {
            let (px, py) = follow_line(map, digger_x, digger_y, &path);
            Some((px, py))
        } else {
            None
        }
    }
}


/// One step of an inward walk: a digger still in rock at `(x, y)` staggers in direction
/// `dir` (see `stagger`); one that stands on open ground is done (`None`), and the cave
/// grows at the tile it came from.
pub open spec fn inward_step_spec(m: MapView, x: int, y: int, dir: int) -> Option<(int, int)> {
    if m.tile_at(x, y) == TileType::Wall { Some(stagger(x, y, dir, m.width, m.height)) } else { None }
}

/// One step of an outward walk: a digger still on floor at `(x, y)` staggers in
/// direction `dir`; one that reached rock is done (`None`), and the cave grows there.
pub open spec fn outward_step_spec(m: MapView, x: int, y: int, dir: int) -> Option<(int, int)> {
    if m.tile_at(x, y) == TileType::Floor { Some(stagger(x, y, dir, m.width, m.height)) } else { None }
}

/// One step of an inward walk (see `inward_step_spec`).
pub fn inward_step(map: &GameMap, x: i32, y: i32, dir: i32) -> (r: Option<(i32, i32)>)
    requires
        map.wf(),
        map@.in_bounds(x as int, y as int),
    ensures
        match r {
            Some(p) => inward_step_spec(map@, x as int, y as int, dir as int) == Some((p.0 as int, p.1 as int)),
            None => inward_step_spec(map@, x as int, y as int, dir as int) is None,
        },
{
    proof {
        lemma_idx_in_range(map.width as int, map.height as int, x as int, y as int);
        assert(map.tiles@.len() == map.tiles.len());
    }
    let idx = map.xy_idx(x, y);
    if map.tiles[idx] == TileType::Wall {
        Some(stagger_step(x, y, dir, map.width, map.height))
    } else {
        None
    }
}

/// One step of an outward walk (see `outward_step_spec`).
pub fn outward_step(map: &GameMap, x: i32, y: i32, dir: i32) -> (r: Option<(i32, i32)>)
    requires
        map.wf(),
        map@.in_bounds(x as int, y as int),
    ensures
        match r {
            Some(p) => outward_step_spec(map@, x as int, y as int, dir as int) == Some((p.0 as int, p.1 as int)),
            None => outward_step_spec(map@, x as int, y as int, dir as int) is None,
        },
{
    proof {
        lemma_idx_in_range(map.width as int, map.height as int, x as int, y as int);
        assert(map.tiles@.len() == map.tiles.len());
    }
    let idx = map.xy_idx(x, y);
    if map.tiles[idx] == TileType::Floor {
        Some(stagger_step(x, y, dir, map.width, map.height))
    } else {
        None
    }
}

} // verus!
