use vstd::prelude::*;
use std::collections::HashMap;
use bracket_lib::random::RandomNumberGenerator;
use crate::components::Position;
use crate::map::{idx_of, lemma_idx_in_range, GameMap, MapView, TileType};
use crate::outside::roll_dice;
use super::{all_revealed, copy_history, find_start, has_start_floor, is_start_position, revealed_snapshot};
use crate::map::lemma_idx_unique;

verus! {

/// How the distance from a tile to a Voronoi seed is measured.
#[derive(Clone, Copy, PartialEq, Eq, Structural, Debug)]
pub enum DistanceAlgo {
    Pythagoras,
    Manhattan,
    Chebyshev,
}

/// Builds a level of Voronoi cells: random seeds split the map into regions, and the
/// tiles between regions stay wall.
pub struct VoronoiCellBuilder {
    pub map: GameMap,
    pub starting_pos: Position,
    pub depth: i32,
    pub history: Vec<GameMap>,
    pub noise_areas: HashMap<i32, Vec<usize>>,
    pub n_seeds: usize,
    pub distance_algo: DistanceAlgo,
    pub spawn_list: Vec<(usize, String)>,
}

pub open spec fn abs_diff(a: int, b: int) -> int {
    if a >= b { a - b } else { b - a }
}

/// The distance between `(x1, y1)` and `(x2, y2)`: squared Euclidean, Manhattan, or
/// Chebyshev.
pub open spec fn seed_distance(algo: DistanceAlgo, x1: int, y1: int, x2: int, y2: int) -> int {
    let dx = abs_diff(x1, x2);
    let dy = abs_diff(y1, y2);
    match algo {
        DistanceAlgo::Pythagoras => dx * dx + dy * dy,
        DistanceAlgo::Manhattan => dx + dy,
        DistanceAlgo::Chebyshev => if dx > dy { dx } else { dy },
    }
}

/// Seed `k` is the first of the seeds nearest to `(x, y)`.
pub open spec fn is_nearest_seed(algo: DistanceAlgo, seeds: Seq<(usize, Position)>, x: int, y: int, k: int) -> bool {
    &&& 0 <= k < seeds.len()
    &&& forall|j: int| 0 <= j < seeds.len() ==>
        seed_distance(algo, x, y, seeds[k].1.x as int, seeds[k].1.y as int)
            <= seed_distance(algo, x, y, #[trigger] seeds[j].1.x as int, seeds[j].1.y as int)
    &&& forall|j: int| 0 <= j < k ==>
        seed_distance(algo, x, y, #[trigger] seeds[j].1.x as int, seeds[j].1.y as int)
            > seed_distance(algo, x, y, seeds[k].1.x as int, seeds[k].1.y as int)
}

/// Coordinates small enough that the distances are exact in single precision: two
/// squared differences of at most 2896 sum to less than 2^24.
pub open spec fn small_coord(v: int) -> bool {
    0 <= v <= 2896
}

/// The distance between two points (see `seed_distance`).
pub fn distance(algo: DistanceAlgo, x1: i32, y1: i32, x2: i32, y2: i32) -> (d: i64)
    requires
        small_coord(x1 as int),
        small_coord(y1 as int),
        small_coord(x2 as int),
        small_coord(y2 as int),
    ensures
        d as int == seed_distance(algo, x1 as int, y1 as int, x2 as int, y2 as int),
{
    let dx: i64 = if x1 >= x2 { (x1 - x2) as i64 } else { (x2 - x1) as i64 };
    let dy: i64 = if y1 >= y2 { (y1 - y2) as i64 } else { (y2 - y1) as i64 };
    match algo {
        DistanceAlgo::Pythagoras => {
            assert(dx * dx <= 2896 * 2896 && dy * dy <= 2896 * 2896) by (nonlinear_arith)
                requires 0 <= dx <= 2896, 0 <= dy <= 2896;
            dx * dx + dy * dy
        }
        DistanceAlgo::Manhattan => dx + dy,
        DistanceAlgo::Chebyshev => if dx > dy { dx } else { dy },
    }
}

/// Appends `candidate` to the seeds unless it is already one of them.
pub fn add_seed(seeds: &mut Vec<(usize, Position)>, candidate: (usize, Position))
    ensures
        old(seeds)@.contains(candidate) ==> final(seeds)@ == old(seeds)@,
        !old(seeds)@.contains(candidate) ==> final(seeds)@ == old(seeds)@.push(candidate),
{
    let mut k: usize = 0;
    while k < seeds.len()
        invariant
            k <= seeds@.len(),
            forall|j: int| 0 <= j < k ==> seeds@[j] != candidate,
        decreases seeds@.len() - k,
    {
        if seeds[k].0 == candidate.0 && seeds[k].1.x == candidate.1.x && seeds[k].1.y == candidate.1.y {
            assert(seeds@[k as int] == candidate);
            return;
        }
        k += 1;
    }
    seeds.push(candidate);
}

impl VoronoiCellBuilder {
    /// The builder before any generation step: a fresh level at `new_depth`, start at
    /// the origin, no history, no noise areas or spawns, 64 seeds.
    pub open spec fn is_fresh(&self, new_depth: int, algo: DistanceAlgo) -> bool {
        &&& self.map@ == GameMap::fresh_view(new_depth)
        &&& self.map.wf()
        &&& self.starting_pos == (Position { x: 0, y: 0 })
        &&& self.depth == new_depth
        &&& self.history@.len() == 0
        &&& self.noise_areas@ == Map::<i32, Vec<usize>>::empty()
        &&& self.n_seeds == 64
        &&& self.distance_algo == algo
        &&& self.spawn_list@.len() == 0
    }

    fn with_algo(new_depth: i32, algo: DistanceAlgo) -> (b: VoronoiCellBuilder)
        ensures
            b.is_fresh(new_depth as int, algo),
    {
        VoronoiCellBuilder {
            map: GameMap::new(new_depth),
            starting_pos: Position { x: 0, y: 0 },
            depth: new_depth,
            history: Vec::new(),
            noise_areas: HashMap::new(),
            n_seeds: 64,
            distance_algo: algo,
            spawn_list: Vec::new(),
        }
    }

    /// A builder measuring by Chebyshev distance.
    pub fn new(new_depth: i32) -> (b: VoronoiCellBuilder)
        ensures
            b.is_fresh(new_depth as int, DistanceAlgo::Chebyshev),
    {
        Self::with_algo(new_depth, DistanceAlgo::Chebyshev)
    }

    /// A builder measuring by Euclidean distance.
    pub fn pythagoras(new_depth: i32) -> (b: VoronoiCellBuilder)
        ensures
            b.is_fresh(new_depth as int, DistanceAlgo::Pythagoras),
    {
        Self::with_algo(new_depth, DistanceAlgo::Pythagoras)
    }

    /// A builder measuring by Manhattan distance.
    pub fn manhattan(new_depth: i32) -> (b: VoronoiCellBuilder)
        ensures
            b.is_fresh(new_depth as int, DistanceAlgo::Manhattan),
    {
        Self::with_algo(new_depth, DistanceAlgo::Manhattan)
    }

    /// A builder measuring by Chebyshev distance.
    pub fn chebyshev(new_depth: i32) -> (b: VoronoiCellBuilder)
        ensures
            b.is_fresh(new_depth as int, DistanceAlgo::Chebyshev),
    {
        Self::with_algo(new_depth, DistanceAlgo::Chebyshev)
    }

    /// A copy of the level being built.
    pub fn get_map(&self) -> (m: GameMap)
        ensures
            m@ == self.map@,
    {
        self.map.duplicate()
    }

    /// Where the player starts.
    pub fn get_starting_pos(&self) -> (p: Position)
        ensures
            p == self.starting_pos,
    {
        self.starting_pos
    }

    /// A copy of the snapshots taken so far, in order.
    pub fn get_snapshot_history(&self) -> (h: Vec<GameMap>)
        ensures
            h@.len() == self.history@.len(),
            forall|i: int| 0 <= i < h@.len() ==> (#[trigger] h@[i])@ == self.history@[i]@,
    {
        copy_history(&self.history)
    }

    /// The entities to spawn, by tile index and name.
    pub fn get_spawn_list(&self) -> (l: &Vec<(usize, String)>)
        ensures
            l@ == self.spawn_list@,
    {
        &self.spawn_list
    }

    /// Appends a copy of the current map, fully revealed, to the history.
    pub fn take_snapshot(&mut self)
        ensures
            final(self).map == old(self).map,
            final(self).starting_pos == old(self).starting_pos,
            final(self).depth == old(self).depth,
            final(self).n_seeds == old(self).n_seeds,
            final(self).distance_algo == old(self).distance_algo,
            final(self).history@.len() == old(self).history@.len() + 1,
            forall|i: int| 0 <= i < old(self).history@.len() ==> final(self).history@[i] == old(self).history@[i],
            final(self).history@.last()@ == all_revealed(old(self).map@),
    {
        let snapshot = revealed_snapshot(&self.map);
        self.history.push(snapshot);
    }

    /// Draws a candidate seed: a random tile with `1 <= x <= width - 1` and
    /// `1 <= y <= height - 1`, with its index.
    pub fn roll_seed(&self, rng: &mut RandomNumberGenerator) -> (c: (usize, Position))
        requires
            self.map.wf(),
            2 <= self.map.width < i32::MAX,
            2 <= self.map.height < i32::MAX,
        ensures
            1 <= c.1.x <= self.map.width - 1,
            1 <= c.1.y <= self.map.height - 1,
            c.0 as int == idx_of(self.map.width as int, c.1.x as int, c.1.y as int),
            (c.0 as int) < self.map.tiles@.len(),
    {
        let vx = roll_dice(rng, 1, self.map.width - 1);
        let vy = roll_dice(rng, 1, self.map.height - 1);
        proof {
            lemma_idx_in_range(self.map.width as int, self.map.height as int, vx as int, vy as int);
            assert(self.map.tiles@.len() == self.map.tiles.len());
        }
        let vidx = self.map.xy_idx(vx, vy);
        (vidx, Position { x: vx, y: vy })
    }

    /// For each tile in index order, the number of the first seed nearest to it.
    pub fn membership(&self, seeds: &Vec<(usize, Position)>) -> (m: Vec<i32>)
        requires
            self.map.wf(),
            small_coord(self.map.width as int),
            small_coord(self.map.height as int),
            0 < seeds@.len() <= i32::MAX,
            forall|j: int| 0 <= j < seeds@.len() ==> small_coord((#[trigger] seeds@[j]).1.x as int)
                && small_coord(seeds@[j].1.y as int),
        ensures
            m@.len() == self.map.tiles@.len(),
            forall|i: int| 0 <= i < m@.len() ==> is_nearest_seed(self.distance_algo, seeds@,
                i % (self.map.width as int), i / (self.map.width as int), #[trigger] m@[i] as int),
    {
        let n = self.map.tiles.len();
        let w = self.map.width;
        let algo = self.distance_algo;
        let mut result: Vec<i32> = Vec::new();
        let mut i: usize = 0;
        while i < n
            invariant
                n == self.map.tiles@.len(),
                w == self.map.width,
                algo == self.distance_algo,
                self.map.wf(),
                small_coord(w as int),
                small_coord(self.map.height as int),
                0 < seeds@.len() <= i32::MAX,
                forall|j: int| 0 <= j < seeds@.len() ==> small_coord((#[trigger] seeds@[j]).1.x as int)
                    && small_coord(seeds@[j].1.y as int),
                i <= n,
                result@.len() == i,
                forall|k: int| 0 <= k < i ==> is_nearest_seed(algo, seeds@,
                    k % (w as int), k / (w as int), #[trigger] result@[k] as int),
            decreases n - i,
        {
            proof {
                assert((i as int) / (w as int) <= self.map.height) by (nonlinear_arith)
                    requires 0 <= i < w * self.map.height, w > 0;
                assert(0 <= (i as int) % (w as int) < w) by (nonlinear_arith)
                    requires w > 0;
                assert((i as int) / (w as int) <= i) by (nonlinear_arith)
                    requires w > 0, i >= 0;
            }
            let x = (i % w as usize) as i32;
            let y = (i / w as usize) as i32;
            let mut best: usize = 0;
            let mut best_dist = distance(algo, x, y, seeds[0].1.x, seeds[0].1.y);
            let mut j: usize = 1;
            while j < seeds.len()
                invariant
                    0 < seeds@.len() <= i32::MAX,
                    forall|t: int| 0 <= t < seeds@.len() ==> small_coord((#[trigger] seeds@[t]).1.x as int)
                        && small_coord(seeds@[t].1.y as int),
                    small_coord(x as int),
                    small_coord(y as int),
                    1 <= j <= seeds@.len(),
                    best < j,
                    best_dist as int == seed_distance(algo, x as int, y as int, seeds@[best as int].1.x as int, seeds@[best as int].1.y as int),
                    forall|t: int| 0 <= t < j ==> best_dist <= seed_distance(algo, x as int, y as int,
                        #[trigger] seeds@[t].1.x as int, seeds@[t].1.y as int),
                    forall|t: int| 0 <= t < best ==> seed_distance(algo, x as int, y as int,
                        #[trigger] seeds@[t].1.x as int, seeds@[t].1.y as int) > best_dist,
                decreases seeds@.len() - j,
            {
                let d = distance(algo, x, y, seeds[j].1.x, seeds[j].1.y);
                if d < best_dist {
                    best = j;
                    best_dist = d;
                }
                j += 1;
            }
            proof {
                assert(is_nearest_seed(algo, seeds@, x as int, y as int, best as int));
            }
            result.push(best as i32);
            i += 1;
        }
        result
    }

    /// Marks the cell between rows and carves: for each interior row in turn, every
    /// interior tile with fewer than two neighbours of another seed becomes floor,
    /// then a snapshot is taken.
    pub fn carve_walls(&mut self, membership: &Vec<i32>)
        requires
            old(self).map.wf(),
            membership@.len() == old(self).map.tiles@.len(),
        ensures
            final(self).map@ == (MapView {
                tiles: carved_tiles(old(self).map@, membership@, old(self).map.height - 2),
                ..old(self).map@
            }),
            final(self).starting_pos == old(self).starting_pos,
            final(self).depth == old(self).depth,
            final(self).n_seeds == old(self).n_seeds,
            final(self).distance_algo == old(self).distance_algo,
            final(self).history@.len() == old(self).history@.len() + (if old(self).map.height >= 2 { old(self).map.height - 2 } else { 0 }),
            forall|i: int| 0 <= i < old(self).history@.len() ==> final(self).history@[i] == old(self).history@[i],
            forall|k: int| 0 <= k < final(self).history@.len() - old(self).history@.len() ==>
                (#[trigger] final(self).history@[old(self).history@.len() + k])@ == all_revealed(MapView {
                    tiles: carved_tiles(old(self).map@, membership@, k + 1),
                    ..old(self).map@
                }),
    {
        let ghost m0 = self.map@;
        let ghost h0 = self.history@;
        let ghost mem = membership@;
        let w = self.map.width;
        let h = self.map.height;
        let ghost n = m0.tiles.len();
        proof { assert(self.map.tiles@.len() == self.map.tiles.len()); }
        let mut y: i32 = 1;
        while y < h - 1
            invariant
                self.map.wf(),
                self.map@ == (MapView { tiles: self.map@.tiles, ..m0 }),
                w == m0.width,
                h == m0.height,
                n == m0.tiles.len(),
                n <= usize::MAX,
                self.map@.tiles.len() == n,
                mem == membership@,
                mem.len() == n,
                1 <= y,
                y <= h - 1 || h < 2,
                y == 1 || y <= h - 1,
                self.map@.tiles == carved_tiles(m0, mem, y - 1),
                self.starting_pos == old(self).starting_pos,
                self.depth == old(self).depth,
                self.n_seeds == old(self).n_seeds,
                self.distance_algo == old(self).distance_algo,
                self.history@.len() == h0.len() + y - 1,
                forall|i: int| 0 <= i < h0.len() ==> self.history@[i] == h0[i],
                forall|k: int| 0 <= k < y - 1 ==> (#[trigger] self.history@[h0.len() + k])@ == all_revealed(MapView {
                    tiles: carved_tiles(m0, mem, k + 1),
                    ..m0
                }),
            decreases h - y,
        {
            let mut x: i32 = 1;
            while x < w - 1
                invariant
                    self.map.wf(),
                    self.map@ == (MapView { tiles: self.map@.tiles, ..m0 }),
                    w == m0.width,
                    h == m0.height,
                    n == m0.tiles.len(),
                    n <= usize::MAX,
                    self.map@.tiles.len() == n,
                    mem == membership@,
                    mem.len() == n,
                    1 <= y < h - 1,
                    1 <= x,
                    x <= w - 1 || w < 2,
                    forall|i: int| 0 <= i < n ==> #[trigger] self.map@.tiles[i] == (
                        if i / (w as int) == y && 1 <= i % (w as int) < x && differing_neighbours(mem, w as int, i % (w as int), y as int) < 2 {
                            TileType::Floor
                        } else {
                            carved_tiles(m0, mem, y - 1)[i]
                        }),
                    self.starting_pos == old(self).starting_pos,
                    self.depth == old(self).depth,
                    self.n_seeds == old(self).n_seeds,
                    self.distance_algo == old(self).distance_algo,
                    self.history@.len() == h0.len() + y - 1,
                    forall|i: int| 0 <= i < h0.len() ==> self.history@[i] == h0[i],
                    forall|k: int| 0 <= k < y - 1 ==> (#[trigger] self.history@[h0.len() + k])@ == all_revealed(MapView {
                        tiles: carved_tiles(m0, mem, k + 1),
                        ..m0
                    }),
                decreases w - x,
            {
                proof {
                    lemma_idx_in_range(w as int, h as int, x as int, y as int);
                    lemma_idx_in_range(w as int, h as int, x - 1, y as int);
                    lemma_idx_in_range(w as int, h as int, x + 1, y as int);
                    lemma_idx_in_range(w as int, h as int, x as int, y - 1);
                    lemma_idx_in_range(w as int, h as int, x as int, y + 1);
                }
                let mut neighbors: i32 = 0;
                let my_idx = self.map.xy_idx(x, y);
                let my_seed = membership[my_idx];
                if membership[self.map.xy_idx(x - 1, y)] != my_seed { neighbors += 1; }
                if membership[self.map.xy_idx(x + 1, y)] != my_seed { neighbors += 1; }
                if membership[self.map.xy_idx(x, y - 1)] != my_seed { neighbors += 1; }
                if membership[self.map.xy_idx(x, y + 1)] != my_seed { neighbors += 1; }
                assert(neighbors == differing_neighbours(mem, w as int, x as int, y as int));
                if neighbors < 2 {
                    self.map.tiles.set(my_idx, TileType::Floor);
                }
                proof {
                    assert forall|i: int| 0 <= i < n implies #[trigger] self.map@.tiles[i] == (
                        if i / (w as int) == y && 1 <= i % (w as int) < x + 1 && differing_neighbours(mem, w as int, i % (w as int), y as int) < 2 {
                            TileType::Floor
                        } else {
                            carved_tiles(m0, mem, y - 1)[i]
                        }) by {
                        lemma_idx_unique(w as int, x as int, y as int, i);
                    }
                }
                x += 1;
            }
            proof {
                assert forall|i: int| 0 <= i < n implies #[trigger] self.map@.tiles[i] == carved_tiles(m0, mem, y as int)[i] by {
                    assert(0 <= i % (w as int) < w && 0 <= i / (w as int)) by (nonlinear_arith)
                        requires w > 0, i >= 0;
                    assert(i / (w as int) < h) by (nonlinear_arith)
                        requires 0 <= i < w * h, w > 0;
                }
                assert(self.map@.tiles =~= carved_tiles(m0, mem, y as int));
            }
            self.take_snapshot();
            proof {
                assert(self.history@[h0.len() + (y - 1)]@ == all_revealed(MapView {
                    tiles: carved_tiles(m0, mem, y as int),
                    ..m0
                }));
            }
            y += 1;
        }
        proof {
            assert(carved_tiles(m0, mem, y - 1) =~= carved_tiles(m0, mem, h - 2)) by {
                assert forall|i: int| 0 <= i < n implies #[trigger] carved_tiles(m0, mem, y - 1)[i] == carved_tiles(m0, mem, h - 2)[i] by {
                    assert(i / (w as int) < h) by (nonlinear_arith)
                        requires 0 <= i < w * h, w > 0;
                }
            }
        }
    }

    /// Walks west from the middle of the map to the first floor tile, makes it the
    /// start, snapshots, and gives its index.
    pub fn place_start(&mut self) -> (start_idx: usize)
        requires
            old(self).map.wf(),
            has_start_floor(old(self).map@),
        ensures
            is_start_position(old(self).map@, final(self).starting_pos),
            start_idx as int == idx_of(old(self).map.width as int, final(self).starting_pos.x as int, final(self).starting_pos.y as int),
            final(self).map == old(self).map,
            final(self).depth == old(self).depth,
            final(self).n_seeds == old(self).n_seeds,
            final(self).distance_algo == old(self).distance_algo,
            final(self).history@ == old(self).history@.push(final(self).history@.last()),
            final(self).history@.last()@ == all_revealed(old(self).map@),
    {
        let (pos, start_idx) = find_start(&self.map);
        self.starting_pos = pos;
        self.take_snapshot();
        assert(self.history@ =~= old(self).history@.push(self.history@.last()));
        start_idx
    }

    /// Builds the cells of the level from the seeds: each tile joins its first nearest
    /// seed, the walls between cells are carved row by row (see `carve_walls`), and the
    /// start is placed (see `place_start`) and its index given. A level whose middle
    /// row has no floor at or west of the middle column has no start: then the map is
    /// left carved and `None` comes back.
    pub fn build_cells(&mut self, seeds: &Vec<(usize, Position)>) -> (r: Option<usize>)
        requires
            old(self).map.wf(),
            small_coord(old(self).map.width as int),
            small_coord(old(self).map.height as int),
            0 < seeds@.len() <= i32::MAX,
            forall|j: int| 0 <= j < seeds@.len() ==> small_coord((#[trigger] seeds@[j]).1.x as int)
                && small_coord(seeds@[j].1.y as int),
        ensures
            ({
                let carved = cells_map(old(self).map@, old(self).distance_algo, seeds@);
                &&& final(self).map@ == carved
                &&& has_start_floor(carved) ==> (r matches Some(idx)
                    && is_start_position(carved, final(self).starting_pos)
                    && idx as int == idx_of(carved.width, final(self).starting_pos.x as int, final(self).starting_pos.y as int))
                &&& !has_start_floor(carved) ==> r is None && final(self).starting_pos == old(self).starting_pos
            }),
            final(self).depth == old(self).depth,
            final(self).n_seeds == old(self).n_seeds,
            final(self).distance_algo == old(self).distance_algo,
            final(self).history@.len() == old(self).history@.len() + (if old(self).map.height >= 2 { old(self).map.height - 2 } else { 0 })
                + (if r is Some { 1int } else { 0int }),
            forall|i: int| 0 <= i < old(self).history@.len() ==> final(self).history@[i] == old(self).history@[i],
            forall|k: int| 0 <= k < (if old(self).map.height >= 2 { old(self).map.height - 2 } else { 0 }) ==>
                (#[trigger] final(self).history@[old(self).history@.len() + k])@ == all_revealed(MapView {
                    tiles: carved_tiles(old(self).map@, seed_membership(old(self).distance_algo, seeds@,
                        old(self).map.width as int, old(self).map.tiles@.len() as int), k + 1),
                    ..old(self).map@
                }),
            r is Some ==> final(self).history@.last()@ == all_revealed(cells_map(old(self).map@, old(self).distance_algo, seeds@)),
    {
        let membership = self.membership(seeds);
        let ghost algo = self.distance_algo;
        let ghost w = self.map.width as int;
        proof {
            let expected = seed_membership(algo, seeds@, w, self.map.tiles@.len() as int);
            assert forall|i: int| 0 <= i < membership@.len() implies membership@[i] == expected[i] by {
                assert(is_nearest_seed(algo, seeds@, i % w, i / w, membership@[i] as int));
                let k = nearest_seed(algo, seeds@, i % w, i / w);
                assert(is_nearest_seed(algo, seeds@, i % w, i / w, k));
                law_nearest_seed_unique(algo, seeds@, i % w, i / w, k, membership@[i] as int);
            }
            assert(membership@ =~= expected);
        }
        self.carve_walls(&membership);
        let ghost carved = self.map@;
        assert(carved == cells_map(old(self).map@, algo, seeds@));
        let ghost carved_history = self.history@;
        if start_floor_exists(&self.map) {
            let start_idx = self.place_start();
            assert forall|i: int| 0 <= i < carved_history.len() implies self.history@[i] == carved_history[i] by {
                assert(self.history@ == carved_history.push(self.history@.last()));
            }
            Some(start_idx)
        } else {
            None
        }
    }

    /// Turns the exit tile into the down stairs and snapshots.
    pub fn place_exit(&mut self, exit_tile: usize)
        requires
            exit_tile < old(self).map.tiles@.len(),
        ensures
            final(self).map@ == (MapView {
                tiles: old(self).map@.tiles.update(exit_tile as int, TileType::DownStairs),
                ..old(self).map@
            }),
            final(self).starting_pos == old(self).starting_pos,
            final(self).history@ == old(self).history@.push(final(self).history@.last()),
            final(self).history@.last()@ == all_revealed(final(self).map@),
    {
        self.map.tiles.set(exit_tile, TileType::DownStairs);
        self.take_snapshot();
        assert(self.history@ =~= old(self).history@.push(self.history@.last()));
    }
}

/// The number of the first seed nearest to `(x, y)` (see `is_nearest_seed`).
pub open spec fn nearest_seed(algo: DistanceAlgo, seeds: Seq<(usize, Position)>, x: int, y: int) -> int {
    choose|k: int| is_nearest_seed(algo, seeds, x, y, k)
}

/// The seed of every tile of a map `w` wide with `n` tiles, in index order.
pub open spec fn seed_membership(algo: DistanceAlgo, seeds: Seq<(usize, Position)>, w: int, n: int) -> Seq<i32> {
    Seq::new(n as nat, |i: int| nearest_seed(algo, seeds, i % w, i / w) as i32)
}

/// The level of Voronoi cells the seeds give: the map with the walls between the cells
/// carved out of every interior row.
pub open spec fn cells_map(m: MapView, algo: DistanceAlgo, seeds: Seq<(usize, Position)>) -> MapView {
    MapView { tiles: carved_tiles(m, seed_membership(algo, seeds, m.width, m.tiles.len() as int), m.height - 2), ..m }
}

/// Whether the middle row has a floor tile at or west of the middle column.
pub fn start_floor_exists(map: &GameMap) -> (r: bool)
    requires
        map.wf(),
    ensures
        r == has_start_floor(map@),
{
    let y = map.height / 2;
    let mut x: i32 = 0;
    proof { assert(map.tiles@.len() == map.tiles.len()); }
    while x <= map.width / 2
        invariant
            map.wf(),
            map.tiles@.len() == map.tiles.len(),
            y == map.height / 2,
            0 <= x <= map.width / 2 + 1,
            forall|t: int| 0 <= t < x ==> #[trigger] map@.tile_at(t, map.height / 2) != TileType::Floor,
        decreases map.width / 2 + 1 - x,
    {
        proof {
            lemma_idx_in_range(map.width as int, map.height as int, x as int, y as int);
        }
        let idx = map.xy_idx(x, y);
        if map.tiles[idx] == TileType::Floor {
            assert(map@.tile_at(x as int, map.height / 2) == TileType::Floor);
            return true;
        }
        x += 1;
    }
    false
}

/// How many of the four neighbours of `(x, y)` belong to a different seed.
pub open spec fn differing_neighbours(mem: Seq<i32>, w: int, x: int, y: int) -> int {
    let me = mem[idx_of(w, x, y)];
    (if mem[idx_of(w, x - 1, y)] != me { 1int } else { 0int })
        + (if mem[idx_of(w, x + 1, y)] != me { 1int } else { 0int })
        + (if mem[idx_of(w, x, y - 1)] != me { 1int } else { 0int })
        + (if mem[idx_of(w, x, y + 1)] != me { 1int } else { 0int })
}

/// The tiles after carving rows `1..=rows`: an interior tile of those rows with
/// fewer than two neighbours of another seed is floor; every other tile is unchanged.
pub open spec fn carved_tiles(m: MapView, mem: Seq<i32>, rows: int) -> Seq<TileType> {
    Seq::new(m.tiles.len(), |i: int| {
        let x = i % m.width;
        let y = i / m.width;
        if 1 <= y <= rows && y < m.height - 1 && 1 <= x < m.width - 1 && differing_neighbours(mem, m.width, x, y) < 2 {
            TileType::Floor
        } else {
            m.tiles[i]
        }
    })
}


/// Distances do not depend on the direction they are measured in.
pub proof fn law_distance_symmetric(algo: DistanceAlgo, x1: int, y1: int, x2: int, y2: int)
    ensures
        seed_distance(algo, x1, y1, x2, y2) == seed_distance(algo, x2, y2, x1, y1),
        seed_distance(algo, x1, y1, x2, y2) >= 0,
        seed_distance(algo, x1, y1, x1, y1) == 0,
{
    let dx = abs_diff(x1, x2);
    let dy = abs_diff(y1, y2);
    assert(dx * dx >= 0 && dy * dy >= 0) by (nonlinear_arith);
    let z1 = abs_diff(x1, x1);
    let z2 = abs_diff(y1, y1);
    assert(z1 * z1 == 0 && z2 * z2 == 0) by (nonlinear_arith)
        requires z1 == 0, z2 == 0;
}

/// Each tile belongs to exactly one seed: the first nearest seed is unique.
pub proof fn law_nearest_seed_unique(algo: DistanceAlgo, seeds: Seq<(usize, Position)>, x: int, y: int, k1: int, k2: int)
    requires
        is_nearest_seed(algo, seeds, x, y, k1),
        is_nearest_seed(algo, seeds, x, y, k2),
    ensures
        k1 == k2,
{
    if k1 < k2 {
        assert(seed_distance(algo, x, y, seeds[k1].1.x as int, seeds[k1].1.y as int)
            > seed_distance(algo, x, y, seeds[k2].1.x as int, seeds[k2].1.y as int));
    } else if k2 < k1 {
        assert(seed_distance(algo, x, y, seeds[k2].1.x as int, seeds[k2].1.y as int)
            > seed_distance(algo, x, y, seeds[k1].1.x as int, seeds[k1].1.y as int));
    }
}

/// Carving only opens tiles: a tile either keeps its type or becomes floor, and the
/// outermost rows and columns are never touched.
pub proof fn law_carving_only_opens_interior(m: MapView, mem: Seq<i32>, rows: int, i: int)
    requires
        m.wf(),
        0 <= i < m.tiles.len(),
    ensures
        carved_tiles(m, mem, rows)[i] == m.tiles[i] || (
            carved_tiles(m, mem, rows)[i] == TileType::Floor
            && 1 <= i % m.width < m.width - 1
            && 1 <= i / m.width < m.height - 1),
{
}

} // verus!
