use vstd::prelude::*;
use crate::map::{idx_of, lemma_idx_facts, lemma_idx_in_range, lemma_idx_unique, GameMap, MapView, TileType};
use super::{all_revealed, BuilderMap};

verus! {

/// A finishing pass that walls in the edge of the map.
pub struct MapBorder {}

/// The tile at `idx` lies in the outermost row or column of a map.
pub open spec fn on_border(m: MapView, idx: int) -> bool {
    let x = idx % m.width;
    let y = idx / m.width;
    x == 0 || x == m.width - 1 || y == 0 || y == m.height - 1
}

/// The tiles of `m` with every border tile turned to wall.
pub open spec fn bordered_tiles(m: MapView) -> Seq<TileType> {
    Seq::new(m.tiles.len(), |i: int| if on_border(m, i) { TileType::Wall } else { m.tiles[i] })
}

impl MapBorder {
    pub fn new() -> (b: Box<MapBorder>)
        ensures
            *b == (MapBorder {}),
    {
        Box::new(MapBorder {})
    }

    /// Runs the border pass on the map being built.
    pub fn build_map(&mut self, build_data: &mut BuilderMap)
        requires
            old(build_data).map.wf(),
        ensures
            final(build_data).map@ == (MapView {
                tiles: bordered_tiles(old(build_data).map@),
                blocked: bordered_tiles(old(build_data).map@).map_values(|t: TileType| t == TileType::Wall),
                ..old(build_data).map@
            }),
            final(build_data).starting_pos == old(build_data).starting_pos,
            final(build_data).history@ == old(build_data).history@.push(final(build_data).history@.last()),
            final(build_data).history@.last()@ == all_revealed(final(build_data).map@),
    {
        self.border(build_data);
    }

    fn border(&mut self, build_data: &mut BuilderMap)
        requires
            old(build_data).map.wf(),
        ensures
            final(build_data).map@ == (MapView {
                tiles: bordered_tiles(old(build_data).map@),
                blocked: bordered_tiles(old(build_data).map@).map_values(|t: TileType| t == TileType::Wall),
                ..old(build_data).map@
            }),
            final(build_data).starting_pos == old(build_data).starting_pos,
            final(build_data).history@ == old(build_data).history@.push(final(build_data).history@.last()),
            final(build_data).history@.last()@ == all_revealed(final(build_data).map@),
    {
        let ghost m0 = build_data.map@;
        let w = build_data.map.width;
        let h = build_data.map.height;
        let ghost n = m0.tiles.len();
        proof {
            assert(build_data.map.tiles@.len() == build_data.map.tiles.len());
        }
        let mut x: i32 = 0;
        while x < w
            invariant
                build_data.map.wf(),
                w == build_data.map.width,
                h == build_data.map.height,
                w == m0.width,
                h == m0.height,
                0 <= x <= w,
                build_data.map@ == (MapView { tiles: build_data.map@.tiles, ..m0 }),
                build_data.map@.tiles.len() == n,
                n <= usize::MAX,
                build_data.starting_pos == old(build_data).starting_pos,
                build_data.history == old(build_data).history,
                forall|i: int| 0 <= i < n ==> #[trigger] build_data.map@.tiles[i] == (
                    if (i / (w as int) == 0 || i / (w as int) == h - 1) && i % (w as int) < x { TileType::Wall } else { m0.tiles[i] }),
            decreases w - x,
        {
            proof {
                lemma_idx_in_range(w as int, h as int, x as int, 0);
                lemma_idx_in_range(w as int, h as int, x as int, h - 1);
                lemma_idx_facts(w as int, x as int, 0);
                lemma_idx_facts(w as int, x as int, h - 1);
            }
            let t_idx = build_data.map.xy_idx(x, 0);
            let b_idx = build_data.map.xy_idx(x, h - 1);
            build_data.map.tiles.set(t_idx, TileType::Wall);
            build_data.map.tiles.set(b_idx, TileType::Wall);
            proof {
                assert forall|i: int| 0 <= i < n implies #[trigger] build_data.map@.tiles[i] == (
                    if (i / (w as int) == 0 || i / (w as int) == h - 1) && i % (w as int) < x + 1 {
                        TileType::Wall
                    } else {
                        m0.tiles[i]
                    }) by {
                    lemma_idx_unique(w as int, x as int, 0, i);
                    lemma_idx_unique(w as int, x as int, h - 1, i);
                }
            }
            x = x + 1;
        }
        let mut y: i32 = 0;
        while y < h
            invariant
                build_data.map.wf(),
                w == build_data.map.width,
                h == build_data.map.height,
                w == m0.width,
                h == m0.height,
                0 <= y <= h,
                build_data.map@ == (MapView { tiles: build_data.map@.tiles, ..m0 }),
                build_data.map@.tiles.len() == n,
                n <= usize::MAX,
                build_data.starting_pos == old(build_data).starting_pos,
                build_data.history == old(build_data).history,
                forall|i: int| 0 <= i < n ==> #[trigger] build_data.map@.tiles[i] == (
                    if (i / (w as int) == 0 || i / (w as int) == h - 1) || ((i % (w as int) == 0 || i % (w as int) == w - 1) && i / (w as int) < y) {
                        TileType::Wall
                    } else {
                        m0.tiles[i]
                    }),
            decreases h - y,
        {
            proof {
                lemma_idx_in_range(w as int, h as int, 0, y as int);
                lemma_idx_in_range(w as int, h as int, w - 1, y as int);
                lemma_idx_facts(w as int, 0, y as int);
                lemma_idx_facts(w as int, w - 1, y as int);
            }
            let l_idx = build_data.map.xy_idx(0, y);
            let r_idx = build_data.map.xy_idx(w - 1, y);
            build_data.map.tiles.set(l_idx, TileType::Wall);
            build_data.map.tiles.set(r_idx, TileType::Wall);
            proof {
                assert forall|i: int| 0 <= i < n implies #[trigger] build_data.map@.tiles[i] == (
                    if (i / (w as int) == 0 || i / (w as int) == h - 1)
                        || ((i % (w as int) == 0 || i % (w as int) == w - 1) && i / (w as int) < y + 1) {
                        TileType::Wall
                    } else {
                        m0.tiles[i]
                    }) by {
                    lemma_idx_unique(w as int, 0, y as int, i);
                    lemma_idx_unique(w as int, w - 1, y as int, i);
                }
            }
            y = y + 1;
        }
        assert forall|i: int| 0 <= i < n implies #[trigger] bordered_tiles(m0)[i] == build_data.map@.tiles[i] by {
            assert(i / (w as int) < h) by (nonlinear_arith)
                requires 0 <= i < w * h, w > 0;
        }
        assert(build_data.map@.tiles =~= bordered_tiles(m0));
        build_data.map.populate_blocked();
        assert(build_data.map@.blocked =~= bordered_tiles(m0).map_values(|t: TileType| t == TileType::Wall));
        build_data.take_snapshot();
    }
}


/// Walling in the border twice gives the same tiles as doing it once.
pub proof fn law_border_idempotent(m: MapView)
    ensures
        bordered_tiles(MapView { tiles: bordered_tiles(m), ..m }) == bordered_tiles(m),
{
    assert(bordered_tiles(MapView { tiles: bordered_tiles(m), ..m }) =~= bordered_tiles(m));
}

} // verus!
