use std::collections::HashSet;

use bracket_lib::random::RandomNumberGenerator;
use mcguffin_quest::components::Position;
use mcguffin_quest::map::{GameMap, TileType};
use mcguffin_quest::map_builders::dla::{
    count_floor_tiles, follow_line, inward_step, outward_step, stagger_step, DLAAAlgorithm, DLABuilder, Symmetry,
};
use mcguffin_quest::map_builders::map_boiler::MapBoiler;
use mcguffin_quest::map_builders::map_border::MapBorder;
use mcguffin_quest::map_builders::prefab_builder::prefab_rooms::{
    checkerboard, silly_smile, totally_not_a_trap, MAP_CHECKERBOARD, MAP_SILLY_SMILE, MAP_TOTALLY_NOT_A_TRAP,
};
use mcguffin_quest::map_builders::voronoi::{add_seed, distance, start_floor_exists, DistanceAlgo, VoronoiCellBuilder};
use mcguffin_quest::map_builders::{
    builder_kind, choose_builder, find_start, random_builder, revealed_snapshot, BuilderChoice, BuilderKind, BuilderMap,
};

fn blank(w: i32, h: i32) -> GameMap {
    let n = (w * h) as usize;
    GameMap {
        tiles: vec![TileType::Wall; n],
        width: w,
        height: h,
        revealed_tiles: vec![false; n],
        visible_tiles: vec![false; n],
        blocked: vec![false; n],
        depth: 1,
        bloodstains: HashSet::new(),
        tile_content: vec![Vec::new(); n],
    }
}

fn open(w: i32, h: i32) -> GameMap {
    let mut m = blank(w, h);
    for t in m.tiles.iter_mut() {
        *t = TileType::Floor;
    }
    m
}

#[test]
fn map_border_new_and_walls_the_edge() {
    let mut border = MapBorder::new();
    let mut bd = BuilderMap { map: open(5, 4), starting_pos: None, history: Vec::new() };
    border.build_map(&mut bd);
    for y in 0..4 {
        for x in 0..5 {
            let idx = (y * 5 + x) as usize;
            let edge = x == 0 || x == 4 || y == 0 || y == 3;
            let expected = if edge { TileType::Wall } else { TileType::Floor };
            assert_eq!(bd.map.tiles[idx], expected);
            assert_eq!(bd.map.blocked[idx], edge);
        }
    }
    assert_eq!(bd.history.len(), 1);
    assert!(bd.history[0].revealed_tiles.iter().all(|r| *r));
    assert_eq!(bd.history[0].tiles, bd.map.tiles);
    assert_eq!(bd.starting_pos, None);
}

#[test]
fn map_border_twice_is_the_same_as_once() {
    let mut border = MapBorder::new();
    let mut bd = BuilderMap { map: open(6, 6), starting_pos: Some(Position { x: 2, y: 2 }), history: Vec::new() };
    bd.map.tiles[14] = TileType::DownStairs;
    border.build_map(&mut bd);
    let once = bd.map.tiles.clone();
    let once_blocked = bd.map.blocked.clone();
    border.build_map(&mut bd);
    assert_eq!(bd.map.tiles, once);
    assert_eq!(bd.map.blocked, once_blocked);
    assert_eq!(bd.map.tiles[14], TileType::DownStairs);
    assert_eq!(bd.history.len(), 2);
}

#[test]
fn snapshot_reveals_everything_and_keeps_the_map() {
    let mut m = blank(3, 3);
    m.tiles[4] = TileType::Floor;
    m.visible_tiles[4] = true;
    let s = revealed_snapshot(&m);
    assert!(s.revealed_tiles.iter().all(|r| *r));
    assert_eq!(s.tiles, m.tiles);
    assert_eq!(s.visible_tiles, m.visible_tiles);
    assert!(m.revealed_tiles.iter().all(|r| !*r));
    let mut bd = BuilderMap { map: m, starting_pos: None, history: Vec::new() };
    bd.take_snapshot();
    bd.take_snapshot();
    assert_eq!(bd.history.len(), 2);
    assert!(bd.history[1].revealed_tiles.iter().all(|r| *r));
}

#[test]
fn start_is_first_floor_west_of_the_middle() {
    let mut m = GameMap::new(1);
    let row = 21usize;
    m.tiles[row * 80 + 30] = TileType::Floor;
    m.tiles[row * 80 + 12] = TileType::Floor;
    m.tiles[row * 80 + 55] = TileType::Floor;
    let (pos, idx) = find_start(&m);
    assert_eq!(pos, Position { x: 30, y: 21 });
    assert_eq!(idx, 21 * 80 + 30);
    // The middle itself counts.
    m.tiles[row * 80 + 40] = TileType::Floor;
    let (pos, idx) = find_start(&m);
    assert_eq!(pos, Position { x: 40, y: 21 });
    assert_eq!(idx, 21 * 80 + 40);
}

#[test]
fn each_roll_picks_its_builder() {
    let kinds = [
        BuilderKind::BspDungeon,
        BuilderKind::BspInterior,
        BuilderKind::CellularAutomata,
        BuilderKind::DrunkardsOpenArea,
        BuilderKind::DrunkardsOpenHalls,
        BuilderKind::DrunkardsWindingPassages,
        BuilderKind::DrunkardsFatPassages,
        BuilderKind::DrunkardsFearfulSymmetry,
        BuilderKind::Maze,
        BuilderKind::DlaWalkInwards,
        BuilderKind::DlaWalkOutwards,
        BuilderKind::DlaCentralAttractor,
        BuilderKind::DlaInsectoid,
        BuilderKind::VoronoiPythagoras,
        BuilderKind::VoronoiManhattan,
        BuilderKind::VoronoiChebyshev,
        BuilderKind::WaveformTestMap,
        BuilderKind::SimpleMap,
    ];
    for (i, k) in kinds.iter().enumerate() {
        assert_eq!(builder_kind(i as i32 + 1), *k);
    }
    assert_eq!(builder_kind(0), BuilderKind::SimpleMap);
    assert_eq!(builder_kind(19), BuilderKind::SimpleMap);
    assert_eq!(builder_kind(-4), BuilderKind::SimpleMap);
}

#[test]
fn random_builder_keeps_the_depth_and_varies() {
    let mut rng = RandomNumberGenerator::seeded(7);
    let mut seen = HashSet::new();
    let mut waveform = 0;
    for _ in 0..400 {
        let c = random_builder(4, &mut rng);
        assert_eq!(c.new_depth, 4);
        seen.insert(format!("{:?}", c.kind));
        if c.derive_waveform {
            waveform += 1;
        }
    }
    // Every one of the 18 generators comes up, and about a third are reworked.
    assert_eq!(seen.len(), 18);
    assert!(waveform > 60 && waveform < 220);
}

#[test]
fn dla_constructors() {
    let b = DLABuilder::new();
    assert_eq!((b.algo, b.brush_size, b.symmetry, b.floor_percent), (DLAAAlgorithm::WalkInwards, 2, Symmetry::NoSymmetry, 25));
    let b = DLABuilder::walk_inwards();
    assert_eq!((b.algo, b.brush_size, b.symmetry, b.floor_percent), (DLAAAlgorithm::WalkInwards, 1, Symmetry::NoSymmetry, 25));
    let b = DLABuilder::walk_outwards();
    assert_eq!((b.algo, b.brush_size, b.symmetry, b.floor_percent), (DLAAAlgorithm::WalkOutwards, 2, Symmetry::NoSymmetry, 25));
    let b = DLABuilder::central_attractor();
    assert_eq!((b.algo, b.brush_size, b.symmetry, b.floor_percent), (DLAAAlgorithm::CentralAttractor, 2, Symmetry::NoSymmetry, 25));
    let b = DLABuilder::insectoid();
    assert_eq!((b.algo, b.brush_size, b.symmetry, b.floor_percent), (DLAAAlgorithm::CentralAttractor, 2, Symmetry::Horizontal, 25));
}

#[test]
fn dla_targets_a_quarter_of_the_map() {
    let b = DLABuilder::new();
    let m = GameMap::new(1);
    assert_eq!(b.desired_floor_tiles(&m), 860);
    let small = blank(7, 3);
    assert_eq!(b.desired_floor_tiles(&small), 5);
    assert_eq!(count_floor_tiles(&m), 0);
    let o = open(4, 4);
    assert_eq!(count_floor_tiles(&o), 16);
}

#[test]
fn dla_seed_opens_a_plus_at_the_centre() {
    let b = DLABuilder::new();
    let mut bd = BuilderMap { map: GameMap::new(1), starting_pos: None, history: Vec::new() };
    let start = b.start_seed(&mut bd);
    assert_eq!(start, Position { x: 40, y: 21 });
    let c = 21 * 80 + 40;
    for idx in [c, c - 1, c + 1, c - 80, c + 80] {
        assert_eq!(bd.map.tiles[idx], TileType::Floor);
    }
    assert_eq!(count_floor_tiles(&bd.map), 5);
    assert_eq!(bd.history.len(), 1);
    assert_eq!(bd.history[0].tiles, bd.map.tiles);
}

#[test]
fn stagger_moves_one_step_unless_near_the_edge() {
    assert_eq!(stagger_step(10, 10, 1, 80, 43), (9, 10));
    assert_eq!(stagger_step(10, 10, 2, 80, 43), (11, 10));
    assert_eq!(stagger_step(10, 10, 3, 80, 43), (10, 9));
    assert_eq!(stagger_step(10, 10, 4, 80, 43), (10, 11));
    assert_eq!(stagger_step(10, 10, 9, 80, 43), (10, 11));
    assert_eq!(stagger_step(2, 10, 1, 80, 43), (2, 10));
    assert_eq!(stagger_step(78, 10, 2, 80, 43), (78, 10));
    assert_eq!(stagger_step(10, 2, 3, 80, 43), (10, 2));
    assert_eq!(stagger_step(10, 41, 4, 80, 43), (10, 41));
}

#[test]
fn diggers_start_inside() {
    let b = DLABuilder::new();
    let m = GameMap::new(1);
    let mut rng = RandomNumberGenerator::seeded(3);
    let mut xs = HashSet::new();
    for _ in 0..2000 {
        let (x, y) = b.roll_digger(&mut rng, &m);
        assert!((2..=78).contains(&x));
        assert!((2..=41).contains(&y));
        xs.insert(x);
    }
    assert!(xs.len() > 50);
}

#[test]
fn distances_by_algorithm() {
    assert_eq!(distance(DistanceAlgo::Pythagoras, 0, 0, 3, 4), 25);
    assert_eq!(distance(DistanceAlgo::Manhattan, 0, 0, 3, 4), 7);
    assert_eq!(distance(DistanceAlgo::Chebyshev, 0, 0, 3, 4), 4);
    assert_eq!(distance(DistanceAlgo::Chebyshev, 7, 2, 1, 1), 6);
    assert_eq!(distance(DistanceAlgo::Manhattan, 5, 5, 5, 5), 0);
    for &(a, b, c, d) in &[(1, 2, 9, 4), (0, 40, 79, 0), (10, 10, 3, 3)] {
        for algo in [DistanceAlgo::Pythagoras, DistanceAlgo::Manhattan, DistanceAlgo::Chebyshev] {
            assert_eq!(distance(algo, a, b, c, d), distance(algo, c, d, a, b));
        }
    }
}

#[test]
fn seeds_are_not_repeated() {
    let mut seeds: Vec<(usize, Position)> = Vec::new();
    add_seed(&mut seeds, (6, Position { x: 1, y: 1 }));
    add_seed(&mut seeds, (12, Position { x: 2, y: 2 }));
    add_seed(&mut seeds, (6, Position { x: 1, y: 1 }));
    assert_eq!(seeds, vec![(6, Position { x: 1, y: 1 }), (12, Position { x: 2, y: 2 })]);
}

#[test]
fn voronoi_constructors() {
    for (b, algo) in [
        (VoronoiCellBuilder::new(2), DistanceAlgo::Chebyshev),
        (VoronoiCellBuilder::pythagoras(2), DistanceAlgo::Pythagoras),
        (VoronoiCellBuilder::manhattan(2), DistanceAlgo::Manhattan),
        (VoronoiCellBuilder::chebyshev(2), DistanceAlgo::Chebyshev),
    ] {
        assert_eq!(b.distance_algo, algo);
        assert_eq!(b.n_seeds, 64);
        assert_eq!(b.depth, 2);
        assert_eq!(b.map.depth, 2);
        assert_eq!(b.starting_pos, Position { x: 0, y: 0 });
        assert!(b.history.is_empty());
        assert!(b.noise_areas.is_empty());
        assert!(b.spawn_list.is_empty());
        assert!(b.map.tiles.iter().all(|t| *t == TileType::Wall));
    }
}

#[test]
fn seeds_fall_inside_the_map() {
    let b = VoronoiCellBuilder::pythagoras(1);
    let mut rng = RandomNumberGenerator::seeded(11);
    let mut distinct = HashSet::new();
    for _ in 0..500 {
        let (idx, p) = b.roll_seed(&mut rng);
        assert!(p.x >= 1 && p.x <= 79);
        assert!(p.y >= 1 && p.y <= 42);
        assert_eq!(idx, (p.y * 80 + p.x) as usize);
        distinct.insert(idx);
    }
    assert!(distinct.len() > 100);
}

#[test]
fn membership_picks_the_first_nearest_seed() {
    let mut b = VoronoiCellBuilder::manhattan(1);
    b.map = blank(5, 5);
    let seeds = vec![(6, Position { x: 1, y: 1 }), (18, Position { x: 3, y: 3 })];
    let m = b.membership(&seeds);
    assert_eq!(m.len(), 25);
    assert_eq!(m[0], 0);
    assert_eq!(m[12], 0); // (2, 2) is as far from both: the first wins
    assert_eq!(m[24], 1);
    assert_eq!(m[4], 0); // (4, 0): a tie again
    assert_eq!(m[13], 1); // (3, 2)
}

#[test]
fn carving_opens_the_inside_of_one_cell() {
    let mut b = VoronoiCellBuilder::chebyshev(1);
    b.map = blank(5, 5);
    let membership = vec![0i32; 25];
    b.carve_walls(&membership);
    for y in 0..5 {
        for x in 0..5 {
            let inside = x > 0 && x < 4 && y > 0 && y < 4;
            let expected = if inside { TileType::Floor } else { TileType::Wall };
            assert_eq!(b.map.tiles[y * 5 + x], expected);
        }
    }
    // One snapshot per carved row.
    assert_eq!(b.history.len(), 3);
    assert!(b.history[2].revealed_tiles.iter().all(|r| *r));
}

#[test]
fn carving_keeps_the_walls_between_cells() {
    let mut b = VoronoiCellBuilder::chebyshev(1);
    b.map = blank(6, 4);
    // Left half seed 0, right half seed 1.
    let mut membership = vec![0i32; 24];
    for y in 0..4 {
        for x in 3..6 {
            membership[y * 6 + x] = 1;
        }
    }
    b.carve_walls(&membership);
    // Tiles with one differing neighbour are opened; all interior tiles here have at
    // most one.
    assert_eq!(b.map.tiles[6 + 2], TileType::Floor);
    assert_eq!(b.map.tiles[6 + 3], TileType::Floor);
    assert_eq!(b.map.tiles[0], TileType::Wall);
    // A tile of seed 1 enclosed on two sides by seed 0 stays wall.
    let mut b = VoronoiCellBuilder::chebyshev(1);
    b.map = blank(5, 5);
    let mut membership = vec![0i32; 25];
    membership[12] = 1;
    b.carve_walls(&membership);
    assert_eq!(b.map.tiles[12], TileType::Wall);
    // Its neighbours each see one differing tile and open.
    assert_eq!(b.map.tiles[11], TileType::Floor);
}

#[test]
fn voronoi_start_and_exit() {
    let mut b = VoronoiCellBuilder::new(1);
    b.map.tiles[21 * 80 + 33] = TileType::Floor;
    let start_idx = b.place_start();
    assert_eq!(b.starting_pos, Position { x: 33, y: 21 });
    assert_eq!(start_idx, 21 * 80 + 33);
    b.place_exit(100);
    assert_eq!(b.map.tiles[100], TileType::DownStairs);
    assert_eq!(b.history.len(), 2);
    assert_eq!(b.history[1].tiles[100], TileType::DownStairs);
}

#[test]
fn map_boiler_start_and_exit() {
    let mut b = MapBoiler::new(5);
    assert_eq!(b.depth, 5);
    assert_eq!(b.starting_pos, Position { x: 0, y: 0 });
    assert!(b.history.is_empty());
    assert!(b.spawn_list.is_empty());
    b.map.tiles[21 * 80 + 2] = TileType::Floor;
    let start_idx = b.place_start();
    assert_eq!(b.starting_pos, Position { x: 2, y: 21 });
    assert_eq!(start_idx, 21 * 80 + 2);
    b.place_exit(start_idx + 1);
    assert_eq!(b.map.tiles[start_idx + 1], TileType::DownStairs);
    b.take_snapshot();
    assert_eq!(b.history.len(), 3);
}

#[test]
fn prefab_rooms() {
    let c = checkerboard();
    assert_eq!((c.width, c.height, c.first_depth, c.last_depth), (6, 6, 0, 100));
    assert_eq!(c.template, MAP_CHECKERBOARD);
    let s = silly_smile();
    assert_eq!((s.width, s.height, s.first_depth, s.last_depth), (6, 6, 0, 100));
    assert_eq!(s.template, MAP_SILLY_SMILE);
    let t = totally_not_a_trap();
    assert_eq!((t.width, t.height, t.first_depth, t.last_depth), (5, 5, 0, 100));
    assert_eq!(t.template, MAP_TOTALLY_NOT_A_TRAP);
    // Each template has one line per row, framed by empty lines.
    assert_eq!(MAP_CHECKERBOARD.lines().filter(|l| !l.is_empty()).count(), 6);
    assert_eq!(MAP_TOTALLY_NOT_A_TRAP.lines().filter(|l| !l.is_empty()).count(), 5);
}

#[test]
fn digger_follows_its_line_until_it_touches_floor() {
    let mut m = blank(10, 10);
    m.tiles[55] = TileType::Floor;
    let path = vec![Position { x: 3, y: 3 }, Position { x: 4, y: 4 }, Position { x: 5, y: 5 }];
    assert_eq!(follow_line(&m, 2, 2, &path), (4, 4));
    // Starting on floor, it stays where it is.
    assert_eq!(follow_line(&m, 5, 5, &path), (5, 5));
    // Running out of line while still in rock leaves it one step short of the end.
    assert_eq!(follow_line(&m, 2, 2, &vec![Position { x: 3, y: 3 }]), (2, 2));
    assert_eq!(follow_line(&m, 2, 2, &Vec::new()), (2, 2));
}

#[test]
fn attractor_diggers_stop_next_to_the_cave() {
    let b = DLABuilder::central_attractor();
    let mut bd = BuilderMap { map: GameMap::new(1), starting_pos: None, history: Vec::new() };
    let start = b.start_seed(&mut bd);
    let m = bd.map;
    let mut rng = RandomNumberGenerator::seeded(5);
    let mut distinct = HashSet::new();
    for _ in 0..300 {
        let (x, y) = b.attractor_target(&mut rng, &m, start).expect("the line stays on the map");
        distinct.insert((x, y));
        let idx = (y * 80 + x) as usize;
        if m.tiles[idx] == TileType::Wall {
            // The digger stopped one step before reaching the open plus at the centre.
            let near_floor = (-1..=1).any(|dy| {
                (-1..=1).any(|dx| m.tiles[((y + dy) * 80 + (x + dx)) as usize] == TileType::Floor)
            });
            assert!(near_floor, "({}, {}) is not next to the cave", x, y);
        }
    }
    // The tiles next to the plus are few, and the diggers find several of them.
    assert!(distinct.len() >= 4);
    assert!(distinct.iter().all(|(x, y)| (38..=42).contains(x) && (19..=23).contains(y)));
}

#[test]
fn builders_hand_out_copies() {
    let mut b = MapBoiler::new(2);
    b.map.tiles[21 * 80 + 10] = TileType::Floor;
    b.place_start();
    let m = b.get_map();
    assert_eq!(m.tiles, b.map.tiles);
    assert_eq!(m.depth, 2);
    assert_eq!(b.get_starting_pos(), Position { x: 10, y: 21 });
    let h = b.get_snapshot_history();
    assert_eq!(h.len(), 1);
    assert!(h[0].revealed_tiles.iter().all(|r| *r));
    assert!(b.get_spawn_list().is_empty());

    let mut v = VoronoiCellBuilder::new(3);
    v.take_snapshot();
    v.take_snapshot();
    assert_eq!(v.get_snapshot_history().len(), 2);
    assert_eq!(v.get_map().depth, 3);
    assert_eq!(v.get_starting_pos(), Position { x: 0, y: 0 });
    v.spawn_list.push((5, "Goblin".to_string()));
    assert_eq!(v.get_spawn_list(), &vec![(5, "Goblin".to_string())]);
}

#[test]
fn cells_from_two_seeds() {
    let mut b = VoronoiCellBuilder::manhattan(1);
    b.map = blank(8, 5);
    // One seed on each side: where two cells meet, each tile has one neighbour of the
    // other cell, so the whole interior opens.
    let seeds = vec![(9, Position { x: 1, y: 1 }), (14, Position { x: 6, y: 1 })];
    let start = b.build_cells(&seeds);
    assert_eq!(start, Some(2 * 8 + 4));
    assert_eq!(b.starting_pos, Position { x: 4, y: 2 });
    // Rows 1 to 3 carved, then the start snapshot.
    assert_eq!(b.history.len(), 4);
    for y in 1..4 {
        assert_eq!(b.map.tiles[y * 8 + 1], TileType::Floor);
        assert_eq!(b.map.tiles[y * 8 + 6], TileType::Floor);
    }
    for x in 0..8 {
        assert_eq!(b.map.tiles[x], TileType::Wall);
        assert_eq!(b.map.tiles[4 * 8 + x], TileType::Wall);
    }
}

#[test]
fn cells_without_a_start() {
    let mut b = VoronoiCellBuilder::chebyshev(1);
    b.map = blank(3, 3);
    // Every tile its own seed: the one interior tile has four neighbours of other
    // cells and stays wall, so the middle row has no floor.
    let seeds: Vec<(usize, Position)> = (0..9).map(|i| (i, Position { x: (i % 3) as i32, y: (i / 3) as i32 })).collect();
    assert_eq!(b.build_cells(&seeds), None);
    assert!(b.map.tiles.iter().all(|t| *t == TileType::Wall));
    assert_eq!(b.history.len(), 1);
    assert!(!start_floor_exists(&b.map));
    b.map.tiles[3] = TileType::Floor;
    assert!(start_floor_exists(&b.map));
}

#[test]
fn the_second_roll_decides_the_rework() {
    assert_eq!(choose_builder(3, 14, 1), BuilderChoice { kind: BuilderKind::VoronoiPythagoras, new_depth: 3, derive_waveform: true });
    assert_eq!(choose_builder(3, 14, 2), BuilderChoice { kind: BuilderKind::VoronoiPythagoras, new_depth: 3, derive_waveform: false });
    assert_eq!(choose_builder(5, 1, 3), BuilderChoice { kind: BuilderKind::BspDungeon, new_depth: 5, derive_waveform: false });
    assert_eq!(choose_builder(5, 18, 1), BuilderChoice { kind: BuilderKind::SimpleMap, new_depth: 5, derive_waveform: true });
}

#[test]
fn walk_steps_stop_at_the_edge_of_the_cave() {
    let mut m = blank(10, 10);
    m.tiles[55] = TileType::Floor;
    // In rock, an inward walker staggers; on floor it is done.
    assert_eq!(inward_step(&m, 3, 3, 2), Some((4, 3)));
    assert_eq!(inward_step(&m, 5, 5, 2), None);
    // On floor, an outward walker staggers; in rock it is done.
    assert_eq!(outward_step(&m, 5, 5, 1), Some((4, 5)));
    assert_eq!(outward_step(&m, 3, 3, 1), None);
    // Near the edge the stagger holds still.
    assert_eq!(inward_step(&m, 8, 3, 2), Some((8, 3)));
}

#[test]
fn digging_goes_on_until_a_quarter_is_floor() {
    let b = DLABuilder::new();
    let mut m = blank(4, 4);
    assert!(b.keeps_digging(&m));
    for i in 0..3 {
        m.tiles[i] = TileType::Floor;
    }
    // A quarter of 16 tiles is 4.
    assert!(b.keeps_digging(&m));
    m.tiles[5] = TileType::Floor;
    assert!(!b.keeps_digging(&m));
}
