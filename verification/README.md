# McGuffin Quest

The rules of a small roguelike, written in Verus and proved against their
contracts.

- `src/` is the verified library: the level (`map`), the level generators
  (`map_builders`: the Voronoi cells, the border pass, the start and exit placement,
  the choice of generator, and the steps of diffusion-limited aggregation: the seed,
  the target size, the walkers' steps and the attractor line; the brush that digs
  the cave is not part of the library), the camera
  (`camera`), the interface screens (`gui`), the turn systems (melee, monster
  decisions, traps) and what they leave in the world (`effects`: log lines,
  damage, particles, deletions), the game's state machine (`statemachine`) and the level
  change (`game_state`). Screens are produced as lists of cells
  (`console::ScreenCell`) and drawing commands (`console::DrawCommand`), with
  colours as slots of the DawnBringer 32-colour palette.
- `src/outside.rs` holds the calls into `bracket-lib` (the code page 437 table,
  dice rolls, Bresenham lines) and the contracts the library relies on for them.
- `app/` is the terminal program: the window and the main loop, keys and mouse,
  palette colours, pathfinding and field of view, timers and particles, and the
  loops whose end depends on chance.
- `tests/` runs the library on concrete cases.
