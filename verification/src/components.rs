use vstd::prelude::*;

verus! {

/// An entity of the game world, named by its index and generation.
#[derive(Clone, Copy, PartialEq, Eq, Structural, Debug)]
pub struct EntityId {
    pub index: u32,
    pub generation: i32,
}

/// A position on the map grid.
#[derive(Clone, Copy, PartialEq, Eq, Structural, Debug)]
pub struct Position {
    pub x: i32,
    pub y: i32,
}

/// How fed an entity is.
#[derive(Clone, Copy, PartialEq, Eq, Structural, Debug)]
pub enum HungerState {
    WellFed,
    Normal,
    Hungry,
    Starving,
}

} // verus!
