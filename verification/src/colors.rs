use vstd::prelude::*;

verus! {

// Colours are named by their slot in the DawnBringer 32-colour palette
// (slots 1 to 32); the application turns a slot into an RGB value.

// Defaults
pub const DEFAULT_FG: u8 = 11;
pub const DEFAULT_BG: u8 = 32;

// Screen burn
pub const SB_COLOR: u8 = 27;

// Player
pub const PLAYER_FG: u8 = 32;
pub const PLAYER_BG: u8 = 23;
pub const LIT_BG: u8 = 31;

// Monsters
pub const GOBLIN_FG: u8 = 21;
pub const ORC_FG: u8 = 10;

// Dungeon
pub const WALL_FG: u8 = 10;
pub const WALL_BG: u8 = 31;
pub const FLOOR_FG: u8 = 28;
pub const FLOOR_BG: u8 = 31;
pub const MEM_FG: u8 = 7;
pub const AETHER: u8 = 18;
pub const STAIRS_FG: u8 = 13;
pub const BLOOD_BG: u8 = 5;
pub const DOOR_FG: u8 = 28;
pub const BOUNDARY_FG: u8 = 7;

// Items
pub const POT_HEALTH_FG: u8 = 4;
pub const SCROLL_MM_FG: u8 = 13;
pub const SCROLL_FB_FG: u8 = 27;
pub const SCROLL_CON_FG: u8 = 24;
pub const DAGGER_FG: u8 = 13;
pub const SHIELD_FG: u8 = 12;
pub const LSWORD_FG: u8 = 10;
pub const TSHIELD_FG: u8 = 9;
pub const RATION_FG: u8 = 26;
pub const MAP_SCROLL_FG: u8 = 6;
pub const BEARTRAP_FG: u8 = 27;

// Particles
pub const ATTACK_FG: u8 = 27;
pub const HEAL_FG: u8 = 23;
pub const CONFUSION_FG: u8 = 3;
pub const DAMAGE_FG: u8 = 5;
pub const AOE_FG: u8 = 27;

// User interface
pub const HP_FG: u8 = 5;
pub const INV_BG: u8 = 14;
pub const DROP_BG: u8 = 4;
pub const NONSEL_FG: u8 = 7;
pub const SEL_FG: u8 = 24;
pub const MOUSE_BG: u8 = 3;
pub const TT_BG: u8 = 9;
pub const RANGE_BG: u8 = 15;
pub const VALID_BG: u8 = 13;
pub const INVALID_BG: u8 = 5;
pub const TITLE_FG: u8 = 24;
pub const ERROR_BG: u8 = 3;
pub const UNEQUIP_BG: u8 = 27;
pub const DEATH_FG: u8 = 5;

// Hunger
pub const WF_FG: u8 = 23;
pub const FED_FG: u8 = 22;
pub const HUNGRY_FG: u8 = 27;
pub const STARVE_FG: u8 = 5;

} // verus!
