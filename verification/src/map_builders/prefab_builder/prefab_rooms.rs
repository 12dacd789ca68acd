use vstd::prelude::*;

verus! {

/// A hand-drawn room vault: its template (one text line per row), size, and the
/// depths at which it may appear.
#[derive(Clone, Copy, PartialEq, Eq)]
pub struct PrefabRoom {
    pub template: &'static str,
    pub width: usize,
    pub height: usize,
    pub first_depth: i32,
    pub last_depth: i32,
}

pub const MAP_CHECKERBOARD: &'static str = "
      
 #^#  
 g#%# 
 #!#  
 ^# # 
      
";

pub const MAP_SILLY_SMILE: &'static str = "
      
 ^  ^ 
  ##  
      
 #### 
      
";

pub const MAP_TOTALLY_NOT_A_TRAP: &'static str = "
     
 ^^^ 
 ^!^ 
 ^^^ 
     
";

/// A six by six checkerboard of walls with traps and items, for depths 0 to 100.
pub fn checkerboard() -> (r: PrefabRoom)
    ensures
        r.template@ == MAP_CHECKERBOARD@,
        r.width == 6,
        r.height == 6,
        r.first_depth == 0,
        r.last_depth == 100,
{
    PrefabRoom { template: MAP_CHECKERBOARD, width: 6, height: 6, first_depth: 0, last_depth: 100 }
}

/// A six by six room of traps drawn as a smile, for depths 0 to 100.
pub fn silly_smile() -> (r: PrefabRoom)
    ensures
        r.template@ == MAP_SILLY_SMILE@,
        r.width == 6,
        r.height == 6,
        r.first_depth == 0,
        r.last_depth == 100,
{
    PrefabRoom { template: MAP_SILLY_SMILE, width: 6, height: 6, first_depth: 0, last_depth: 100 }
}

/// A five by five ring of traps around an item, for depths 0 to 100.
pub fn totally_not_a_trap() -> (r: PrefabRoom)
    ensures
        r.template@ == MAP_TOTALLY_NOT_A_TRAP@,
        r.width == 5,
        r.height == 5,
        r.first_depth == 0,
        r.last_depth == 100,
{
    PrefabRoom { template: MAP_TOTALLY_NOT_A_TRAP, width: 5, height: 5, first_depth: 0, last_depth: 100 }
}

} // verus!
