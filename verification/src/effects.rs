use vstd::prelude::*;
use vstd::string::StringExecFns;
use crate::components::EntityId;

verus! {

/// The name of an entity.
pub struct NameEntry {
    pub entity: EntityId,
    pub name: String,
}

/// The first name listed for `e`, if any.
pub open spec fn name_of(names: Seq<NameEntry>, e: EntityId) -> Option<Seq<char>>
    decreases names.len(),
{
    if names.len() == 0 {
        None
    } else if names[0].entity == e {
        Some(names[0].name@)
    } else {
        name_of(names.drop_first(), e)
    }
}

/// Looks up the first name listed for `e` (see `name_of`).
pub fn find_name(names: &Vec<NameEntry>, e: EntityId) -> (r: Option<&String>)
    ensures
        name_of(names@, e) is None ==> r is None,
        name_of(names@, e) matches Some(n) ==> (r matches Some(s) && s@ == n),
{
    let mut i: usize = 0;
    assert(names@.subrange(0, names@.len() as int) =~= names@);
    while i < names.len()
        invariant
            i <= names@.len(),
            name_of(names@, e) == name_of(names@.subrange(i as int, names@.len() as int), e),
        decreases names@.len() - i,
    {
        let ghost rest = names@.subrange(i as int, names@.len() as int);
        assert(rest.drop_first() =~= names@.subrange(i + 1, names@.len() as int));
        if names[i].entity.index == e.index && names[i].entity.generation == e.generation {
            return Some(&names[i].name);
        }
        i += 1;
    }
    None
}

/// The character of a decimal digit.
pub open spec fn digit_char(d: int) -> char {
    if d == 0 { '0' }
    else if d == 1 { '1' }
    else if d == 2 { '2' }
    else if d == 3 { '3' }
    else if d == 4 { '4' }
    else if d == 5 { '5' }
    else if d == 6 { '6' }
    else if d == 7 { '7' }
    else if d == 8 { '8' }
    else { '9' }
}

/// The decimal writing of `n`, without leading zeros.
pub open spec fn decimal(n: nat) -> Seq<char>
    decreases n,
{
    if n < 10 { seq![digit_char(n as int)] } else { decimal(n / 10) + seq![digit_char((n % 10) as int)] }
}

/// The text of a decimal digit.
fn digit_text(d: u32) -> (t: &'static str)
    requires
        d < 10,
    ensures
        t@ == seq![digit_char(d as int)],
{
    proof {
        reveal_strlit("0");
        reveal_strlit("1");
        reveal_strlit("2");
        reveal_strlit("3");
        reveal_strlit("4");
        reveal_strlit("5");
        reveal_strlit("6");
        reveal_strlit("7");
        reveal_strlit("8");
        reveal_strlit("9");
    }
    let t = match d {
        0 => "0",
        1 => "1",
        2 => "2",
        3 => "3",
        4 => "4",
        5 => "5",
        6 => "6",
        7 => "7",
        8 => "8",
        _ => "9",
    };
    assert(t@ =~= seq![digit_char(d as int)]);
    t
}

/// Appends the decimal writing of `n` to `s` (see `decimal`).
pub fn append_decimal(s: &mut String, n: u32)
    ensures
        final(s)@ == old(s)@ + decimal(n as nat),
    decreases n,
{
    if n >= 10 {
        append_decimal(s, n / 10);
    }
    s.append(digit_text(n % 10));
    assert(s@ =~= old(s)@ + decimal(n as nat));
}

/// A short-lived glyph asked for at `(x, y)`, lasting `lifetime_ms` milliseconds.
#[derive(Clone, Copy, PartialEq, Eq, Structural, Debug)]
pub struct ParticleRequest {
    pub x: i32,
    pub y: i32,
    pub fg: u8,
    pub bg: u8,
    pub glyph: u16,
    pub lifetime_ms: u32,
}

/// What the turn's systems leave in the world: the game log, the damage entities are
/// to suffer, the entities no longer hidden, the particles asked for, and the entities
/// to delete, each in the order they came.
pub struct TurnEffects {
    pub log: Vec<String>,
    pub suffer_damage: Vec<(EntityId, i32)>,
    pub unhidden: Vec<EntityId>,
    pub particles: Vec<ParticleRequest>,
    pub deleted: Vec<EntityId>,
}

/// The contents of `TurnEffects`.
#[verifier::ext_equal]
pub struct EffectsView {
    pub log: Seq<Seq<char>>,
    pub suffer_damage: Seq<(EntityId, i32)>,
    pub unhidden: Seq<EntityId>,
    pub particles: Seq<ParticleRequest>,
    pub deleted: Seq<EntityId>,
}

impl View for TurnEffects {
    type V = EffectsView;

    open spec fn view(&self) -> EffectsView {
        EffectsView {
            log: self.log@.map_values(|s: String| s@),
            suffer_damage: self.suffer_damage@,
            unhidden: self.unhidden@,
            particles: self.particles@,
            deleted: self.deleted@,
        }
    }
}

impl TurnEffects {
    /// Nothing has happened yet.
    pub fn new() -> (fx: TurnEffects)
        ensures
            fx@.log.len() == 0,
            fx@.suffer_damage.len() == 0,
            fx@.unhidden.len() == 0,
            fx@.particles.len() == 0,
            fx@.deleted.len() == 0,
    {
        TurnEffects { log: Vec::new(), suffer_damage: Vec::new(), unhidden: Vec::new(), particles: Vec::new(), deleted: Vec::new() }
    }
}

} // verus!
