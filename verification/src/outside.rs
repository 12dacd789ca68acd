use vstd::prelude::*;
use bracket_lib::random::RandomNumberGenerator;
use crate::components::Position;

verus! {

/// `bracket_lib`'s random number generator, carried through opaquely.
#[verifier::external_type_specification]
#[verifier::external_body]
pub struct ExRandomNumberGenerator(RandomNumberGenerator);

/// The code page 437 glyph that `bracket_lib::terminal::to_cp437` gives a character
/// (a fixed table in that crate; 0 for characters it has no glyph for).
pub uninterp spec fn cp437_glyph(c: char) -> u16;

/// Calls `bracket_lib::terminal::to_cp437`. Claimed: the result is the table entry
/// `cp437_glyph(c)`, a function of `c` alone.
#[verifier::external_body]
pub(crate) fn to_cp437(c: char) -> (glyph: u16)
    ensures
        glyph == cp437_glyph(c),
{
    bracket_lib::terminal::to_cp437(c)
}

/// Calls `RandomNumberGenerator::roll_dice`, which sums `n` uniform draws from
/// `1..=die_type` (no draw, and a sum of 0, when `n` is not positive). Claimed: the sum
/// is 0 for no dice and lies between `n` and `n * die_type` otherwise; which value
/// comes out is left open, as it depends on the generator's state. The `requires`
/// leaves out the inputs on which the crate panics when it draws (an empty range, or
/// `die_type + 1` overflowing) or the sum could overflow.
#[verifier::external_body]
pub(crate) fn roll_dice(rng: &mut RandomNumberGenerator, n: i32, die_type: i32) -> (r: i32)
    requires
        n > 0 ==> 1 <= die_type < i32::MAX && n * die_type <= i32::MAX,
    ensures
        n <= 0 ==> r == 0,
        n > 0 ==> n <= r <= n * die_type,
{
    rng.roll_dice(n, die_type)
}

/// The points that `bracket_lib::geometry::line2d` plots with Bresenham's algorithm
/// from `(x1, y1)` to `(x2, y2)`.
pub uninterp spec fn bresenham_line(x1: i32, y1: i32, x2: i32, y2: i32) -> Seq<Position>;

/// Calls `bracket_lib::geometry::line2d` with `LineAlg::Bresenham`. Claimed: the points
/// are `bresenham_line` of the two ends, a function of them alone; the crate collects
/// the line's points and then `end`, so there is at least one point and the last one
/// is `end`. The `requires` keeps the coordinates small enough for the crate's
/// octant arithmetic not to overflow.
#[verifier::external_body]
pub(crate) fn line_points(start: Position, end: Position) -> (points: Vec<Position>)
    requires
        0 <= start.x < 0x10000,
        0 <= start.y < 0x10000,
        0 <= end.x < 0x10000,
        0 <= end.y < 0x10000,
    ensures
        points@ == bresenham_line(start.x, start.y, end.x, end.y),
        points@.len() >= 1,
        points@.last() == end,
{
    let a = bracket_lib::geometry::Point::new(start.x, start.y);
    let b = bracket_lib::geometry::Point::new(end.x, end.y);
    let line = bracket_lib::geometry::line2d(bracket_lib::geometry::LineAlg::Bresenham, a, b);
    line.into_iter().map(|p| Position { x: p.x, y: p.y }).collect()
}

} // verus!
