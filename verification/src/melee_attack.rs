//! The lunge of a melee attack animation: the offset from the attacker's
//! centre to the defender's.
use vstd::prelude::*;

verus! {

/// Where an entity stands (its top left cell) and its size, in grid cells.
#[derive(Clone, Copy, Debug, PartialEq, Eq, Structural)]
pub struct EntityBounds {
    pub x: i32,
    pub y: i32,
    pub width: i32,
    pub height: i32,
}

/// Half of `a`, rounded toward zero, as integer division does.
pub open spec fn half(a: int) -> int {
    if a >= 0 {
        a / 2
    } else {
        -((-a) / 2)
    }
}

/// The centre of an entity along one axis: its position plus half its size.
pub open spec fn centre(pos: int, size: int) -> int {
    pos + half(size)
}

/// The offset from the attacker's centre to the defender's centre, along each axis.
pub open spec fn attack_offset(attacker: EntityBounds, defender: EntityBounds) -> (int, int) {
    (
        centre(defender.x as int, defender.width as int) - centre(attacker.x as int, attacker.width as int),
        centre(defender.y as int, defender.height as int) - centre(attacker.y as int, attacker.height as int),
    )
}

/// Every step of computing `dpos + dsize / 2 - apos - asize / 2`, from left
/// to right, fits an `i32`.
pub open spec fn offset_fits(apos: int, asize: int, dpos: int, dsize: int) -> bool {
    &&& i32::MIN <= dpos + half(dsize) <= i32::MAX
    &&& i32::MIN <= dpos + half(dsize) - apos <= i32::MAX
    &&& i32::MIN <= dpos + half(dsize) - apos - half(asize) <= i32::MAX
}

/// Half of `a`, rounded toward zero.
fn half_of(a: i32) -> (r: i32)
    ensures
        r == half(a as int),
{
    a / 2
}

/// The offset from the attacker's centre to the defender's centre, along
/// each axis, toward which the attacker lunges.
pub fn attack_vector(attacker: &EntityBounds, defender: &EntityBounds) -> (v: (i32, i32))
    requires
        offset_fits(attacker.x as int, attacker.width as int, defender.x as int, defender.width as int),
        offset_fits(attacker.y as int, attacker.height as int, defender.y as int, defender.height as int),
    ensures
        v.0 == attack_offset(*attacker, *defender).0,
        v.1 == attack_offset(*attacker, *defender).1,
{
    let x = defender.x + half_of(defender.width) - attacker.x - half_of(attacker.width);
    let y = defender.y + half_of(defender.height) - attacker.y - half_of(attacker.height);
    (x, y)
}

/// The lunge of a melee attack by `attacker` on `defender` is the reverse of
/// the lunge of one by `defender` on `attacker`: `attack_vector(d, a)` is
/// `attack_vector(a, d)` with both coordinates negated.
pub proof fn law_attack_vector_antisymmetric(attacker: EntityBounds, defender: EntityBounds)
    ensures
        attack_offset(defender, attacker).0 == -attack_offset(attacker, defender).0,
        attack_offset(defender, attacker).1 == -attack_offset(attacker, defender).1,
{
}

/// Moving the defender by `(dx, dy)` moves the lunge by `(dx, dy)`; moving
/// the attacker by `(dx, dy)` moves it by `(-dx, -dy)`.
pub proof fn law_attack_vector_follows_positions(
    attacker: EntityBounds,
    defender: EntityBounds,
    moved: EntityBounds,
    dx: int,
    dy: int,
)
    requires
        moved.x == defender.x + dx,
        moved.y == defender.y + dy,
        moved.width == defender.width,
        moved.height == defender.height,
    ensures
        attack_offset(attacker, moved).0 == attack_offset(attacker, defender).0 + dx,
        attack_offset(attacker, moved).1 == attack_offset(attacker, defender).1 + dy,
        attack_offset(moved, attacker).0 == attack_offset(defender, attacker).0 - dx,
        attack_offset(moved, attacker).1 == attack_offset(defender, attacker).1 - dy,
{
}

/// Between two entities of the same size the lunge is the difference of
/// their positions.
pub proof fn law_attack_vector_same_size(attacker: EntityBounds, defender: EntityBounds)
    requires
        attacker.width == defender.width,
        attacker.height == defender.height,
    ensures
        attack_offset(attacker, defender).0 == defender.x - attacker.x,
        attack_offset(attacker, defender).1 == defender.y - attacker.y,
{
}

/// Widening the defender by two cells moves its centre, and so the lunge, one
/// cell further along that axis (for a width that is not negative); the same
/// holds of its height.
pub proof fn law_attack_vector_follows_sizes(
    attacker: EntityBounds,
    defender: EntityBounds,
    grown: EntityBounds,
)
    requires
        grown.x == defender.x,
        grown.y == defender.y,
        defender.width >= 0,
        defender.height >= 0,
        grown.width == defender.width + 2,
        grown.height == defender.height + 2,
    ensures
        attack_offset(attacker, grown).0 == attack_offset(attacker, defender).0 + 1,
        attack_offset(attacker, grown).1 == attack_offset(attacker, defender).1 + 1,
{
}

} // verus!
