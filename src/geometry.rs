use vstd::prelude::*;

verus! {

/// Thousandths of a field unit per field unit.
pub const UNIT: i64 = 1000;

/// Width of the field, in thousandths of a unit (256 units).
pub const FIELD_WIDTH: i64 = 256_000;

/// Height of the field, in thousandths of a unit (240 units).
pub const FIELD_HEIGHT: i64 = 240_000;

/// Half the side of every hit-box (the boxes are 8 units square).
pub const HIT_HALF: i64 = 4_000;

/// Microseconds per second.
pub const MICROS: u64 = 1_000_000;

/// A point of the plane, in thousandths of a field unit.
#[derive(Clone, Copy, Debug, PartialEq, Eq, Structural)]
pub struct Pos {
    pub x: i64,
    pub y: i64,
}

impl Pos {
    pub fn new(x: i64, y: i64) -> (r: Pos)
        ensures
            r.x == x,
            r.y == y,
    {
        Pos { x, y }
    }

    /// The centre of the field.
    pub fn origin() -> (r: Pos)
        ensures
            r.x == 0,
            r.y == 0,
    {
        Pos { x: 0, y: 0 }
    }
}

/// Lowest coordinate of an axis of the given extent: the axis covers
/// `[-extent / 2, extent - extent / 2)`.
pub open spec fn axis_low(extent: int) -> int {
    -(extent / 2)
}

/// The coordinate `v` brought back onto an axis of the given extent by
/// whole turns of the torus.
pub open spec fn wrap_spec(v: int, extent: int) -> int {
    (v - axis_low(extent)) % extent + axis_low(extent)
}

pub open spec fn on_axis(v: int, extent: int) -> bool {
    axis_low(extent) <= v < axis_low(extent) + extent
}

/// A point lies on the field.
pub open spec fn in_field(p: Pos) -> bool {
    on_axis(p.x as int, FIELD_WIDTH as int) && on_axis(p.y as int, FIELD_HEIGHT as int)
}

/// Two hit-boxes centred on `a` and `b` overlap: on each axis the lower edge
/// of each box lies strictly below the upper edge of the other.
pub open spec fn overlap_spec(a: Pos, b: Pos) -> bool {
    &&& a.x - HIT_HALF < b.x + HIT_HALF
    &&& b.x - HIT_HALF < a.x + HIT_HALF
    &&& a.y - HIT_HALF < b.y + HIT_HALF
    &&& b.y - HIT_HALF < a.y + HIT_HALF
}

/// Wraps one coordinate around an axis of the given extent.
pub fn wrap_coord(v: i64, extent: i64) -> (r: i64)
    requires
        extent > 0,
    ensures
        r == wrap_spec(v as int, extent as int),
        on_axis(r as int, extent as int),
        on_axis(v as int, extent as int) ==> r == v,
{
    let low: i64 = -(extent / 2);
    // Adding a whole number of turns makes the offset non-negative
    // without changing its residue.
    let turns: i128 = 0x1_0000_0000_0000_0000;
    let lifted: i128 = v as i128 - low as i128 + (extent as i128) * turns;
    let m: i128 = ((lifted as u128) % (extent as u128)) as i128;
    proof {
        vstd::arithmetic::div_mod::lemma_mod_multiples_vanish(
            turns as int,
            v - low,
            extent as int,
        );
        assert(lifted == extent * turns + (v - low));
        if axis_low(extent as int) <= v < axis_low(extent as int) + extent {
            vstd::arithmetic::div_mod::lemma_small_mod((v - low) as nat, extent as nat);
        }
    }
    (m + low as i128) as i64
}

/// Hit-box overlap of two points whose distance fits the machine integers.
pub fn overlaps(a: Pos, b: Pos) -> (r: bool)
    requires
        -0x4000_0000_0000 <= a.x <= 0x4000_0000_0000,
        -0x4000_0000_0000 <= a.y <= 0x4000_0000_0000,
        -0x4000_0000_0000 <= b.x <= 0x4000_0000_0000,
        -0x4000_0000_0000 <= b.y <= 0x4000_0000_0000,
    ensures
        r == overlap_spec(a, b),
{
    a.x - HIT_HALF < b.x + HIT_HALF && b.x - HIT_HALF < a.x + HIT_HALF && a.y - HIT_HALF < b.y
        + HIT_HALF && b.y - HIT_HALF < a.y + HIT_HALF
}

/// Hit-box overlap is symmetric: `a` touches `b` exactly when `b` touches `a`.
pub proof fn lemma_overlap_symmetric(a: Pos, b: Pos)
    ensures
        overlap_spec(a, b) == overlap_spec(b, a),
{
}

/// Wrapping puts every coordinate on the axis, wherever it started.
pub proof fn lemma_wrap_on_axis(v: int, extent: int)
    requires
        extent > 0,
    ensures
        on_axis(wrap_spec(v, extent), extent),
{
}

} // verus!
