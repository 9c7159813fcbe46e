use vstd::prelude::*;
use vstd::arithmetic::div_mod::{lemma_div_is_ordered, lemma_div_multiples_vanish_fancy};
use crate::geometry::{in_field, Pos, FIELD_WIDTH};
use crate::player::{distance, distance_spec};

verus! {

/// Hazard speed, in thousandths of a unit per second (30 units per second).
pub const HAZARD_SPEED: i64 = 30_000;

/// No hazard coordinate ever exceeds this in absolute value.
pub const HAZARD_BOUND: i64 = 0x1000_0000;

/// The longest step a hazard can take in one tick.
pub const MAX_HAZARD_STEP: i64 = 128_849_018;

/// `r` is the square root of `n`, rounded down.
pub open spec fn is_sqrt_floor(n: int, r: int) -> bool {
    0 <= r && r * r <= n < (r + 1) * (r + 1)
}

/// The square root of `n`, rounded down.
pub open spec fn sqrt_floor(n: nat) -> nat {
    choose|r: nat| is_sqrt_floor(n as int, r as int)
}

/// A hazard position that the chase keeps within its bound.
pub open spec fn hazard_ok(h: Pos) -> bool {
    -HAZARD_BOUND <= h.x <= HAZARD_BOUND && -HAZARD_BOUND <= h.y <= HAZARD_BOUND
}

/// The displacement along one axis for a step of length `s` along the
/// vector whose component is `d` and whose (rounded) length is `len`,
/// rounded towards zero.
pub open spec fn axis_step(d: int, s: int, len: int) -> int {
    if d < 0 {
        -((-d) * s / len)
    } else {
        d * s / len
    }
}

/// The hazard at `h` after a step of length `s` towards `p`. When the two
/// coincide the direction is undefined and the hazard holds its position.
pub open spec fn pursue_spec(h: Pos, p: Pos, s: int) -> Pos {
    let dx = p.x - h.x;
    let dy = p.y - h.y;
    let len = sqrt_floor((dx * dx + dy * dy) as nat) as int;
    if len == 0 {
        h
    } else {
        Pos { x: (h.x + axis_step(dx, s, len)) as i64, y: (h.y + axis_step(dy, s, len)) as i64 }
    }
}

proof fn lemma_square_le(a: int, b: int)
    requires
        0 <= a <= b,
    ensures
        a * a <= b * b,
{
    assert(a * a <= b * b) by (nonlinear_arith)
        requires
            0 <= a <= b,
    ;
}

proof fn lemma_sqrt_floor_unique(n: int, r: int)
    requires
        is_sqrt_floor(n, r),
    ensures
        sqrt_floor(n as nat) == r,
{
    let s = sqrt_floor(n as nat);
    assert(is_sqrt_floor(n, s as int));
    if s < r {
        lemma_square_le(s + 1 as int, r);
    } else if r < s {
        lemma_square_le(r + 1, s as int);
    }
}

/// The square root of `n`, rounded down.
pub fn isqrt(n: u64) -> (r: u64)
    requires
        n < 0x4000_0000_0000_0000,
    ensures
        is_sqrt_floor(n as int, r as int),
        r == sqrt_floor(n as nat),
{
    let mut lo: u64 = 0;
    let mut hi: u64 = 0x8000_0000;
    assert(0x8000_0000u64 * 0x8000_0000u64 == 0x4000_0000_0000_0000u64);
    while hi - lo > 1
        invariant
            lo < hi <= 0x8000_0000,
            lo * lo <= n < hi * hi,
        decreases hi - lo,
    {
        let mid: u64 = lo + (hi - lo) / 2;
        proof {
            lemma_square_le(mid as int, 0x8000_0000);
        }
        if mid * mid <= n {
            lo = mid;
        } else {
            hi = mid;
        }
    }
    proof {
        lemma_sqrt_floor_unique(n as int, lo as int);
    }
    lo
}

/// One axis of a chase step stays within the hazard bound: a step no
/// longer than the distance to the player ends between the hazard and the
/// player, and a longer one ends within its own length of the player.
proof fn lemma_axis_step_bound(hc: int, pc: int, len: int, s: int)
    requires
        -HAZARD_BOUND <= hc <= HAZARD_BOUND,
        -FIELD_WIDTH <= pc <= FIELD_WIDTH,
        0 < len,
        (pc - hc) * (pc - hc) < (len + 1) * (len + 1),
        0 <= s <= MAX_HAZARD_STEP,
    ensures
        -HAZARD_BOUND <= hc + axis_step(pc - hc, s, len) <= HAZARD_BOUND,
{
    let d = pc - hc;
    let a = if d < 0 {
        -d
    } else {
        d
    };
    assert(a * a == d * d) by (nonlinear_arith)
        requires
            a == d || a == -d,
    ;
    if a > len {
        lemma_square_le(len + 1, a);
    }
    assert(a <= len);
    let m = a * s / len;
    assert(axis_step(d, s, len) == if d < 0 {
        -m
    } else {
        m
    });
    assert(a * s <= len * s) by (nonlinear_arith)
        requires
            0 <= a <= len,
            0 <= s,
    ;
    lemma_div_is_ordered(a * s, len * s, len);
    assert(len * s == s * len) by (nonlinear_arith);
    lemma_div_multiples_vanish_fancy(s, 0, len);
    assert(m <= s);
    assert(0 <= m) by (nonlinear_arith)
        requires
            m == a * s / len,
            0 <= a,
            0 <= s,
            0 < len,
    ;
    if s <= len {
        assert(a * s <= a * len) by (nonlinear_arith)
            requires
                0 <= a,
                s <= len,
        ;
        lemma_div_is_ordered(a * s, a * len, len);
        lemma_div_multiples_vanish_fancy(a, 0, len);
        assert(len * a == a * len) by (nonlinear_arith);
        assert(m <= a);
    }
}

/// One chase step of `s` from `h` towards `p`.
pub fn pursue_step(h: Pos, p: Pos, s: i64) -> (r: Pos)
    requires
        hazard_ok(h),
        in_field(p),
        0 <= s <= MAX_HAZARD_STEP,
    ensures
        r == pursue_spec(h, p, s as int),
        hazard_ok(r),
{
    let dx: i64 = p.x - h.x;
    let dy: i64 = p.y - h.y;
    let ax: u64 = if dx < 0 { (-dx) as u64 } else { dx as u64 };
    let ay: u64 = if dy < 0 { (-dy) as u64 } else { dy as u64 };
    assert(ax * ax == dx * dx && ay * ay == dy * dy) by (nonlinear_arith)
        requires
            ax == dx || ax == -dx,
            ay == dy || ay == -dy,
    ;
    proof {
        lemma_square_le(ax as int, 0x2000_0000);
        lemma_square_le(ay as int, 0x2000_0000);
    }
    let n: u64 = ax * ax + ay * ay;
    let len: u64 = isqrt(n);
    if len == 0 {
        return h;
    }
    proof {
        lemma_square_le(ax as int, (ax + ay) as int);
        assert(ax * ax <= n);
        assert(ay * ay <= n);
        if ax > len {
            lemma_square_le((len + 1) as int, ax as int);
        }
        if ay > len {
            lemma_square_le((len + 1) as int, ay as int);
        }
        assert(ax * s <= 0x2000_0000 * MAX_HAZARD_STEP) by (nonlinear_arith)
            requires
                ax <= 0x2000_0000,
                0 <= s <= MAX_HAZARD_STEP,
        ;
        assert(ay * s <= 0x2000_0000 * MAX_HAZARD_STEP) by (nonlinear_arith)
            requires
                ay <= 0x2000_0000,
                0 <= s <= MAX_HAZARD_STEP,
        ;
        lemma_axis_step_bound(h.x as int, p.x as int, len as int, s as int);
        lemma_axis_step_bound(h.y as int, p.y as int, len as int, s as int);
    }
    let mx: i64 = ((ax * (s as u64)) / len) as i64;
    let my: i64 = ((ay * (s as u64)) / len) as i64;
    let x: i64 = if dx < 0 { h.x - mx } else { h.x + mx };
    let y: i64 = if dy < 0 { h.y - my } else { h.y + my };
    Pos { x, y }
}

/// Every hazard takes one chase step towards `p` during `dt` microseconds.
pub fn pursue_all(hazards: &mut Vec<Pos>, p: Pos, dt: u32)
    requires
        forall|i: int| 0 <= i < old(hazards)@.len() ==> hazard_ok(#[trigger] old(hazards)@[i]),
        in_field(p),
    ensures
        final(hazards)@.len() == old(hazards)@.len(),
        forall|i: int|
            0 <= i < final(hazards)@.len() ==> #[trigger] final(hazards)@[i] == pursue_spec(
                old(hazards)@[i],
                p,
                distance_spec(HAZARD_SPEED as int, dt as int),
            ),
        forall|i: int| 0 <= i < final(hazards)@.len() ==> hazard_ok(#[trigger] final(hazards)@[i]),
{
    let s = distance(HAZARD_SPEED, dt);
    assert(s <= MAX_HAZARD_STEP) by {
        assert(HAZARD_SPEED * dt <= HAZARD_SPEED * 0xffff_ffff) by (nonlinear_arith)
            requires
                0 <= dt <= 0xffff_ffff,
        ;
        lemma_div_is_ordered(HAZARD_SPEED * dt, HAZARD_SPEED * 0xffff_ffffint, 1_000_000);
        assert(HAZARD_SPEED * 0xffff_ffffint / 1_000_000int == MAX_HAZARD_STEP);
    }
    let ghost start = hazards@;
    let mut i: usize = 0;
    while i < hazards.len()
        invariant
            hazards@.len() == start.len(),
            in_field(p),
            0 <= s <= MAX_HAZARD_STEP,
            s == distance_spec(HAZARD_SPEED as int, dt as int),
            forall|j: int| 0 <= j < start.len() ==> hazard_ok(#[trigger] start[j]),
            forall|j: int|
                0 <= j < i ==> #[trigger] hazards@[j] == pursue_spec(start[j], p, s as int),
            forall|j: int| i <= j < start.len() ==> #[trigger] hazards@[j] == start[j],
            forall|j: int| 0 <= j < i ==> hazard_ok(#[trigger] hazards@[j]),
        decreases start.len() - i,
    {
        let next = pursue_step(hazards[i], p, s);
        hazards.set(i, next);
        i = i + 1;
    }
}

} // verus!
