use vstd::prelude::*;
use crate::geometry::{
    in_field, wrap_coord, wrap_spec, Pos, FIELD_HEIGHT, FIELD_WIDTH, MICROS,
};
use crate::timer::{fires_spec, leftover_spec, Timer};

verus! {

/// Player speed, in thousandths of a unit per second (50 units per second).
pub const PLAYER_SPEED: i64 = 50_000;

/// Period of the walking animation, in microseconds.
pub const ANIM_INTERVAL: u32 = 200_000;

/// The four directions of movement and facing.
#[derive(Clone, Copy, Debug, PartialEq, Eq, Structural)]
pub enum Direction {
    Up,
    Down,
    Left,
    Right,
}

/// The directional keys held during a tick.
#[derive(Clone, Copy, Debug, PartialEq, Eq, Structural)]
pub struct Keys {
    pub right: bool,
    pub left: bool,
    pub up: bool,
    pub down: bool,
}

/// A velocity, in thousandths of a unit per second.
#[derive(Clone, Copy, Debug, PartialEq, Eq, Structural)]
pub struct Velocity {
    pub dx: i64,
    pub dy: i64,
}

/// The phase of the two-frame walking cycle of the facing direction.
#[derive(Clone, Copy, Debug, PartialEq, Eq, Structural)]
pub enum Phase {
    /// The frame shown when a run starts, before the player first turns
    /// or the animation first fires.
    Start,
    /// The direction's standing frame, shown when the player turns.
    Base,
    First,
    Second,
}

/// The key that decides the movement: right, then left, then up, then down.
pub open spec fn direction_spec(keys: Keys) -> Option<Direction> {
    if keys.right {
        Some(Direction::Right)
    } else if keys.left {
        Some(Direction::Left)
    } else if keys.up {
        Some(Direction::Up)
    } else if keys.down {
        Some(Direction::Down)
    } else {
        None
    }
}

/// The unit vector of a direction; up is towards larger `y`.
pub open spec fn unit_spec(d: Direction) -> (int, int) {
    match d {
        Direction::Up => (0, 1),
        Direction::Down => (0, -1),
        Direction::Left => (-1, 0),
        Direction::Right => (1, 0),
    }
}

pub open spec fn velocity_spec(keys: Keys) -> Velocity {
    match direction_spec(keys) {
        Some(d) => Velocity {
            dx: (unit_spec(d).0 * PLAYER_SPEED) as i64,
            dy: (unit_spec(d).1 * PLAYER_SPEED) as i64,
        },
        None => Velocity { dx: 0, dy: 0 },
    }
}

/// Distance covered at `speed` (per second) during `dt` microseconds,
/// rounded down.
pub open spec fn distance_spec(speed: int, dt: int) -> int {
    speed * dt / (MICROS as int)
}

/// Where a step of length `dist` in direction `d` from `p` lands on the torus.
pub open spec fn step_spec(p: Pos, d: Direction, dist: int) -> Pos {
    Pos {
        x: wrap_spec(p.x + unit_spec(d).0 * dist, FIELD_WIDTH as int) as i64,
        y: wrap_spec(p.y + unit_spec(d).1 * dist, FIELD_HEIGHT as int) as i64,
    }
}

/// The walking phase after a tick spent moving in direction `d`: a turn
/// shows the base frame, and a firing of the animation timer alternates
/// between the two walking frames.
pub open spec fn phase_spec(facing: Direction, phase: Phase, d: Direction, fired: bool) -> Phase {
    let turned = if facing != d {
        Phase::Base
    } else {
        phase
    };
    if fired {
        if turned == Phase::First {
            Phase::Second
        } else {
            Phase::First
        }
    } else {
        turned
    }
}

/// Index of the sprite frame for a facing direction and walking phase.
pub open spec fn frame_spec(facing: Direction, phase: Phase) -> int {
    let base: int = match facing {
        Direction::Right => 0,
        Direction::Left => 3,
        Direction::Up => 6,
        Direction::Down => 9,
    };
    match phase {
        Phase::Start => 0,
        Phase::Base => base,
        Phase::First => base + 1,
        Phase::Second => base + 2,
    }
}

/// The direction given by the held keys, if any.
pub fn resolve_direction(keys: Keys) -> (r: Option<Direction>)
    ensures
        r == direction_spec(keys),
{
    if keys.right {
        Some(Direction::Right)
    } else if keys.left {
        Some(Direction::Left)
    } else if keys.up {
        Some(Direction::Up)
    } else if keys.down {
        Some(Direction::Down)
    } else {
        None
    }
}

/// The player's velocity for the held keys: one axis at most, never a
/// diagonal, and zero when no key is held.
pub fn velocity_for(keys: Keys) -> (r: Velocity)
    ensures
        r == velocity_spec(keys),
        keys.right ==> r == (Velocity { dx: PLAYER_SPEED, dy: 0 }),
        r.dx == 0 || r.dy == 0,
{
    match resolve_direction(keys) {
        Some(Direction::Right) => Velocity { dx: PLAYER_SPEED, dy: 0 },
        Some(Direction::Left) => Velocity { dx: -PLAYER_SPEED, dy: 0 },
        Some(Direction::Up) => Velocity { dx: 0, dy: PLAYER_SPEED },
        Some(Direction::Down) => Velocity { dx: 0, dy: -PLAYER_SPEED },
        None => Velocity { dx: 0, dy: 0 },
    }
}

/// Distance covered at `speed` during `dt` microseconds, rounded down.
/// The speed is bounded so that `speed * dt` fits a machine integer.
pub fn distance(speed: i64, dt: u32) -> (r: i64)
    requires
        0 <= speed <= i64::MAX / 0xffff_ffff,
    ensures
        r == distance_spec(speed as int, dt as int),
        0 <= r,
{
    assert(0 <= speed * dt <= (i64::MAX / 0xffff_ffff) * 0xffff_ffff) by (nonlinear_arith)
        requires
            0 <= speed <= i64::MAX / 0xffff_ffff,
            0 <= dt <= 0xffff_ffff,
    ;
    (speed * dt as i64) / (MICROS as i64)
}

/// The sprite frame for a facing direction and walking phase.
pub fn frame_index(facing: Direction, phase: Phase) -> (r: u8)
    ensures
        r == frame_spec(facing, phase),
{
    let base: u8 = match facing {
        Direction::Right => 0,
        Direction::Left => 3,
        Direction::Up => 6,
        Direction::Down => 9,
    };
    match phase {
        Phase::Start => 0,
        Phase::Base => base,
        Phase::First => base + 1,
        Phase::Second => base + 2,
    }
}

/// The player: where it stands, where it faces, and its walking animation.
#[derive(Clone, Copy, Debug, PartialEq, Eq, Structural)]
pub struct Player {
    pub pos: Pos,
    pub facing: Direction,
    pub phase: Phase,
    pub anim: Timer,
}

impl Player {
    pub open spec fn wf(self) -> bool {
        &&& in_field(self.pos)
        &&& self.anim.wf()
        &&& self.anim.interval == ANIM_INTERVAL
    }

    /// The player as a run starts: at the centre, facing down, showing
    /// frame 0.
    pub open spec fn initial() -> Player {
        Player {
            pos: Pos { x: 0, y: 0 },
            facing: Direction::Down,
            phase: Phase::Start,
            anim: Timer { interval: ANIM_INTERVAL, elapsed: 0 },
        }
    }

    pub fn new() -> (r: Player)
        ensures
            r == Player::initial(),
            r.wf(),
            frame_spec(r.facing, r.phase) == 0,
    {
        Player {
            pos: Pos::origin(),
            facing: Direction::Down,
            phase: Phase::Start,
            anim: Timer::new(ANIM_INTERVAL),
        }
    }

    /// The sprite frame to show.
    pub fn frame(&self) -> (r: u8)
        ensures
            r == frame_spec(self.facing, self.phase),
    {
        frame_index(self.facing, self.phase)
    }

    /// The player after a tick of `dt` microseconds with the given keys
    /// held: it moves along the chosen direction, wraps around the field,
    /// turns to face it and walks its animation. With no key held nothing
    /// changes.
    pub open spec fn next_spec(self, keys: Keys, dt: int) -> Player {
        match direction_spec(keys) {
            None => self,
            Some(d) => Player {
                pos: step_spec(self.pos, d, distance_spec(PLAYER_SPEED as int, dt)),
                facing: d,
                phase: phase_spec(
                    self.facing,
                    self.phase,
                    d,
                    fires_spec(self.anim.elapsed as int, self.anim.interval as int, dt) > 0,
                ),
                anim: Timer {
                    interval: self.anim.interval,
                    elapsed: leftover_spec(
                        self.anim.elapsed as int,
                        self.anim.interval as int,
                        dt,
                    ) as u32,
                },
            },
        }
    }

    /// One tick of `dt` microseconds with the given keys held.
    pub fn update(&mut self, keys: Keys, dt: u32)
        requires
            old(self).wf(),
        ensures
            final(self).wf(),
            *final(self) == old(self).next_spec(keys, dt as int),
    {
        match resolve_direction(keys) {
            None => {},
            Some(d) => {
                let dist = distance(PLAYER_SPEED, dt);
                let (ux, uy): (i64, i64) = match d {
                    Direction::Up => (0, 1),
                    Direction::Down => (0, -1),
                    Direction::Left => (-1, 0),
                    Direction::Right => (1, 0),
                };
                let x = wrap_coord(self.pos.x + ux * dist, FIELD_WIDTH);
                let y = wrap_coord(self.pos.y + uy * dist, FIELD_HEIGHT);
                self.pos = Pos { x, y };
                let fired = self.anim.tick(dt);
                if self.facing != d {
                    self.phase = Phase::Base;
                }
                self.facing = d;
                if fired > 0 {
                    self.phase = if self.phase == Phase::First {
                        Phase::Second
                    } else {
                        Phase::First
                    };
                }
            },
        }
    }
}

} // verus!
