use last_harvest::geometry::{overlaps, wrap_coord, Pos, FIELD_HEIGHT, FIELD_WIDTH, UNIT};
use last_harvest::player::{
    frame_index, resolve_direction, velocity_for, Direction, Keys, Phase, Player, Velocity,
    PLAYER_SPEED,
};
use last_harvest::pursuit::{isqrt, pursue_step};
use last_harvest::timer::Timer;
use last_harvest::world::{
    random_field_pos, spawn_random, take_pickups, Cue, RunState, World, GAME_OVER_TEXT,
};

fn no_keys() -> Keys {
    Keys { right: false, left: false, up: false, down: false }
}

fn right_key() -> Keys {
    Keys { right: true, left: false, up: false, down: false }
}

fn on_field(p: Pos) -> bool {
    -FIELD_WIDTH / 2 <= p.x
        && p.x < FIELD_WIDTH / 2
        && -FIELD_HEIGHT / 2 <= p.y
        && p.y < FIELD_HEIGHT / 2
}

#[test]
fn move_right_then_collect_pickup() {
    let mut w = World::new();
    w.pickups.push(Pos::new(5 * UNIT, 0));
    let cues = w.tick(right_key(), false, 100_000);
    assert_eq!(w.player.pos, Pos::new(5 * UNIT, 0));
    assert_eq!(w.score, 1);
    assert!(w.pickups.is_empty());
    assert_eq!(cues, vec![Cue::PlayPickupSound]);
    assert_eq!(w.state, RunState::Active);
}

#[test]
fn restart_clears_the_world() {
    let mut w = World::new();
    w.score = 7;
    w.pickups.push(Pos::new(50 * UNIT, 50 * UNIT));
    w.pickups.push(Pos::new(-50 * UNIT, 20 * UNIT));
    w.hazards.push(Pos::new(10 * UNIT, -30 * UNIT));
    w.state = RunState::Ended;
    let cues = w.tick(no_keys(), true, 16_000);
    assert!(cues.is_empty());
    assert_eq!(w.score, 0);
    assert!(w.pickups.is_empty());
    assert!(w.hazards.is_empty());
    assert_eq!(w.player.pos, Pos::new(0, 0));
    assert_eq!(w.player.facing, Direction::Down);
    assert_eq!(w.player.frame(), 0);
    assert_eq!(w.pickup_timer.elapsed, 0);
    assert_eq!(w.hazard_timer.elapsed, 0);
    assert_eq!(w.state, RunState::Active);
    assert_eq!(w.game_over_message(), None);
}

#[test]
fn ended_run_is_frozen_without_confirm() {
    let mut w = World::new();
    w.score = 3;
    w.hazards.push(Pos::new(10 * UNIT, 10 * UNIT));
    w.state = RunState::Ended;
    let cues = w.tick(right_key(), false, 5_000_000);
    assert!(cues.is_empty());
    assert_eq!(w.score, 3);
    assert_eq!(w.hazards, vec![Pos::new(10 * UNIT, 10 * UNIT)]);
    assert_eq!(w.player.pos, Pos::new(0, 0));
    assert!(w.pickups.is_empty());
    assert_eq!(w.state, RunState::Ended);
    assert_eq!(w.game_over_message(), Some(GAME_OVER_TEXT));
}

#[test]
fn confirm_while_active_is_ignored() {
    let mut w = World::new();
    w.score = 4;
    let cues = w.tick(no_keys(), true, 100_000);
    assert!(cues.is_empty());
    assert_eq!(w.score, 4);
    assert_eq!(w.state, RunState::Active);
}

#[test]
fn many_hazards_end_the_run_once() {
    let mut w = World::new();
    w.hazards.push(Pos::new(0, 0));
    w.hazards.push(Pos::new(UNIT, 0));
    w.hazards.push(Pos::new(0, -2 * UNIT));
    let cues = w.tick(no_keys(), false, 10_000);
    assert_eq!(cues, vec![Cue::PlayGameOverSound]);
    assert_eq!(w.state, RunState::Ended);
    assert_eq!(w.game_over_message(), Some("Game Over! Press Space to try again."));
}

#[test]
fn pickup_credited_before_game_over() {
    let mut w = World::new();
    w.pickups.push(Pos::new(2 * UNIT, 0));
    w.pickups.push(Pos::new(-2 * UNIT, 0));
    w.pickups.push(Pos::new(60 * UNIT, 0));
    w.hazards.push(Pos::new(0, 3 * UNIT));
    let cues = w.tick(no_keys(), false, 10_000);
    assert_eq!(
        cues,
        vec![Cue::PlayPickupSound, Cue::PlayPickupSound, Cue::PlayGameOverSound]
    );
    assert_eq!(w.score, 2);
    assert_eq!(w.pickups, vec![Pos::new(60 * UNIT, 0)]);
    assert_eq!(w.state, RunState::Ended);
}

#[test]
fn score_saturates() {
    let mut w = World::new();
    w.score = u64::MAX;
    w.pickups.push(Pos::new(0, 0));
    w.tick(no_keys(), false, 1);
    assert_eq!(w.score, u64::MAX);
    assert!(w.pickups.is_empty());
}

#[test]
fn right_wins_over_left() {
    let keys = Keys { right: true, left: true, up: false, down: false };
    assert_eq!(velocity_for(keys), Velocity { dx: PLAYER_SPEED, dy: 0 });
    let all = Keys { right: true, left: true, up: true, down: true };
    assert_eq!(velocity_for(all), Velocity { dx: PLAYER_SPEED, dy: 0 });
    assert_eq!(resolve_direction(all), Some(Direction::Right));
}

#[test]
fn key_priority_order() {
    let lu = Keys { right: false, left: true, up: true, down: false };
    assert_eq!(velocity_for(lu), Velocity { dx: -PLAYER_SPEED, dy: 0 });
    let ud = Keys { right: false, left: false, up: true, down: true };
    assert_eq!(velocity_for(ud), Velocity { dx: 0, dy: PLAYER_SPEED });
    let d = Keys { right: false, left: false, up: false, down: true };
    assert_eq!(velocity_for(d), Velocity { dx: 0, dy: -PLAYER_SPEED });
    assert_eq!(velocity_for(no_keys()), Velocity { dx: 0, dy: 0 });
    assert_eq!(resolve_direction(no_keys()), None);
}

#[test]
fn wrap_keeps_coordinates_on_the_field() {
    assert_eq!(wrap_coord(0, FIELD_WIDTH), 0);
    assert_eq!(wrap_coord(128_000, FIELD_WIDTH), -128_000);
    assert_eq!(wrap_coord(127_999, FIELD_WIDTH), 127_999);
    assert_eq!(wrap_coord(-128_000, FIELD_WIDTH), -128_000);
    assert_eq!(wrap_coord(-128_001, FIELD_WIDTH), 127_999);
    assert_eq!(wrap_coord(1_000_000, FIELD_WIDTH), -24_000);
    assert_eq!(wrap_coord(120_000, FIELD_HEIGHT), -120_000);
    for v in [i64::MIN, i64::MAX, -1, 7_777_777, -9_999_999] {
        let r = wrap_coord(v, FIELD_WIDTH);
        assert!(-128_000 <= r && r < 128_000);
        let r = wrap_coord(v, FIELD_HEIGHT);
        assert!(-120_000 <= r && r < 120_000);
    }
}

#[test]
fn player_wraps_across_the_edge() {
    let mut p = Player::new();
    p.pos = Pos::new(127 * UNIT, 0);
    p.update(right_key(), 100_000);
    assert_eq!(p.pos, Pos::new(-124 * UNIT, 0));
    let mut q = Player::new();
    q.pos = Pos::new(0, -118 * UNIT);
    q.update(Keys { right: false, left: false, up: false, down: true }, 100_000);
    assert_eq!(q.pos, Pos::new(0, 117 * UNIT));
    let mut far = Player::new();
    far.update(right_key(), 4_000_000_000);
    assert!(on_field(far.pos));
}

#[test]
fn walking_animation_alternates() {
    let mut p = Player::new();
    assert_eq!(p.frame(), 0);
    p.update(right_key(), 100_000);
    assert_eq!(p.facing, Direction::Right);
    assert_eq!(p.frame(), 0);
    p.update(right_key(), 100_000);
    assert_eq!(p.frame(), 1);
    p.update(right_key(), 200_000);
    assert_eq!(p.frame(), 2);
    p.update(right_key(), 200_000);
    assert_eq!(p.frame(), 1);
    p.update(no_keys(), 200_000);
    assert_eq!(p.frame(), 1);
    p.update(Keys { right: false, left: false, up: true, down: false }, 10_000);
    assert_eq!(p.facing, Direction::Up);
    assert_eq!(p.frame(), 6);
    assert_eq!(frame_index(Direction::Left, Phase::Second), 5);
}

#[test]
fn first_move_down_keeps_start_frame() {
    let down = Keys { right: false, left: false, up: false, down: true };
    let mut p = Player::new();
    assert_eq!(p.phase, Phase::Start);
    p.update(down, 100_000);
    assert_eq!(p.facing, Direction::Down);
    assert_eq!(p.frame(), 0);
    p.update(down, 100_000);
    assert_eq!(p.frame(), 10);
    p.update(down, 200_000);
    assert_eq!(p.frame(), 11);
    assert_eq!(frame_index(Direction::Up, Phase::Start), 0);
}

#[test]
fn restart_shows_start_frame() {
    let mut w = World::new();
    w.tick(Keys { right: false, left: true, up: false, down: false }, false, 300_000);
    assert_eq!(w.player.frame(), 4);
    w.state = RunState::Ended;
    w.tick(no_keys(), true, 16_000);
    assert_eq!(w.player.frame(), 0);
    assert_eq!(w.player.anim.elapsed, 0);
}

#[test]
fn timer_fires_once_per_interval() {
    let mut t = Timer::new(1_000_000);
    assert_eq!(t.tick(3_250_000), 3);
    assert_eq!(t.elapsed, 250_000);
    assert_eq!(t.tick(750_000), 1);
    assert_eq!(t.elapsed, 0);
    assert_eq!(t.tick(999_999), 0);
    t.reset();
    assert_eq!(t.elapsed, 0);
    let mut u = Timer::new(200_000);
    assert_eq!(u.tick(5 * 200_000 + 199_999), 5);
    assert_eq!(u.elapsed, 199_999);
}

#[test]
fn overlap_is_symmetric_and_strict() {
    let a = Pos::new(0, 0);
    let pairs = [
        (a, Pos::new(8 * UNIT, 0)),
        (a, Pos::new(8 * UNIT - 1, 0)),
        (a, Pos::new(-7 * UNIT, 7 * UNIT)),
        (a, Pos::new(3 * UNIT, -8 * UNIT)),
        (Pos::new(100, 200), Pos::new(-5000, 4000)),
    ];
    for (p, q) in pairs {
        assert_eq!(overlaps(p, q), overlaps(q, p));
    }
    assert!(!overlaps(a, Pos::new(8 * UNIT, 0)));
    assert!(overlaps(a, Pos::new(8 * UNIT - 1, 0)));
    assert!(!overlaps(a, Pos::new(3 * UNIT, -8 * UNIT)));
}

#[test]
fn integer_square_root() {
    assert_eq!(isqrt(0), 0);
    assert_eq!(isqrt(1), 1);
    assert_eq!(isqrt(15), 3);
    assert_eq!(isqrt(16), 4);
    assert_eq!(isqrt(2_500_000_000), 50_000);
    assert_eq!(isqrt(0x3fff_ffff_ffff_ffff), 0x7fff_ffff);
}

#[test]
fn hazards_chase_the_player() {
    let p = Pos::new(0, 0);
    assert_eq!(pursue_step(Pos::new(100_000, 0), p, 30_000), Pos::new(70_000, 0));
    assert_eq!(pursue_step(Pos::new(30_000, 40_000), p, 30_000), Pos::new(12_000, 16_000));
    assert_eq!(pursue_step(Pos::new(10_000, 0), p, 30_000), Pos::new(-20_000, 0));
    assert_eq!(pursue_step(Pos::new(0, -90_000), p, 30_000), Pos::new(0, -60_000));
}

#[test]
fn hazard_on_the_player_holds_still() {
    let p = Pos::new(3_000, -4_000);
    assert_eq!(pursue_step(p, p, 30_000), p);
}

#[test]
fn chase_moves_every_hazard() {
    let mut w = World::new();
    w.hazards.push(Pos::new(100 * UNIT, 0));
    w.hazards.push(Pos::new(0, -100 * UNIT));
    w.chase(1_000_000);
    assert_eq!(w.hazards, vec![Pos::new(70 * UNIT, 0), Pos::new(0, -70 * UNIT)]);
}

#[test]
fn spawn_follows_the_timers() {
    let mut w = World::new();
    w.spawn(2_500_000);
    assert_eq!(w.pickups.len(), 2);
    assert_eq!(w.hazards.len(), 1);
    assert_eq!(w.pickup_timer.elapsed, 500_000);
    assert_eq!(w.hazard_timer.elapsed, 500_000);
    assert!(w.pickups.iter().all(|p| on_field(*p)));
    assert!(w.hazards.iter().all(|p| on_field(*p)));
    w.spawn(1_500_000);
    assert_eq!(w.pickups.len(), 4);
    assert_eq!(w.hazards.len(), 2);
}

#[test]
fn random_positions_cover_the_field() {
    let mut seen = Vec::new();
    for _ in 0..200 {
        let p = random_field_pos();
        assert!(on_field(p));
        seen.push(p);
    }
    assert!(seen.iter().any(|p| *p != seen[0]));
    assert!(seen.iter().any(|p| p.x > 0) && seen.iter().any(|p| p.x < 0));
    let mut v = vec![Pos::new(1, 1)];
    spawn_random(&mut v, 5);
    assert_eq!(v.len(), 6);
    assert_eq!(v[0], Pos::new(1, 1));
}

#[test]
fn take_pickups_keeps_order() {
    let mut v = vec![
        Pos::new(50 * UNIT, 0),
        Pos::new(UNIT, UNIT),
        Pos::new(-50 * UNIT, 0),
        Pos::new(-UNIT, 0),
    ];
    let taken = take_pickups(&mut v, Pos::new(0, 0));
    assert_eq!(taken, 2);
    assert_eq!(v, vec![Pos::new(50 * UNIT, 0), Pos::new(-50 * UNIT, 0)]);
}

#[test]
fn game_runs_for_a_while() {
    let mut w = World::new();
    let mut last = 0;
    for i in 0..600u32 {
        let keys = Keys { right: i % 3 == 0, left: false, up: i % 5 == 0, down: false };
        let before = w.state;
        w.tick(keys, true, 16_666);
        assert!(on_field(w.player.pos));
        match before {
            RunState::Active => assert!(w.score >= last),
            RunState::Ended => assert_eq!(w.score, 0),
        }
        last = w.score;
    }
}
