use vstd::prelude::*;
use rand::Rng;
use crate::geometry::{in_field, overlap_spec, overlaps, Pos, FIELD_HEIGHT, FIELD_WIDTH};
use crate::player::{distance_spec, Keys, Player};
use crate::pursuit::{hazard_ok, pursue_all, pursue_spec, HAZARD_SPEED};
use crate::timer::{fires_spec, leftover_spec, Timer};

verus! {

/// Period between two pickup spawns, in microseconds.
pub const PICKUP_INTERVAL: u32 = 1_000_000;

/// Period between two hazard spawns, in microseconds.
pub const HAZARD_INTERVAL: u32 = 2_000_000;

/// The message shown while a run has ended.
pub const GAME_OVER_TEXT: &'static str = "Game Over! Press Space to try again.";

/// Whether a run is going on or has ended and awaits a restart.
#[derive(Clone, Copy, Debug, PartialEq, Eq, Structural)]
pub enum RunState {
    Active,
    Ended,
}

/// A request to the audio collaborator to play a sound.
#[derive(Clone, Copy, Debug, PartialEq, Eq, Structural)]
pub enum Cue {
    PlayPickupSound,
    PlayGameOverSound,
}

/// Relies on rand::thread_rng and rand::Rng::gen_range: the value is drawn
/// from the half-open range `[lo, hi)`; gen_range panics when it is empty.
#[verifier::external_body]
fn random_in(lo: i64, hi: i64) -> (r: i64)
    requires
        lo < hi,
    ensures
        lo <= r < hi,
{
    rand::thread_rng().gen_range(lo..hi)
}

/// A point drawn at random on the field.
pub fn random_field_pos() -> (r: Pos)
    ensures
        in_field(r),
{
    let x = random_in(-(FIELD_WIDTH / 2), FIELD_WIDTH - FIELD_WIDTH / 2);
    let y = random_in(-(FIELD_HEIGHT / 2), FIELD_HEIGHT - FIELD_HEIGHT / 2);
    Pos { x, y }
}

/// Adds `n` entities at random places on the field.
pub fn spawn_random(entities: &mut Vec<Pos>, n: u64)
    ensures
        final(entities)@.len() == old(entities)@.len() + n,
        final(entities)@.subrange(0, old(entities)@.len() as int) == old(entities)@,
        forall|i: int|
            old(entities)@.len() <= i < final(entities)@.len() ==> in_field(
                #[trigger] final(entities)@[i],
            ),
{
    let ghost start = entities@;
    let mut k: u64 = 0;
    while k < n
        invariant
            k <= n,
            entities@.len() == start.len() + k,
            entities@.subrange(0, start.len() as int) == start,
            forall|i: int| start.len() <= i < entities@.len() ==> in_field(#[trigger] entities@[i]),
        decreases n - k,
    {
        let p = random_field_pos();
        entities.push(p);
        assert(entities@.subrange(0, start.len() as int) =~= start);
        k = k + 1;
    }
}

/// The pickups that a player at `p` does not touch.
pub open spec fn untouched(pickups: Seq<Pos>, p: Pos) -> Seq<Pos> {
    pickups.filter(|q: Pos| !overlap_spec(p, q))
}

/// Takes every pickup that a player at `p` touches, keeping the others in
/// order, and returns how many were taken.
pub fn take_pickups(pickups: &mut Vec<Pos>, p: Pos) -> (taken: usize)
    requires
        in_field(p),
        forall|i: int| 0 <= i < old(pickups)@.len() ==> in_field(#[trigger] old(pickups)@[i]),
    ensures
        final(pickups)@ == untouched(old(pickups)@, p),
        taken == old(pickups)@.len() - final(pickups)@.len(),
        forall|i: int| 0 <= i < final(pickups)@.len() ==> in_field(#[trigger] final(pickups)@[i]),
{
    let ghost start = pickups@;
    let mut kept: Vec<Pos> = Vec::new();
    let mut i: usize = 0;
    while i < pickups.len()
        invariant
            pickups@ == start,
            in_field(p),
            forall|j: int| 0 <= j < start.len() ==> in_field(#[trigger] start[j]),
            0 <= i <= start.len(),
            kept@ == untouched(start.subrange(0, i as int), p),
            kept@.len() <= i,
            forall|j: int| 0 <= j < kept@.len() ==> in_field(#[trigger] kept@[j]),
        decreases start.len() - i,
    {
        let q = pickups[i];
        let hit = overlaps(p, q);
        proof {
            assert(start.subrange(0, i + 1).drop_last() =~= start.subrange(0, i as int));
            reveal(Seq::filter);
            assert(start.subrange(0, i + 1).last() == q);
        }
        if !hit {
            kept.push(q);
        }
        i = i + 1;
    }
    assert(start.subrange(0, start.len() as int) =~= start);
    let taken = pickups.len() - kept.len();
    *pickups = kept;
    taken
}

/// Whether a player at `p` touches any of the hazards.
pub fn hazard_hit(hazards: &Vec<Pos>, p: Pos) -> (r: bool)
    requires
        in_field(p),
        forall|i: int| 0 <= i < hazards@.len() ==> hazard_ok(#[trigger] hazards@[i]),
    ensures
        r == exists|i: int| 0 <= i < hazards@.len() && overlap_spec(p, #[trigger] hazards@[i]),
{
    let mut i: usize = 0;
    while i < hazards.len()
        invariant
            in_field(p),
            forall|j: int| 0 <= j < hazards@.len() ==> hazard_ok(#[trigger] hazards@[j]),
            0 <= i <= hazards@.len(),
            forall|j: int| 0 <= j < i ==> !overlap_spec(p, #[trigger] hazards@[j]),
        decreases hazards@.len() - i,
    {
        if overlaps(p, hazards[i]) {
            return true;
        }
        i = i + 1;
    }
    false
}

/// `n` pickup sounds.
pub open spec fn pickup_cues(n: int) -> Seq<Cue> {
    Seq::new(n as nat, |i: int| Cue::PlayPickupSound)
}

/// The sounds of one collision pass: one per pickup taken, then the
/// game-over sound once if the run ended.
pub open spec fn collision_cues(taken: int, ended: bool) -> Seq<Cue> {
    if ended {
        pickup_cues(taken).push(Cue::PlayGameOverSound)
    } else {
        pickup_cues(taken)
    }
}

/// How many times the cue `c` occurs in `cues`.
pub open spec fn cue_count(cues: Seq<Cue>, c: Cue) -> nat {
    cues.filter(|x: Cue| x == c).len()
}

proof fn lemma_pickup_cues_count(n: int)
    requires
        0 <= n,
    ensures
        cue_count(pickup_cues(n), Cue::PlayGameOverSound) == 0,
        cue_count(pickup_cues(n), Cue::PlayPickupSound) == n,
    decreases n,
{
    reveal(Seq::filter);
    if n > 0 {
        lemma_pickup_cues_count(n - 1);
        assert(pickup_cues(n).drop_last() =~= pickup_cues(n - 1));
    }
}

/// However many pickups are taken and hazards touch the player in one
/// pass, the game-over sound is requested exactly once when the run ends
/// and never otherwise, and the pickup sound once per pickup taken.
pub proof fn lemma_single_game_over(taken: int, ended: bool)
    requires
        0 <= taken,
    ensures
        cue_count(collision_cues(taken, ended), Cue::PlayGameOverSound) == (if ended {
            1nat
        } else {
            0
        }),
        cue_count(collision_cues(taken, ended), Cue::PlayPickupSound) == taken,
{
    lemma_pickup_cues_count(taken);
    if ended {
        reveal(Seq::filter);
        assert(collision_cues(taken, ended).drop_last() =~= pickup_cues(taken));
    }
}

/// The score after `taken` more pickups, held at the largest value.
pub open spec fn add_score(score: int, taken: int) -> int {
    if score + taken > u64::MAX {
        u64::MAX as int
    } else {
        score + taken
    }
}

/// Each hazard of `hazards` after one chase step of `s` towards `p`.
pub open spec fn chased(hazards: Seq<Pos>, p: Pos, s: int) -> Seq<Pos> {
    Seq::new(hazards.len(), |i: int| pursue_spec(hazards[i], p, s))
}

/// `spawned` holds `n` points, all on the field.
pub open spec fn spawned_on_field(spawned: Seq<Pos>, n: int) -> bool {
    &&& spawned.len() == n
    &&& forall|i: int| 0 <= i < spawned.len() ==> in_field(#[trigger] spawned[i])
}

/// The whole state of the simulation.
pub struct World {
    pub player: Player,
    pub pickups: Vec<Pos>,
    pub hazards: Vec<Pos>,
    pub pickup_timer: Timer,
    pub hazard_timer: Timer,
    pub score: u64,
    pub state: RunState,
}

impl World {
    pub open spec fn wf(self) -> bool {
        &&& self.player.wf()
        &&& self.pickup_timer.wf()
        &&& self.pickup_timer.interval == PICKUP_INTERVAL
        &&& self.hazard_timer.wf()
        &&& self.hazard_timer.interval == HAZARD_INTERVAL
        &&& forall|i: int| 0 <= i < self.pickups@.len() ==> in_field(#[trigger] self.pickups@[i])
        &&& forall|i: int| 0 <= i < self.hazards@.len() ==> hazard_ok(#[trigger] self.hazards@[i])
    }

    /// The world as a run starts: the player at the centre, no pickup, no
    /// hazard, both spawn timers at zero, no score, the run going on.
    pub open spec fn is_initial(self) -> bool {
        &&& self.player == Player::initial()
        &&& self.pickups@.len() == 0
        &&& self.hazards@.len() == 0
        &&& self.pickup_timer == (Timer { interval: PICKUP_INTERVAL, elapsed: 0 })
        &&& self.hazard_timer == (Timer { interval: HAZARD_INTERVAL, elapsed: 0 })
        &&& self.score == 0
        &&& self.state == RunState::Active
    }

    /// The pickups after an active tick of `dt` microseconds that spawned
    /// `spawned`: the old ones and the new ones, less those the player
    /// touches where it stands at the end of the tick.
    pub open spec fn pickups_after(self, next: World, dt: int, spawned: Seq<Pos>) -> bool {
        &&& spawned_on_field(
            spawned,
            fires_spec(self.pickup_timer.elapsed as int, PICKUP_INTERVAL as int, dt),
        )
        &&& next.pickups@ == untouched(self.pickups@ + spawned, next.player.pos)
    }

    /// The hazards after an active tick of `dt` microseconds that spawned
    /// `spawned`: the old ones and the new ones, each after one chase step
    /// towards the player where it stands at the end of the tick.
    pub open spec fn hazards_after(self, next: World, dt: int, spawned: Seq<Pos>) -> bool {
        &&& spawned_on_field(
            spawned,
            fires_spec(self.hazard_timer.elapsed as int, HAZARD_INTERVAL as int, dt),
        )
        &&& next.hazards@ == chased(
            self.hazards@ + spawned,
            next.player.pos,
            distance_spec(HAZARD_SPEED as int, dt),
        )
    }

    pub fn new() -> (r: World)
        ensures
            r.wf(),
            r.is_initial(),
    {
        World {
            player: Player::new(),
            pickups: Vec::new(),
            hazards: Vec::new(),
            pickup_timer: Timer::new(PICKUP_INTERVAL),
            hazard_timer: Timer::new(HAZARD_INTERVAL),
            score: 0,
            state: RunState::Active,
        }
    }

    /// Starts a new run from scratch.
    pub fn restart(&mut self)
        ensures
            final(self).wf(),
            final(self).is_initial(),
    {
        *self = World::new();
    }

    /// The message to show, present exactly while the run has ended.
    pub fn game_over_message(&self) -> (r: Option<&'static str>)
        ensures
            r.is_some() == (self.state == RunState::Ended),
            r.is_some() ==> r.unwrap()@ == GAME_OVER_TEXT@,
    {
        match self.state {
            RunState::Ended => Some(GAME_OVER_TEXT),
            RunState::Active => None,
        }
    }

    /// Advances both spawn timers by `dt` microseconds and adds one pickup
    /// or hazard at a random place on the field for each firing.
    pub fn spawn(&mut self, dt: u32)
        requires
            old(self).wf(),
            old(self).state == RunState::Active,
        ensures
            final(self).wf(),
            final(self).player == old(self).player,
            final(self).score == old(self).score,
            final(self).state == old(self).state,
            final(self).pickup_timer.elapsed == leftover_spec(
                old(self).pickup_timer.elapsed as int,
                PICKUP_INTERVAL as int,
                dt as int,
            ),
            final(self).hazard_timer.elapsed == leftover_spec(
                old(self).hazard_timer.elapsed as int,
                HAZARD_INTERVAL as int,
                dt as int,
            ),
            final(self).pickups@.len() == old(self).pickups@.len() + fires_spec(
                old(self).pickup_timer.elapsed as int,
                PICKUP_INTERVAL as int,
                dt as int,
            ),
            final(self).pickups@.subrange(0, old(self).pickups@.len() as int)
                == old(self).pickups@,
            final(self).hazards@.len() == old(self).hazards@.len() + fires_spec(
                old(self).hazard_timer.elapsed as int,
                HAZARD_INTERVAL as int,
                dt as int,
            ),
            final(self).hazards@.subrange(0, old(self).hazards@.len() as int)
                == old(self).hazards@,
            forall|i: int|
                old(self).hazards@.len() <= i < final(self).hazards@.len() ==> in_field(
                    #[trigger] final(self).hazards@[i],
                ),
    {
        let pickups_due = self.pickup_timer.tick(dt);
        spawn_random(&mut self.pickups, pickups_due);
        let hazards_due = self.hazard_timer.tick(dt);
        let ghost before = self.hazards@;
        spawn_random(&mut self.hazards, hazards_due);
        assert forall|i: int| 0 <= i < self.hazards@.len() implies hazard_ok(
            #[trigger] self.hazards@[i],
        ) by {
            if i < before.len() {
                assert(self.hazards@.subrange(0, before.len() as int)[i] == before[i]);
            } else {
                assert(in_field(self.hazards@[i]));
            }
        }
        assert forall|i: int| 0 <= i < self.pickups@.len() implies in_field(
            #[trigger] self.pickups@[i],
        ) by {
            if i < old(self).pickups@.len() {
                assert(self.pickups@.subrange(0, old(self).pickups@.len() as int)[i]
                    == old(self).pickups@[i]);
            }
        }
    }

    /// Every hazard takes one chase step of `dt` microseconds towards the player.
    pub fn chase(&mut self, dt: u32)
        requires
            old(self).wf(),
            old(self).state == RunState::Active,
        ensures
            final(self).wf(),
            final(self).player == old(self).player,
            final(self).pickups == old(self).pickups,
            final(self).pickup_timer == old(self).pickup_timer,
            final(self).hazard_timer == old(self).hazard_timer,
            final(self).score == old(self).score,
            final(self).state == old(self).state,
            final(self).hazards@.len() == old(self).hazards@.len(),
            forall|i: int|
                0 <= i < final(self).hazards@.len() ==> #[trigger] final(self).hazards@[i]
                    == pursue_spec(
                    old(self).hazards@[i],
                    old(self).player.pos,
                    distance_spec(HAZARD_SPEED as int, dt as int),
                ),
    {
        let p = self.player.pos;
        pursue_all(&mut self.hazards, p, dt);
    }

    /// The collision pass: every pickup the player touches is taken, scores
    /// one and plays the pickup sound; then, if any hazard touches the
    /// player, the run ends with the game-over sound, played once however
    /// many hazards touch.
    pub fn resolve_collisions(&mut self) -> (cues: Vec<Cue>)
        requires
            old(self).wf(),
            old(self).state == RunState::Active,
        ensures
            final(self).wf(),
            final(self).player == old(self).player,
            final(self).hazards == old(self).hazards,
            final(self).pickup_timer == old(self).pickup_timer,
            final(self).hazard_timer == old(self).hazard_timer,
            final(self).pickups@ == untouched(old(self).pickups@, old(self).player.pos),
            ({
                let taken = old(self).pickups@.len() - final(self).pickups@.len();
                let hit = exists|i: int|
                    0 <= i < old(self).hazards@.len() && overlap_spec(
                        old(self).player.pos,
                        #[trigger] old(self).hazards@[i],
                    );
                &&& final(self).score == add_score(old(self).score as int, taken)
                &&& final(self).state == (if hit {
                    RunState::Ended
                } else {
                    old(self).state
                })
                &&& cues@ == collision_cues(taken, hit)
            }),
    {
        let p = self.player.pos;
        let taken = take_pickups(&mut self.pickups, p);
        let mut cues: Vec<Cue> = Vec::new();
        let mut k: usize = 0;
        while k < taken
            invariant
                k <= taken,
                cues@ == pickup_cues(k as int),
            decreases taken - k,
        {
            cues.push(Cue::PlayPickupSound);
            k = k + 1;
            assert(cues@ =~= pickup_cues(k as int));
        }
        self.score = self.score.saturating_add(taken as u64);
        if hazard_hit(&self.hazards, p) {
            self.state = RunState::Ended;
            cues.push(Cue::PlayGameOverSound);
        }
        cues
    }

    /// One tick of `dt` microseconds. While the run goes on: the player
    /// moves, pickups and hazards spawn, hazards chase the player, and the
    /// collision pass runs. While it has ended nothing moves, and a
    /// `confirm` starts a new run.
    pub fn tick(&mut self, keys: Keys, confirm: bool, dt: u32) -> (cues: Vec<Cue>)
        requires
            old(self).wf(),
        ensures
            final(self).wf(),
            old(self).state == RunState::Ended && confirm ==> final(self).is_initial()
                && cues@.len() == 0,
            old(self).state == RunState::Ended && !confirm ==> *final(self) == *old(self)
                && cues@.len() == 0,
            old(self).state == RunState::Active ==> {
                let taken = cues@.len() - (if final(self).state == RunState::Ended {
                    1int
                } else {
                    0
                });
                &&& final(self).player == old(self).player.next_spec(keys, dt as int)
                &&& exists|sp: Seq<Pos>| #[trigger] old(self).pickups_after(*final(self), dt as int, sp)
                &&& exists|sh: Seq<Pos>| #[trigger] old(self).hazards_after(*final(self), dt as int, sh)
                &&& final(self).pickup_timer.elapsed == leftover_spec(
                    old(self).pickup_timer.elapsed as int,
                    PICKUP_INTERVAL as int,
                    dt as int,
                )
                &&& final(self).hazard_timer.elapsed == leftover_spec(
                    old(self).hazard_timer.elapsed as int,
                    HAZARD_INTERVAL as int,
                    dt as int,
                )
                &&& final(self).score == add_score(old(self).score as int, taken)
                &&& final(self).score >= old(self).score
                &&& cues@ == collision_cues(taken, final(self).state == RunState::Ended)
                &&& (final(self).state == RunState::Ended <==> exists|i: int|
                    0 <= i < final(self).hazards@.len() && overlap_spec(
                        final(self).player.pos,
                        #[trigger] final(self).hazards@[i],
                    ))
                &&& forall|i: int|
                    0 <= i < final(self).pickups@.len() ==> !overlap_spec(
                        final(self).player.pos,
                        #[trigger] final(self).pickups@[i],
                    )
                &&& final(self).pickups@.len() + taken == old(self).pickups@.len() + fires_spec(
                    old(self).pickup_timer.elapsed as int,
                    PICKUP_INTERVAL as int,
                    dt as int,
                )
                &&& final(self).hazards@.len() == old(self).hazards@.len() + fires_spec(
                    old(self).hazard_timer.elapsed as int,
                    HAZARD_INTERVAL as int,
                    dt as int,
                )
            },
    {
        match self.state {
            RunState::Ended => {
                if confirm {
                    self.restart();
                }
                Vec::new()
            },
            RunState::Active => {
                self.player.update(keys, dt);
                self.spawn(dt);
                let ghost sp = self.pickups@.subrange(
                    old(self).pickups@.len() as int,
                    self.pickups@.len() as int,
                );
                let ghost sh = self.hazards@.subrange(
                    old(self).hazards@.len() as int,
                    self.hazards@.len() as int,
                );
                proof {
                    assert(self.pickups@ =~= old(self).pickups@ + sp);
                    assert(self.hazards@ =~= old(self).hazards@ + sh);
                }
                let ghost spawned_all = self.hazards@;
                self.chase(dt);
                let ghost mid = self.pickups@;
                let ghost p = self.player.pos;
                let cues = self.resolve_collisions();
                proof {
                    assert(self.hazards@ =~= chased(
                        spawned_all,
                        p,
                        distance_spec(HAZARD_SPEED as int, dt as int),
                    ));
                    assert(old(self).pickups_after(*self, dt as int, sp));
                    assert(old(self).hazards_after(*self, dt as int, sh));
                    broadcast use vstd::seq_lib::group_filter_ensures;

                    assert forall|i: int| 0 <= i < self.pickups@.len() implies !overlap_spec(
                        p,
                        #[trigger] self.pickups@[i],
                    ) by {
                        let pred = |q: Pos| !overlap_spec(p, q);
                        mid.lemma_filter_pred(pred, i);
                    }
                }
                cues
            },
        }
    }
}

} // verus!
