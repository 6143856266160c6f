//! The authoritative game server: the player registry, the per-tick
//! simulation step, control-request handling, and input coalescing.
//!
//! One `Server` value owns all mutable game state. The surrounding process
//! drives it in a fixed-rate loop: drain and answer control requests through
//! [`Server::handle_control`], feed every pending input datagram to
//! [`Server::accept_input`], then call [`Server::tick`] with the measured
//! elapsed time; a returned [`GameState`] is the snapshot to broadcast.

use vstd::prelude::*;

verus! {

use vstd::set_lib::{lemma_len_subset, lemma_int_range, set_int_range};
use vstd::seq_lib::seq_to_set_is_finite;
use vstd::pervasive::VecAdditionalExecFns;

use crate::geom::{Vector2, UNIT, COORD_BOUND, div_trunc, div_trunc_i64};
use crate::input::{PlayerInput, coalesced};
use crate::palette::{Color, ColorPicker, fallback_color};
use crate::player::{PlayerState, PlayerEvent, Weapon, STARTING_HEALTH, INITIAL_RESPAWN_MS, is_died, is_respawned};
use crate::scores::{HighScores, bump_down, bump_up};
use crate::settings::GameSetting;
use crate::timer::{Timer, NANOS_PER_MILLI};

/// The longest single tick the simulation accepts, in nanoseconds (four
/// seconds); the driving loop clamps anything longer. Keeps all fixed-point
/// products inside `i64`.
pub const DELTA_MAX: u64 = 4_000_000_000;

/// Positions never leave this componentwise bound: a player can overshoot
/// the arena edge by at most one tick of travel before dying there.
pub const POS_BOUND: i64 = 5_000_000;

/// Half-width of the square a joining player spawns in (0.6 arena units).
pub const JOIN_SPAWN_BOUND: i64 = 600;

/// Half-width of the square a respawning player appears in (0.9 units).
pub const RESPAWN_BOUND: i64 = 900;

/// Collision radius given to every player (0.05 arena units).
pub const PLAYER_RADIUS: i64 = 50;

/// Relies on rand::random: a fresh sample from the thread-local generator.
/// Nothing is promised of the value; every caller states what holds of any
/// outcome.
pub assume_specification<T>[ rand::random::<T> ]() -> (r: T)
    where
        rand::distributions::Standard: rand::distributions::Distribution<T>,
;

/// A uniformly random id candidate, never zero (zero is reserved).
fn random_id_candidate() -> (id: u8)
    ensures
        id != 0,
{
    let r: u64 = rand::random();
    (r % 255) as u8 + 1
}

/// A random coordinate within [-bound, bound].
fn random_coord(bound: i64) -> (c: i64)
    requires
        0 <= bound <= 1000,
    ensures
        -bound <= c <= bound,
{
    let r: u64 = rand::random();
    let span = (2 * bound + 1) as u64;
    let m = (r % span) as i64;
    m - bound
}

/// A random point within the centered square of the given half-width.
fn random_point(bound: i64) -> (p: Vector2)
    requires
        0 <= bound <= 1000,
    ensures
        p.in_square(bound as int),
{
    Vector2 { x: random_coord(bound), y: random_coord(bound) }
}

/// Control requests a client can send; each gets exactly one reply.
#[derive(Clone, Debug)]
pub enum GameControlMsg {
    /// Enter the game under a display name.
    Join { name: String },
    /// Leave the game; stale ids are tolerated.
    Leave { id: u8 },
    /// Ask for the current game settings.
    Fetch,
}

/// Why a join was refused.
#[derive(Copy, Clone, Debug, PartialEq, Eq, Structural)]
pub enum JoinError {
    /// The registry is at capacity.
    GameFull,
    /// The requested name is already taken by a connected player.
    NameTaken,
}

impl JoinError {
    /// A human-readable description of the failure.
    pub fn message(&self) -> (m: String)
        ensures
            *self is GameFull ==> m@ == "the game is full"@,
            *self is NameTaken ==> m@ == "the name is already taken"@,
    {
        match self {
            JoinError::GameFull => String::from_str("the game is full"),
            JoinError::NameTaken => String::from_str("the name is already taken"),
        }
    }
}

/// The single reply a control request receives.
#[derive(Debug)]
pub enum ControlReply {
    /// The outcome of a join: the fresh id, or why it was refused.
    Joined(Result<u8, JoinError>),
    /// Whether a leave actually removed a registration.
    Left(bool),
    /// The current settings, for a fetch.
    Settings(GameSetting),
}

/// No two registered players share an id.
pub open spec fn ids_distinct(ps: Seq<PlayerState>) -> bool {
    forall|i: int, j: int| 0 <= i < j < ps.len() ==> ps[i].id != ps[j].id
}

/// No two registered players share a name.
pub open spec fn player_names_distinct(ps: Seq<PlayerState>) -> bool {
    forall|i: int, j: int| 0 <= i < j < ps.len() ==> ps[i].name@ != ps[j].name@
}

/// Some registered player carries this id.
pub open spec fn has_id(ps: Seq<PlayerState>, id: u8) -> bool {
    exists|i: int| 0 <= i < ps.len() && ps[i].id == id
}

/// Some registered player carries this name.
pub open spec fn has_player_name(ps: Seq<PlayerState>, name: Seq<char>) -> bool {
    exists|i: int| 0 <= i < ps.len() && ps[i].name@ == name
}

/// No two coalesced inputs share an id.
pub open spec fn input_ids_distinct(ins: Seq<PlayerInput>) -> bool {
    forall|i: int, j: int| 0 <= i < j < ins.len() ==> ins[i].id != ins[j].id
}

/// Some coalesced input carries this id.
pub open spec fn has_input_id(ins: Seq<PlayerInput>, id: u8) -> bool {
    exists|i: int| 0 <= i < ins.len() && ins[i].id == id
}

/// The per-player bounds every registered player satisfies: a nonzero id,
/// velocity within the configured maximum, position inside the arena while
/// alive and within the overshoot bound always, and sane combat parameters.
pub open spec fn player_ok(p: PlayerState, s: GameSetting) -> bool {
    &&& p.id != 0
    &&& p.velocity.in_square(s.max_velocity as int)
    &&& p.pos.in_square(POS_BOUND as int)
    &&& (!p.dead ==> p.pos.in_square(UNIT as int))
    &&& 0 < p.radius <= UNIT
    &&& 0 <= p.weapon.radius <= UNIT
    &&& 0 < p.weapon.damage <= 1000
    &&& 0 < p.starting_health <= 100_000
}

/// Health at a tick boundary: dead players sit at the -1 sentinel or await
/// their first spawn at full health; live players are strictly positive.
pub open spec fn player_health_ok(p: PlayerState) -> bool {
    &&& -1 <= p.health <= p.starting_health
    &&& (!p.dead ==> p.health > 0)
}

/// Health in the middle of a tick, after combat but before the death sweep:
/// damage can push a live player's health below zero, but never far.
pub open spec fn player_health_loose(p: PlayerState) -> bool {
    -400_000 <= p.health <= p.starting_health
}

/// The authoritative server state: settings, the player registry, the
/// coalesced-input table, the color pool, the score ledger, and the
/// broadcast bookkeeping.
pub struct Server {
    /// The (static) configuration this server runs with.
    pub settings: GameSetting,
    /// Every currently registered player; presence here is the sole
    /// authoritative signal of being in the game.
    pub players: Vec<PlayerState>,
    /// The per-id coalesced input table; persists across ticks except for
    /// the attack flag, which the simulation consumes.
    pub inputs: Vec<PlayerInput>,
    /// The pool of colors not currently worn by a player.
    pub color_picker: ColorPicker,
    /// The server-lifetime score ledger.
    pub high_scores: HighScores,
    /// Number of the next snapshot to broadcast; increments by exactly one
    /// per broadcast.
    pub frame_number: u64,
    /// The fixed-rate broadcast cadence.
    pub frame_timer: Timer,
}

impl Server {
    /// Every registered player within bounds.
    pub open spec fn players_ok(self) -> bool {
        forall|j: int| 0 <= j < self.players@.len()
            ==> player_ok(#[trigger] self.players@[j], self.settings)
    }

    /// Every coalesced input within bounds.
    pub open spec fn inputs_ok(self) -> bool {
        forall|k: int| 0 <= k < self.inputs@.len()
            ==> (#[trigger] self.inputs@[k]).valid()
    }

    /// Everything that holds between any two phases of a tick.
    pub open spec fn wf_base(self) -> bool {
        &&& self.settings.valid()
        &&& ids_distinct(self.players@)
        &&& player_names_distinct(self.players@)
        &&& self.players@.len() <= self.settings.max_players as int
        &&& self.players_ok()
        &&& self.inputs_ok()
        &&& input_ids_distinct(self.inputs@)
        &&& self.color_picker.wf()
        &&& self.high_scores.wf()
    }

    /// The full invariant, holding at every tick boundary.
    pub open spec fn wf(self) -> bool {
        &&& self.wf_base()
        &&& forall|j: int| 0 <= j < self.players@.len()
            ==> player_health_ok(#[trigger] self.players@[j])
    }

    /// Health bounds in the middle of a tick, after combat but before the
    /// death sweep: live players may sit at or below zero, dead players
    /// still hold their sentinel or first-spawn health.
    pub open spec fn healths_mid(self) -> bool {
        forall|j: int| 0 <= j < self.players@.len() ==> {
            let p = #[trigger] self.players@[j];
            player_health_loose(p) && (p.dead ==> -1 <= p.health)
        }
    }

    /// A fresh server with no players, no pending input, a full color pool,
    /// an empty ledger, and a 60 Hz broadcast cadence.
    pub fn new(settings: GameSetting) -> (s: Server)
        requires
            settings.valid(),
        ensures
            s.wf(),
            s.settings == settings,
            s.players@.len() == 0,
            s.inputs@.len() == 0,
            s.frame_number == 0,
            s.high_scores.scores@.len() == 0,
            s.frame_timer.time == 16_666_666,
            s.frame_timer.time_left == s.frame_timer.time,
            !s.frame_timer.ready,
            s.color_picker.colors@ == crate::palette::palette(),
            s.color_picker.index == 5,
    {
        Server {
            settings,
            players: Vec::new(),
            inputs: Vec::new(),
            color_picker: ColorPicker::new(),
            high_scores: HighScores::new(),
            frame_number: 0,
            frame_timer: Timer::from_nanos(16_666_666),
        }
    }

    /// Whether some registered player carries this id.
    fn contains_id(&self, id: u8) -> (r: bool)
        ensures
            r == has_id(self.players@, id),
    {
        let mut i: usize = 0;
        while i < self.players.len()
            invariant
                i <= self.players@.len(),
                forall|k: int| 0 <= k < i ==> (#[trigger] self.players@[k]).id != id,
            decreases self.players@.len() - i,
        {
            if self.players[i].id == id {
                return true;
            }
            i = i + 1;
        }
        false
    }

    /// Whether some registered player carries this name.
    fn contains_player_name(&self, name: &String) -> (r: bool)
        ensures
            r == has_player_name(self.players@, name@),
    {
        let mut i: usize = 0;
        while i < self.players.len()
            invariant
                i <= self.players@.len(),
                forall|k: int| 0 <= k < i ==> (#[trigger] self.players@[k]).name@ != name@,
            decreases self.players@.len() - i,
        {
            if self.players[i].name == *name {
                return true;
            }
            i = i + 1;
        }
        false
    }

    /// The index of the registered player carrying this id.
    fn index_of_id(&self, id: u8) -> (i: usize)
        requires
            has_id(self.players@, id),
        ensures
            i < self.players@.len(),
            self.players@[i as int].id == id,
    {
        let mut i: usize = 0;
        while i < self.players.len()
            invariant
                i <= self.players@.len(),
                has_id(self.players@, id),
                forall|k: int| 0 <= k < i ==> (#[trigger] self.players@[k]).id != id,
            decreases self.players@.len() - i,
        {
            if self.players[i].id == id {
                return i;
            }
            i = i + 1;
        }
        proof {
            let w = choose|w: int| 0 <= w < self.players@.len() && self.players@[w].id == id;
            assert(false);
        }
        0
    }

    /// A nonzero id no current player holds. Random candidates are drawn
    /// first (collisions are expected in a small id space and simply
    /// retried); a deterministic scan guarantees termination, and the
    /// capacity bound guarantees a free id exists.
    fn find_free_id(&self) -> (id: u8)
        requires
            ids_distinct(self.players@),
            self.players@.len() < 255,
        ensures
            id != 0,
            !has_id(self.players@, id),
    {
        let mut attempts: usize = 0;
        while attempts < 16
            invariant
                ids_distinct(self.players@),
                self.players@.len() < 255,
            decreases 16 - attempts,
        {
            let cand = random_id_candidate();
            if !self.contains_id(cand) {
                return cand;
            }
            attempts = attempts + 1;
        }
        let mut c: u16 = 1;
        while c <= 255
            invariant
                ids_distinct(self.players@),
                self.players@.len() < 255,
                1 <= c <= 256,
                forall|v: u8| 1 <= v < c ==> has_id(self.players@, v),
            decreases 256 - c,
        {
            if !self.contains_id(c as u8) {
                return c as u8;
            }
            c = c + 1;
        }
        proof {
            lemma_free_id_exists(self.players@);
        }
        1
    }

    /// Handle one control request and produce its single reply. A join is
    /// validated in order — capacity first, then name uniqueness — and a
    /// successful one registers a fresh player: dead, primed for a quick
    /// first spawn, at a random safe position, with a color from the pool
    /// and a ledger entry. A leave removes the registration if it exists
    /// and reports whether it did; a stale id is never an error. A fetch
    /// returns the settings unchanged.
    pub fn handle_control(&mut self, msg: GameControlMsg) -> (reply: ControlReply)
        requires
            old(self).wf(),
        ensures
            final(self).wf(),
            final(self).settings == old(self).settings,
            final(self).inputs == old(self).inputs,
            final(self).frame_number == old(self).frame_number,
            final(self).frame_timer == old(self).frame_timer,
            (msg matches GameControlMsg::Join { name } ==> {
                &&& (old(self).players@.len() >= old(self).settings.max_players as int ==> {
                    &&& reply == ControlReply::Joined(Err::<u8, JoinError>(JoinError::GameFull))
                    &&& *final(self) == *old(self)
                })
                &&& (old(self).players@.len() < old(self).settings.max_players as int
                    && has_player_name(old(self).players@, name@) ==> {
                    &&& reply == ControlReply::Joined(Err::<u8, JoinError>(JoinError::NameTaken))
                    &&& *final(self) == *old(self)
                })
                &&& (old(self).players@.len() < old(self).settings.max_players as int
                    && !has_player_name(old(self).players@, name@) ==> {
                    &&& final(self).players@.len() == old(self).players@.len() + 1
                    &&& final(self).players@.take(old(self).players@.len() as int)
                        == old(self).players@
                    &&& {
                        let p = final(self).players@.last();
                        &&& reply == ControlReply::Joined(Ok::<u8, JoinError>(p.id))
                        &&& p.id != 0
                        &&& !has_id(old(self).players@, p.id)
                        &&& p.name@ == name@
                        &&& p.dead
                        &&& p.health == STARTING_HEALTH
                        &&& p.pos.in_square(JOIN_SPAWN_BOUND as int)
                        &&& p.velocity == (Vector2 { x: 0i64, y: 0i64 })
                        &&& p.direction == 0
                        &&& p.radius == PLAYER_RADIUS
                        &&& p.starting_health == STARTING_HEALTH
                        &&& p.weapon.description@ == "Rusty Sword"@
                        &&& p.weapon.damage == 17
                        &&& p.weapon.radius == 100
                        &&& p.weapon.attack_timer.time == 500 * NANOS_PER_MILLI
                        &&& p.weapon.attack_timer.time_left == p.weapon.attack_timer.time
                        &&& !p.weapon.attack_timer.ready
                        &&& p.player_events@.len() == 0
                        &&& p.drop_timer.time == old(self).settings.drop_delay as u128
                            * NANOS_PER_MILLI
                        &&& p.drop_timer.time_left == p.drop_timer.time
                        &&& !p.drop_timer.ready
                        &&& p.respawn_timer.time == old(self).settings.respawn_delay as u128
                            * NANOS_PER_MILLI
                        &&& p.respawn_timer.time_left == INITIAL_RESPAWN_MS as u128
                            * NANOS_PER_MILLI
                        &&& !p.respawn_timer.ready
                        &&& p.color == (if old(self).color_picker.colors@.len() == 0 {
                            fallback_color()
                        } else {
                            old(self).color_picker.colors@[old(self).color_picker.index as int]
                        })
                    }
                    &&& final(self).color_picker.colors@ == (if old(
                        self,
                    ).color_picker.colors@.len() == 0 {
                        old(self).color_picker.colors@
                    } else {
                        old(self).color_picker.colors@.remove(
                            old(self).color_picker.index as int,
                        )
                    })
                    &&& final(self).high_scores.entry_of(name@) == match old(
                        self,
                    ).high_scores.entry_of(name@) {
                        Some(pts) => Some(pts),
                        None => Some(0int),
                    }
                    &&& forall|nm: Seq<char>| nm != name@
                        ==> final(self).high_scores.entry_of(nm)
                            == old(self).high_scores.entry_of(nm)
                })
            }),
            (msg matches GameControlMsg::Leave { id } ==> {
                &&& reply == ControlReply::Left(has_id(old(self).players@, id))
                &&& final(self).high_scores == old(self).high_scores
                &&& (!has_id(old(self).players@, id) ==> *final(self) == *old(self))
                &&& (has_id(old(self).players@, id) ==> exists|j: int|
                    {
                        &&& 0 <= j < old(self).players@.len()
                        &&& (#[trigger] old(self).players@[j]).id == id
                        &&& final(self).players@ == old(self).players@.remove(j)
                        &&& final(self).color_picker.colors@
                            == old(self).color_picker.colors@.push(old(self).players@[j].color)
                    })
            }),
            (msg is Fetch ==> *final(self) == *old(self)
                && (reply matches ControlReply::Settings(s) && s == old(self).settings)),
    {
        match msg {
            GameControlMsg::Join { name } => {
                if self.players.len() >= self.settings.max_players as usize {
                    return ControlReply::Joined(Err(JoinError::GameFull));
                }
                if self.contains_player_name(&name) {
                    return ControlReply::Joined(Err(JoinError::NameTaken));
                }
                let id = self.find_free_id();
                let color = self.color_picker.take();
                let pos = random_point(JOIN_SPAWN_BOUND);
                let player = PlayerState::new(&self.settings, id, name, color, pos, PLAYER_RADIUS);
                self.high_scores.add_player(player.name.as_str());
                let ghost before = self.players@;
                let ghost newcomer = player;
                self.players.push(player);
                proof {
                    assert(self.players@.take(before.len() as int) =~= before);
                    assert forall|j: int| 0 <= j < self.players@.len()
                        implies player_ok(#[trigger] self.players@[j], self.settings)
                            && player_health_ok(self.players@[j]) by {
                        if j < before.len() {
                            assert(self.players@[j] == before[j]);
                        } else {
                            assert(self.players@[j] == newcomer);
                        }
                    }
                    assert forall|i: int, j: int| 0 <= i < j < self.players@.len()
                        implies self.players@[i].id != self.players@[j].id
                            && self.players@[i].name@ != self.players@[j].name@ by {
                        if j == before.len() {
                            assert(self.players@[i] == before[i]);
                        } else {
                            assert(self.players@[i] == before[i]
                                && self.players@[j] == before[j]);
                        }
                    }
                }
                ControlReply::Joined(Ok(id))
            }
            GameControlMsg::Leave { id } => {
                if self.contains_id(id) {
                    let idx = self.index_of_id(id);
                    let ghost before = self.players@;
                    let player = self.players.remove(idx);
                    self.color_picker.give_back(player.color);
                    proof {
                        assert forall|i: int, j: int| 0 <= i < j < self.players@.len()
                            implies self.players@[i].id != self.players@[j].id
                                && self.players@[i].name@ != self.players@[j].name@ by {
                            let si = if i < idx { i } else { i + 1 };
                            let sj = if j < idx { j } else { j + 1 };
                            assert(self.players@[i] == before[si]
                                && self.players@[j] == before[sj]);
                        }
                        assert forall|j: int| 0 <= j < self.players@.len()
                            implies player_ok(#[trigger] self.players@[j], self.settings)
                                && player_health_ok(self.players@[j]) by {
                            let sj = if j < idx { j } else { j + 1 };
                            assert(self.players@[j] == before[sj]);
                        }
                    }
                    ControlReply::Left(true)
                } else {
                    ControlReply::Left(false)
                }
            }
            GameControlMsg::Fetch => ControlReply::Settings(self.settings.duplicate()),
        }
    }
}

/// One nanosecond-denominated second, for velocity integration.
pub const NANOS_PER_SEC: i64 = 1_000_000_000;

/// Acceleration times delta times the clamped move fraction, for one
/// velocity component: `m` is in milli-fractions of full stick deflection,
/// `accel` in milli-units per second squared, `delta_ns` in nanoseconds, so
/// the divisor folds the two scale factors together.
pub open spec fn accel_term(m: int, accel: int, delta_ns: int) -> int {
    div_trunc(m * accel * delta_ns, 1_000_000_000_000)
}

/// The fraction of velocity (in parts per 10^12) that survives drag over
/// `delta_ns`, floored at zero.
pub open spec fn drag_factor(drag: int, delta_ns: int) -> int {
    if drag * delta_ns >= 1_000_000_000_000 {
        0
    } else {
        1_000_000_000_000 - drag * delta_ns
    }
}

/// One velocity component after drag.
pub open spec fn dragged(v: int, drag: int, delta_ns: int) -> int {
    div_trunc(v * drag_factor(drag, delta_ns), 1_000_000_000_000)
}

/// The velocity the input phase leaves an alive player with: accelerate
/// along the (unit-clamped) move request if it clears the dead zone, decay
/// under drag otherwise, then clamp to the speed limit — halved while the
/// input requests an attack.
pub open spec fn vel_after_input(
    vel: Vector2,
    inp: PlayerInput,
    s: GameSetting,
    delta_ns: int,
) -> Vector2 {
    let mc = inp.move_amount.clamped_spec(UNIT as int);
    let base = if mc.mag_sq() > s.move_threshold * s.move_threshold {
        Vector2 {
            x: (vel.x + accel_term(mc.x as int, s.acceleration as int, delta_ns)) as i64,
            y: (vel.y + accel_term(mc.y as int, s.acceleration as int, delta_ns)) as i64,
        }
    } else {
        Vector2 {
            x: dragged(vel.x as int, s.drag as int, delta_ns) as i64,
            y: dragged(vel.y as int, s.drag as int, delta_ns) as i64,
        }
    };
    let cap = if inp.attack {
        s.max_velocity as int / 2
    } else {
        s.max_velocity as int
    };
    base.clamped_spec(cap)
}

/// The position one tick of residual velocity carries a player to.
pub open spec fn next_pos(p: PlayerState, delta_ns: int) -> Vector2 {
    Vector2 {
        x: (p.pos.x + div_trunc(p.velocity.x * delta_ns, NANOS_PER_SEC as int)) as i64,
        y: (p.pos.y + div_trunc(p.velocity.y * delta_ns, NANOS_PER_SEC as int)) as i64,
    }
}

/// An alive player whose integrated position leaves the arena this tick.
pub open spec fn boundary_victim(p: PlayerState, delta_ns: int) -> bool {
    !p.dead && !next_pos(p, delta_ns).in_square(UNIT as int)
}

/// A ledger entry after one penalty: decremented if present, created at
/// minus one if absent.
pub open spec fn penalized_entry(e: Option<int>) -> Option<int> {
    match e {
        Some(p) => Some(bump_down(p)),
        None => Some(-1int),
    }
}

/// What the timers-and-respawn phase does to one player: all three timers
/// advance; a dead player whose respawn timer just fired comes back to life
/// at a fresh position within the respawn square.
pub open spec fn phase1_player(p: PlayerState, q: PlayerState, delta: u64) -> bool {
    let pa = p.timers_advanced(delta as u128);
    if p.dead && pa.respawn_timer.ready {
        is_respawned(pa, q, q.pos) && q.pos.in_square(RESPAWN_BOUND as int)
    } else {
        q == pa
    }
}

/// What the input phase does to one player: nothing without a coalesced
/// input; with one, a dead player's velocity is zeroed (dead players never
/// accelerate), and a live player turns instantly and integrates the move
/// request into its velocity.
pub open spec fn phase2_player(
    p: PlayerState,
    q: PlayerState,
    ins: Seq<PlayerInput>,
    s: GameSetting,
    delta: u64,
) -> bool {
    if !has_input_id(ins, p.id) {
        q == p
    } else {
        let inp = ins[choose|k: int| 0 <= k < ins.len() && ins[k].id == p.id];
        if p.dead {
            q == (PlayerState { velocity: (Vector2 { x: 0i64, y: 0i64 }), ..p })
        } else {
            q == (PlayerState {
                direction: inp.direction,
                velocity: vel_after_input(p.velocity, inp, s, delta as int),
                ..p
            })
        }
    }
}

/// What the movement phase does to one player: dead players do not move;
/// a live player's position integrates its velocity, and leaving the arena
/// is instant death there (with a score penalty handled alongside).
pub open spec fn phase3_player(p: PlayerState, q: PlayerState, delta: u64) -> bool {
    if p.dead {
        q == p
    } else {
        let np = next_pos(p, delta as int);
        if np.in_square(UNIT as int) {
            q == (PlayerState { pos: np, ..p })
        } else {
            is_died((PlayerState { pos: np, ..p }), q)
        }
    }
}

/// Everything the timers-and-respawn phase does, as a relation between the
/// server before and after it: every player's timers advance and eligible
/// dead players respawn; nothing else moves.
pub open spec fn timers_phase_rel(pre: Server, post: Server, delta: u64) -> bool {
    &&& post.settings == pre.settings
    &&& post.inputs == pre.inputs
    &&& post.high_scores == pre.high_scores
    &&& post.color_picker == pre.color_picker
    &&& post.frame_number == pre.frame_number
    &&& post.frame_timer == pre.frame_timer
    &&& post.players@.len() == pre.players@.len()
    &&& forall|j: int| 0 <= j < pre.players@.len()
        ==> phase1_player(pre.players@[j], #[trigger] post.players@[j], delta)
}

/// Everything the input phase does: each coalesced input drives its
/// player's facing and velocity; nothing else moves.
pub open spec fn inputs_phase_rel(pre: Server, post: Server, delta: u64) -> bool {
    &&& post.settings == pre.settings
    &&& post.inputs == pre.inputs
    &&& post.high_scores == pre.high_scores
    &&& post.color_picker == pre.color_picker
    &&& post.frame_number == pre.frame_number
    &&& post.frame_timer == pre.frame_timer
    &&& post.players@.len() == pre.players@.len()
    &&& forall|j: int| 0 <= j < pre.players@.len()
        ==> phase2_player(
            pre.players@[j],
            #[trigger] post.players@[j],
            pre.inputs@,
            pre.settings,
            delta,
        )
}

/// Everything the movement phase does: live players integrate their
/// residual velocity, leaving the arena is death there, and each boundary
/// victim's ledger entry takes exactly one penalty.
pub open spec fn movement_phase_rel(pre: Server, post: Server, delta: u64) -> bool {
    &&& post.settings == pre.settings
    &&& post.inputs == pre.inputs
    &&& post.color_picker == pre.color_picker
    &&& post.frame_number == pre.frame_number
    &&& post.frame_timer == pre.frame_timer
    &&& post.players@.len() == pre.players@.len()
    &&& forall|j: int| 0 <= j < pre.players@.len()
        ==> phase3_player(pre.players@[j], #[trigger] post.players@[j], delta)
    &&& forall|nm: Seq<char>| post.high_scores.entry_of(nm) == (
        if exists|j: int| 0 <= j < pre.players@.len()
            && (#[trigger] pre.players@[j]).name@ == nm
            && boundary_victim(pre.players@[j], delta as int) {
            penalized_entry(pre.high_scores.entry_of(nm))
        } else {
            pre.high_scores.entry_of(nm)
        }
    )
}

impl Server {
    /// Whether some coalesced input carries this id.
    fn contains_input_id(&self, id: u8) -> (r: bool)
        ensures
            r == has_input_id(self.inputs@, id),
    {
        let mut k: usize = 0;
        while k < self.inputs.len()
            invariant
                k <= self.inputs@.len(),
                forall|m: int| 0 <= m < k ==> (#[trigger] self.inputs@[m]).id != id,
            decreases self.inputs@.len() - k,
        {
            if self.inputs[k].id == id {
                return true;
            }
            k = k + 1;
        }
        false
    }

    /// The index of the coalesced input carrying this id.
    fn index_of_input(&self, id: u8) -> (k: usize)
        requires
            has_input_id(self.inputs@, id),
        ensures
            k < self.inputs@.len(),
            self.inputs@[k as int].id == id,
    {
        let mut k: usize = 0;
        while k < self.inputs.len()
            invariant
                k <= self.inputs@.len(),
                has_input_id(self.inputs@, id),
                forall|m: int| 0 <= m < k ==> (#[trigger] self.inputs@[m]).id != id,
            decreases self.inputs@.len() - k,
        {
            if self.inputs[k].id == id {
                return k;
            }
            k = k + 1;
        }
        proof {
            let w = choose|w: int| 0 <= w < self.inputs@.len() && self.inputs@[w].id == id;
            assert(false);
        }
        0
    }

    /// Take one input datagram: a sample from a registered player proves
    /// liveness (its drop timer resets), and the sample is merged into the
    /// per-id accumulator table whether or not the id is registered. A
    /// sample with out-of-range movement is dropped as malformed; that is
    /// never an error.
    pub fn accept_input(&mut self, input: PlayerInput) -> (accepted: bool)
        requires
            old(self).wf(),
        ensures
            final(self).wf(),
            final(self).settings == old(self).settings,
            final(self).high_scores == old(self).high_scores,
            final(self).color_picker == old(self).color_picker,
            final(self).frame_number == old(self).frame_number,
            final(self).frame_timer == old(self).frame_timer,
            accepted == input.valid(),
            !input.valid() ==> *final(self) == *old(self),
            input.valid() ==> {
                &&& final(self).players@.len() == old(self).players@.len()
                &&& forall|j: int| 0 <= j < old(self).players@.len() ==> {
                    let p = #[trigger] old(self).players@[j];
                    if p.id == input.id {
                        final(self).players@[j] == (PlayerState {
                            drop_timer: (Timer {
                                time_left: p.drop_timer.time,
                                ready: false,
                                ..p.drop_timer
                            }),
                            ..p
                        })
                    } else {
                        final(self).players@[j] == p
                    }
                }
                &&& (has_input_id(old(self).inputs@, input.id) ==> {
                    &&& final(self).inputs@.len() == old(self).inputs@.len()
                    &&& forall|k: int| 0 <= k < old(self).inputs@.len() ==> {
                        let q = #[trigger] old(self).inputs@[k];
                        if q.id == input.id {
                            final(self).inputs@[k] == coalesced(q, input)
                        } else {
                            final(self).inputs@[k] == q
                        }
                    }
                })
                &&& (!has_input_id(old(self).inputs@, input.id)
                    ==> final(self).inputs@ == old(self).inputs@.push(input))
            },
    {
        let ok = input.move_amount.x >= -COORD_BOUND && input.move_amount.x <= COORD_BOUND
            && input.move_amount.y >= -COORD_BOUND && input.move_amount.y <= COORD_BOUND;
        if !ok {
            return false;
        }
        if self.contains_id(input.id) {
            let j = self.index_of_id(input.id);
            let ghost before = self.players@;
            let mut p = self.players.remove(j);
            p.drop_timer.reset();
            self.players.insert(j, p);
            proof {
                assert(self.players@ =~= before.update(j as int, self.players@[j as int]));
                assert forall|m: int| 0 <= m < before.len()
                    implies (if before[m].id == input.id {
                        self.players@[m] == (PlayerState {
                            drop_timer: (Timer {
                                time_left: before[m].drop_timer.time,
                                ready: false,
                                ..before[m].drop_timer
                            }),
                            ..before[m]
                        })
                    } else {
                        self.players@[m] == before[m]
                    }) by {
                    if m != j as int && before[m].id == input.id {
                        if m < j as int {
                            assert(before[m].id != before[j as int].id);
                        } else {
                            assert(before[j as int].id != before[m].id);
                        }
                    }
                }
            }
        }
        if self.contains_input_id(input.id) {
            let k = self.index_of_input(input.id);
            let ghost ins_before = self.inputs@;
            let mut q = self.inputs[k];
            q.coalesce(input);
            self.inputs.set(k, q);
            proof {
                assert forall|m: int| 0 <= m < ins_before.len()
                    implies (if ins_before[m].id == input.id {
                        self.inputs@[m] == coalesced(ins_before[m], input)
                    } else {
                        self.inputs@[m] == ins_before[m]
                    }) by {
                    if m != k as int && ins_before[m].id == input.id {
                        if m < k as int {
                            assert(ins_before[m].id != ins_before[k as int].id);
                        } else {
                            assert(ins_before[k as int].id != ins_before[m].id);
                        }
                    }
                }
            }
        } else {
            self.inputs.push(input);
        }
        true
    }

    /// Advance every player's weapon-cooldown, idle-drop and respawn timers
    /// by the tick's elapsed time, and bring eligible dead players back to
    /// life at a fresh random position: respawning is a pure state
    /// transition, not contingent on input.
    pub fn advance_timers_and_respawns(&mut self, delta: u64)
        requires
            old(self).wf(),
            delta <= DELTA_MAX,
        ensures
            final(self).wf(),
            timers_phase_rel(*old(self), *final(self), delta),
    {
        let ghost orig = self.players@;
        let mut j: usize = 0;
        while j < self.players.len()
            invariant
                self.wf_base(),
                delta <= DELTA_MAX,
                self.settings == old(self).settings,
                self.inputs == old(self).inputs,
                self.high_scores == old(self).high_scores,
                self.color_picker == old(self).color_picker,
                self.frame_number == old(self).frame_number,
                self.frame_timer == old(self).frame_timer,
                self.players@.len() == orig.len(),
                j <= orig.len(),
                forall|m: int| 0 <= m < j
                    ==> phase1_player(orig[m], #[trigger] self.players@[m], delta),
                forall|m: int| j <= m < orig.len()
                    ==> #[trigger] self.players@[m] == orig[m],
                forall|m: int| 0 <= m < orig.len()
                    ==> player_health_ok(#[trigger] self.players@[m]),
            decreases orig.len() - j,
        {
            let ghost before = self.players@;
            let mut p = self.players.remove(j);
            let ghost p0 = p;
            p.update(delta);
            if p.dead && p.respawn_timer.ready {
                let pos = random_point(RESPAWN_BOUND);
                p.respawn(pos);
            }
            let ghost p1 = p;
            self.players.insert(j, p);
            proof {
                assert(self.players@ =~= before.update(j as int, p1));
                assert(phase1_player(p0, p1, delta));
                assert forall|i: int, m: int| 0 <= i < m < self.players@.len()
                    implies self.players@[i].id != self.players@[m].id
                        && self.players@[i].name@ != self.players@[m].name@ by {
                    assert(self.players@[i].id == before[i].id
                        && self.players@[m].id == before[m].id
                        && self.players@[i].name@ == before[i].name@
                        && self.players@[m].name@ == before[m].name@);
                }
            }
            j = j + 1;
        }
    }

    /// Turn this tick's coalesced inputs into velocities: for every
    /// registered player with an input, a dead one has its velocity zeroed
    /// and its input otherwise ignored, and a live one faces the requested
    /// direction instantly and accelerates, coasts under drag, and is
    /// clamped to the speed limit (halved while attacking). Players without
    /// fresh input keep their residual velocity.
    pub fn apply_inputs(&mut self, delta: u64)
        requires
            old(self).wf(),
            delta <= DELTA_MAX,
        ensures
            final(self).wf(),
            inputs_phase_rel(*old(self), *final(self), delta),
    {
        let ghost orig = self.players@;
        let mut j: usize = 0;
        while j < self.players.len()
            invariant
                self.wf_base(),
                delta <= DELTA_MAX,
                self.settings == old(self).settings,
                self.inputs == old(self).inputs,
                self.high_scores == old(self).high_scores,
                self.color_picker == old(self).color_picker,
                self.frame_number == old(self).frame_number,
                self.frame_timer == old(self).frame_timer,
                self.players@.len() == orig.len(),
                j <= orig.len(),
                forall|m: int| 0 <= m < j
                    ==> phase2_player(
                        orig[m],
                        #[trigger] self.players@[m],
                        self.inputs@,
                        self.settings,
                        delta,
                    ),
                forall|m: int| j <= m < orig.len()
                    ==> #[trigger] self.players@[m] == orig[m],
                forall|m: int| 0 <= m < orig.len()
                    ==> player_health_ok(#[trigger] self.players@[m]),
            decreases orig.len() - j,
        {
            let pid = self.players[j].id;
            if self.contains_input_id(pid) {
                let k = self.index_of_input(pid);
                let inp = self.inputs[k];
                let ghost before = self.players@;
                let mut p = self.players.remove(j);
                let ghost p0 = p;
                if p.dead {
                    p.velocity = Vector2::new();
                } else {
                    p.direction = inp.direction;
                    p.velocity = velocity_update(p.velocity, &inp, &self.settings, delta);
                }
                let ghost p1 = p;
                self.players.insert(j, p);
                proof {
                    assert(self.players@ =~= before.update(j as int, p1));
                    let kk = choose|kk: int| 0 <= kk < self.inputs@.len()
                        && self.inputs@[kk].id == p0.id;
                    if kk != k as int {
                        if kk < k as int {
                            assert(self.inputs@[kk].id != self.inputs@[k as int].id);
                        } else {
                            assert(self.inputs@[k as int].id != self.inputs@[kk].id);
                        }
                    }
                    assert(phase2_player(p0, p1, self.inputs@, self.settings, delta));
                    assert forall|i: int, m: int| 0 <= i < m < self.players@.len()
                        implies self.players@[i].id != self.players@[m].id
                            && self.players@[i].name@ != self.players@[m].name@ by {
                        assert(self.players@[i].id == before[i].id
                            && self.players@[m].id == before[m].id
                            && self.players@[i].name@ == before[i].name@
                            && self.players@[m].name@ == before[m].name@);
                    }
                }
            }
            j = j + 1;
        }
    }

    /// Integrate every live player's residual velocity into its position —
    /// not just those with fresh input — and kill any player the drift
    /// carries out of the arena: boundary death penalizes the player's
    /// score and emits a `Die` event the same tick. Dead players do not
    /// move.
    pub fn integrate_positions(&mut self, delta: u64)
        requires
            old(self).wf(),
            delta <= DELTA_MAX,
        ensures
            final(self).wf(),
            movement_phase_rel(*old(self), *final(self), delta),
    {
        let ghost orig = self.players@;
        let ghost hs0 = self.high_scores;
        let mut j: usize = 0;
        while j < self.players.len()
            invariant
                self.wf_base(),
                delta <= DELTA_MAX,
                self.settings == old(self).settings,
                self.inputs == old(self).inputs,
                self.color_picker == old(self).color_picker,
                self.frame_number == old(self).frame_number,
                self.frame_timer == old(self).frame_timer,
                self.players@.len() == orig.len(),
                hs0 == old(self).high_scores,
                orig == old(self).players@,
                player_names_distinct(orig),
                j <= orig.len(),
                forall|m: int| 0 <= m < j
                    ==> phase3_player(orig[m], #[trigger] self.players@[m], delta),
                forall|m: int| j <= m < orig.len()
                    ==> #[trigger] self.players@[m] == orig[m],
                forall|m: int| 0 <= m < orig.len()
                    ==> player_health_ok(#[trigger] self.players@[m]),
                forall|nm: Seq<char>| self.high_scores.entry_of(nm) == (
                    if exists|m: int| 0 <= m < j && (#[trigger] orig[m]).name@ == nm
                        && boundary_victim(orig[m], delta as int) {
                        penalized_entry(hs0.entry_of(nm))
                    } else {
                        hs0.entry_of(nm)
                    }
                ),
            decreases orig.len() - j,
        {
            let ghost before = self.players@;
            let ghost hs_before = self.high_scores;
            let mut p = self.players.remove(j);
            let ghost p0 = p;
            let mut died_here: bool = false;
            if !p.dead {
                let np = integrated_position(&p, &self.settings, delta);
                p.pos = np;
                if !(np.x >= -UNIT && np.x <= UNIT && np.y >= -UNIT && np.y <= UNIT) {
                    died_here = true;
                }
            }
            if died_here {
                self.high_scores.penalize(p.name.as_str());
                p.die();
            }
            let ghost p1 = p;
            self.players.insert(j, p);
            proof {
                assert(self.players@ =~= before.update(j as int, p1));
                assert(phase3_player(p0, p1, delta));
                assert forall|i: int, m: int| 0 <= i < m < self.players@.len()
                    implies self.players@[i].id != self.players@[m].id
                        && self.players@[i].name@ != self.players@[m].name@ by {
                    assert(self.players@[i].id == before[i].id
                        && self.players@[m].id == before[m].id
                        && self.players@[i].name@ == before[i].name@
                        && self.players@[m].name@ == before[m].name@);
                }
                assert forall|nm: Seq<char>| self.high_scores.entry_of(nm) == (
                    if exists|m: int| 0 <= m < j + 1 && (#[trigger] orig[m]).name@ == nm
                        && boundary_victim(orig[m], delta as int) {
                        penalized_entry(hs0.entry_of(nm))
                    } else {
                        hs0.entry_of(nm)
                    }
                ) by {
                    if died_here && nm == p0.name@ {
                        assert(orig[j as int].name@ == nm
                            && boundary_victim(orig[j as int], delta as int));
                        if exists|m: int| 0 <= m < j && (#[trigger] orig[m]).name@ == nm
                            && boundary_victim(orig[m], delta as int) {
                            let m = choose|m: int| 0 <= m < j && (#[trigger] orig[m]).name@ == nm
                                && boundary_victim(orig[m], delta as int);
                            assert(orig[m].name@ != orig[j as int].name@);
                        }
                        assert(hs_before.entry_of(nm) == hs0.entry_of(nm));
                    } else if died_here {
                        assert(self.high_scores.entry_of(nm) == hs_before.entry_of(nm));
                        if exists|m: int| 0 <= m < j + 1 && (#[trigger] orig[m]).name@ == nm
                            && boundary_victim(orig[m], delta as int) {
                            let m = choose|m: int| 0 <= m < j + 1
                                && (#[trigger] orig[m]).name@ == nm
                                && boundary_victim(orig[m], delta as int);
                            assert(m < j);
                        }
                    } else {
                        if exists|m: int| 0 <= m < j + 1 && (#[trigger] orig[m]).name@ == nm
                            && boundary_victim(orig[m], delta as int) {
                            let m = choose|m: int| 0 <= m < j + 1
                                && (#[trigger] orig[m]).name@ == nm
                                && boundary_victim(orig[m], delta as int);
                            assert(m < j);
                        }
                    }
                }
            }
            j = j + 1;
        }
    }
}

/// Squared distance between two points.
pub open spec fn dist_sq(a: Vector2, b: Vector2) -> int {
    (a.x - b.x) * (a.x - b.x) + (a.y - b.y) * (a.y - b.y)
}

/// The defender's center lies within the attacker's sword reach (weapon
/// radius plus the attacker's own radius).
pub open spec fn in_reach(att: PlayerState, def: PlayerState) -> bool {
    dist_sq(att.pos, def.pos) <= (att.weapon.radius + att.radius) * (att.weapon.radius
        + att.radius)
}

/// Index `j` holds a live defender the attacker at index `ai` hits: another
/// player, alive, within reach.
pub open spec fn is_hit(ps: Seq<PlayerState>, ai: int, j: int) -> bool {
    0 <= j < ps.len() && j != ai && !ps[j].dead && in_reach(ps[ai], ps[j])
}

/// Whether the attacker at `ai` hits anyone at all.
pub open spec fn any_hit(ps: Seq<PlayerState>, ai: int) -> bool {
    exists|j: int| is_hit(ps, ai, j)
}

/// The `AttackHit` events the attacker at `ai` logs, one per defender hit,
/// in registry order, over defender indices below `n`.
pub open spec fn hit_events_upto(ps: Seq<PlayerState>, ai: int, n: int) -> Seq<PlayerEvent>
    decreases n,
{
    if n <= 0 {
        Seq::empty()
    } else if is_hit(ps, ai, n - 1) {
        hit_events_upto(ps, ai, n - 1).push(PlayerEvent::AttackHit { id: ps[n - 1].id })
    } else {
        hit_events_upto(ps, ai, n - 1)
    }
}

/// A hit that newly brings the defender's health to zero or below: the
/// attacker is credited a point for it.
pub open spec fn is_kill(ps: Seq<PlayerState>, ai: int, j: int) -> bool {
    is_hit(ps, ai, j) && ps[j].health > 0 && ps[j].health - ps[ai].weapon.damage <= 0
}

/// How many kills the attacker at `ai` scores among defender indices
/// below `n`.
pub open spec fn kill_count_upto(ps: Seq<PlayerState>, ai: int, n: int) -> nat
    decreases n,
{
    if n <= 0 {
        0
    } else if is_kill(ps, ai, n - 1) {
        kill_count_upto(ps, ai, n - 1) + 1
    } else {
        kill_count_upto(ps, ai, n - 1)
    }
}

/// A ledger entry after one scoring event: incremented if present, created
/// at one point if absent.
pub open spec fn scored_entry(e: Option<int>) -> Option<int> {
    match e {
        Some(p) => Some(bump_up(p)),
        None => Some(1int),
    }
}

/// A ledger entry after `k` scoring events.
pub open spec fn bumped_times(e: Option<int>, k: nat) -> Option<int>
    decreases k,
{
    if k == 0 {
        e
    } else {
        scored_entry(bumped_times(e, (k - 1) as nat))
    }
}

/// `b` is `a` after taking one hit for `dmg` damage: health down by the
/// damage, a `TookDamage` event appended, all else unchanged.
pub open spec fn damaged(a: PlayerState, b: PlayerState, dmg: i64) -> bool {
    &&& b == (PlayerState {
        health: (a.health - dmg) as i64,
        player_events: b.player_events,
        ..a
    })
    &&& b.player_events@ == a.player_events@.push(PlayerEvent::TookDamage)
}

/// The exact effect of one serviced attack by the live, cooled-down
/// attacker at index `ai`, relating the registry and ledger before and
/// after: the attacker's cooldown resets and it logs exactly one miss or
/// one-or-more hits; every live defender in reach takes one helping of
/// damage and logs it; the attacker's ledger entry is bumped once per kill;
/// nothing else changes.
pub open spec fn attack_rel(
    ps0: Seq<PlayerState>,
    hs0: HighScores,
    ps1: Seq<PlayerState>,
    hs1: HighScores,
    ai: int,
) -> bool {
    &&& 0 <= ai < ps0.len()
    &&& ps1.len() == ps0.len()
    &&& ({
        let p = ps0[ai];
        let q = ps1[ai];
        &&& q == (PlayerState {
            weapon: (Weapon {
                attack_timer: (Timer {
                    time_left: p.weapon.attack_timer.time,
                    ready: false,
                    ..p.weapon.attack_timer
                }),
                ..p.weapon
            }),
            player_events: q.player_events,
            ..p
        })
        &&& q.player_events@ == if any_hit(ps0, ai) {
            p.player_events@ + hit_events_upto(ps0, ai, ps0.len() as int)
        } else {
            p.player_events@.push(PlayerEvent::AttackMiss)
        }
    })
    &&& (any_hit(ps0, ai) ==> hit_events_upto(ps0, ai, ps0.len() as int).len() >= 1)
    &&& forall|j: int| 0 <= j < ps0.len() && j != ai ==> {
        let p = #[trigger] ps0[j];
        let q = ps1[j];
        if is_hit(ps0, ai, j) {
            damaged(p, q, ps0[ai].weapon.damage)
        } else {
            q == p
        }
    }
    &&& hs1.entry_of(ps0[ai].name@) == bumped_times(
        hs0.entry_of(ps0[ai].name@),
        kill_count_upto(ps0, ai, ps0.len() as int),
    )
    &&& forall|nm: Seq<char>| nm != ps0[ai].name@ ==> hs1.entry_of(nm) == hs0.entry_of(nm)
}

/// One servicing step for an id whose attack flag was consumed: a stale id,
/// a dead attacker, or a cooldown still running is skipped silently —
/// nothing at all changes, in particular the cooldown is not reset — and
/// otherwise the attack is resolved exactly per [`attack_rel`].
pub open spec fn service_step(
    ps0: Seq<PlayerState>,
    hs0: HighScores,
    ps1: Seq<PlayerState>,
    hs1: HighScores,
    id: u8,
) -> bool {
    if has_id(ps0, id) {
        let ai = choose|ai: int| 0 <= ai < ps0.len() && ps0[ai].id == id;
        if !ps0[ai].dead && ps0[ai].weapon.attack_timer.ready {
            attack_rel(ps0, hs0, ps1, hs1, ai)
        } else {
            ps1 == ps0 && hs1 == hs0
        }
    } else {
        ps1 == ps0 && hs1 == hs0
    }
}

/// The whole attack phase over the registry and ledger: the ids in `ids`
/// are serviced one after another, in order, each step a resolution or a
/// silent skip; an empty list changes nothing.
pub open spec fn serviced_all(
    ps0: Seq<PlayerState>,
    hs0: HighScores,
    ps1: Seq<PlayerState>,
    hs1: HighScores,
    ids: Seq<u8>,
) -> bool
    decreases ids.len(),
{
    if ids.len() == 0 {
        ps1 == ps0 && hs1 == hs0
    } else {
        exists|mid_ps: Seq<PlayerState>, mid_hs: HighScores|
            #![trigger service_step(ps0, hs0, mid_ps, mid_hs, ids[0])]
            {
                &&& service_step(ps0, hs0, mid_ps, mid_hs, ids[0])
                &&& serviced_all(mid_ps, mid_hs, ps1, hs1, ids.drop_first())
            }
    }
}

/// Whether a coalesced input has a pending attack request.
pub open spec fn wants_attack(q: PlayerInput) -> bool {
    q.attack
}

/// The ids whose coalesced inputs request an attack, in table order: the
/// list the attack phase services.
pub open spec fn attacking_ids(ins: Seq<PlayerInput>) -> Seq<u8> {
    ins.filter(|q: PlayerInput| wants_attack(q)).map_values(|q: PlayerInput| q.id)
}

/// Servicing one more id after a serviced chain extends the chain.
proof fn lemma_serviced_all_snoc(
    ps0: Seq<PlayerState>,
    hs0: HighScores,
    ps1: Seq<PlayerState>,
    hs1: HighScores,
    ps2: Seq<PlayerState>,
    hs2: HighScores,
    ids: Seq<u8>,
    id: u8,
)
    requires
        serviced_all(ps0, hs0, ps1, hs1, ids),
        service_step(ps1, hs1, ps2, hs2, id),
    ensures
        serviced_all(ps0, hs0, ps2, hs2, ids.push(id)),
    decreases ids.len(),
{
    if ids.len() == 0 {
        assert(ids.push(id)[0] == id);
        assert(ids.push(id).drop_first() =~= Seq::<u8>::empty());
        assert(service_step(ps0, hs0, ps2, hs2, ids.push(id)[0]));
        assert(serviced_all(ps2, hs2, ps2, hs2, ids.push(id).drop_first()));
    } else {
        let (mid_ps, mid_hs) = choose|mid_ps: Seq<PlayerState>, mid_hs: HighScores|
            #![trigger service_step(ps0, hs0, mid_ps, mid_hs, ids[0])]
            service_step(ps0, hs0, mid_ps, mid_hs, ids[0]) && serviced_all(
                mid_ps,
                mid_hs,
                ps1,
                hs1,
                ids.drop_first(),
            );
        lemma_serviced_all_snoc(mid_ps, mid_hs, ps1, hs1, ps2, hs2, ids.drop_first(), id);
        assert(ids.push(id)[0] == ids[0]);
        assert(ids.push(id).drop_first() =~= ids.drop_first().push(id));
        assert(service_step(ps0, hs0, mid_ps, mid_hs, ids.push(id)[0]));
    }
}

/// An attack that hits someone logs at least one `AttackHit`.
pub proof fn lemma_hit_events_nonempty(ps: Seq<PlayerState>, ai: int, n: int)
    requires
        exists|j: int| j < n && is_hit(ps, ai, j),
    ensures
        hit_events_upto(ps, ai, n).len() >= 1,
    decreases n,
{
    let j = choose|j: int| j < n && is_hit(ps, ai, j);
    if j < n - 1 {
        lemma_hit_events_nonempty(ps, ai, n - 1);
    }
}

/// The attacker's hit log holds nothing but `AttackHit` events — in
/// particular, never an `AttackMiss`: one outcome per serviced attack.
pub proof fn lemma_hit_events_only_hits(ps: Seq<PlayerState>, ai: int, n: int)
    ensures
        forall|i: int| 0 <= i < hit_events_upto(ps, ai, n).len()
            ==> (#[trigger] hit_events_upto(ps, ai, n)[i]) is AttackHit,
    decreases n,
{
    if n > 0 {
        lemma_hit_events_only_hits(ps, ai, n - 1);
        let prev = hit_events_upto(ps, ai, n - 1);
        let cur = hit_events_upto(ps, ai, n);
        assert forall|i: int| 0 <= i < cur.len() implies (#[trigger] cur[i]) is AttackHit by {
            if i < prev.len() {
                assert(cur[i] == prev[i]);
            }
        }
    }
}

/// With distinct input ids (bytes), the input table cannot exceed 256
/// entries: pigeonhole over the id space.
proof fn lemma_input_table_bound(ins: Seq<PlayerInput>)
    requires
        input_ids_distinct(ins),
    ensures
        ins.len() <= 256,
{
    if ins.len() > 256 {
        let ids = ins.map(|i: int, q: PlayerInput| q.id as int);
        assert(ids.no_duplicates()) by {
            assert forall|i: int, j: int|
                0 <= i < ids.len() && 0 <= j < ids.len() && i != j implies ids[i] != ids[j] by {
                assert(ids[i] == ins[i].id as int && ids[j] == ins[j].id as int);
                if i < j {
                    assert(ins[i].id != ins[j].id);
                } else {
                    assert(ins[j].id != ins[i].id);
                }
            }
        }
        ids.unique_seq_to_set();
        seq_to_set_is_finite(ids);
        assert(ids.to_set().subset_of(set_int_range(0, 256))) by {
            assert forall|v: int| ids.to_set().contains(v)
                implies set_int_range(0, 256).contains(v) by {
                let i = choose|i: int| 0 <= i < ids.len() && ids[i] == v;
                assert(ids[i] == ins[i].id as int);
            }
        }
        lemma_int_range(0, 256);
        lemma_len_subset(ids.to_set(), set_int_range(0, 256));
        assert(false);
    }
}

/// Sequence prefixes compose.
proof fn lemma_prefix_trans(a: Seq<PlayerEvent>, b: Seq<PlayerEvent>, c: Seq<PlayerEvent>)
    requires
        a.is_prefix_of(b),
        b.is_prefix_of(c),
    ensures
        a.is_prefix_of(c),
{
    assert(c.subrange(0, a.len() as int) =~= b.subrange(0, a.len() as int));
}

/// Everything the attack phase does: every pending attack flag is consumed,
/// and the ids that requested an attack are serviced one after another in
/// table order — each one resolved exactly per [`attack_rel`], or skipped
/// with no effect at all when the id is stale, the attacker dead, or the
/// cooldown still running. No pending attacks means nothing changes. The
/// framing conjuncts restate what servicing alone can do to each player:
/// health only drops, combat events are only appended, identity and motion
/// state stay put, and dead players are untouchable.
pub open spec fn attacks_phase_rel(pre: Server, post: Server) -> bool {
    &&& serviced_all(
        pre.players@,
        pre.high_scores,
        post.players@,
        post.high_scores,
        attacking_ids(pre.inputs@),
    )
    &&& post.settings == pre.settings
    &&& post.color_picker == pre.color_picker
    &&& post.frame_number == pre.frame_number
    &&& post.frame_timer == pre.frame_timer
    &&& post.inputs@.len() == pre.inputs@.len()
    &&& forall|k: int| 0 <= k < pre.inputs@.len()
        ==> post.inputs@[k] == (PlayerInput { attack: false, ..(#[trigger] pre.inputs@[k]) })
    &&& post.players@.len() == pre.players@.len()
    &&& forall|j: int| 0 <= j < pre.players@.len() ==> {
        let p = #[trigger] pre.players@[j];
        let q = post.players@[j];
        &&& q.id == p.id
        &&& q.name == p.name
        &&& q.color == p.color
        &&& q.pos == p.pos
        &&& q.direction == p.direction
        &&& q.radius == p.radius
        &&& q.velocity == p.velocity
        &&& q.starting_health == p.starting_health
        &&& q.dead == p.dead
        &&& q.drop_timer == p.drop_timer
        &&& q.respawn_timer == p.respawn_timer
        &&& q.weapon.damage == p.weapon.damage
        &&& q.weapon.radius == p.weapon.radius
        &&& q.weapon.description == p.weapon.description
        &&& q.health <= p.health
        &&& (p.dead ==> q.health == p.health)
        &&& player_health_loose(q)
        &&& p.player_events@.is_prefix_of(q.player_events@)
    }
}

impl Server {
    /// Resolve one serviced attack by the live, cooled-down attacker at
    /// index `ai`, against the pre-phase positions and health of everyone
    /// else. The cooldown resets because the attack was serviced, hit or
    /// miss. Every other live player within reach takes one helping of
    /// damage and logs `TookDamage`; the attacker logs one `AttackHit` per
    /// defender hit, or exactly one `AttackMiss` if nobody was in reach —
    /// never both, never neither. One point is scored per defender this
    /// attack newly brought to zero health.
    pub fn resolve_attack(&mut self, ai: usize)
        requires
            old(self).wf_base(),
            forall|j: int| 0 <= j < old(self).players@.len() ==> {
                let p = #[trigger] old(self).players@[j];
                -400_000 <= p.health <= p.starting_health
            },
            ai < old(self).players@.len(),
            !old(self).players@[ai as int].dead,
            old(self).players@[ai as int].weapon.attack_timer.ready,
        ensures
            final(self).wf_base(),
            final(self).settings == old(self).settings,
            final(self).inputs == old(self).inputs,
            final(self).color_picker == old(self).color_picker,
            final(self).frame_number == old(self).frame_number,
            final(self).frame_timer == old(self).frame_timer,
            final(self).players@.len() == old(self).players@.len(),
            attack_rel(
                old(self).players@,
                old(self).high_scores,
                final(self).players@,
                final(self).high_scores,
                ai as int,
            ),
            forall|j: int| 0 <= j < old(self).players@.len() ==> {
                let p = #[trigger] old(self).players@[j];
                let q = final(self).players@[j];
                p.health - 1000 <= q.health <= p.health
            },
    {
        let ghost ps0 = self.players@;
        let ghost hs0 = self.high_scores;
        let att_pos = self.players[ai].pos;
        let att_radius = self.players[ai].radius;
        let att_wradius = self.players[ai].weapon.radius;
        let att_damage = self.players[ai].weapon.damage;
        let att_name = self.players[ai].name.clone();
        let mut hit_any: bool = false;
        let mut hits: Vec<PlayerEvent> = Vec::new();
        let mut j: usize = 0;
        while j < self.players.len()
            invariant
                self.wf_base(),
                self.settings == old(self).settings,
                self.inputs == old(self).inputs,
                self.color_picker == old(self).color_picker,
                self.frame_number == old(self).frame_number,
                self.frame_timer == old(self).frame_timer,
                self.players@.len() == ps0.len(),
                ai < ps0.len(),
                j <= ps0.len(),
                ps0 == old(self).players@,
                hs0 == old(self).high_scores,
                !ps0[ai as int].dead,
                att_pos == ps0[ai as int].pos,
                att_radius == ps0[ai as int].radius,
                att_wradius == ps0[ai as int].weapon.radius,
                att_damage == ps0[ai as int].weapon.damage,
                att_name@ == ps0[ai as int].name@,
                forall|m: int| 0 <= m < ps0.len() ==> {
                    let p = #[trigger] ps0[m];
                    -400_000 <= p.health <= p.starting_health
                },
                self.players@[ai as int] == ps0[ai as int],
                forall|m: int| j <= m < ps0.len()
                    ==> #[trigger] self.players@[m] == ps0[m],
                forall|m: int| 0 <= m < j && m != ai ==> {
                    let p = #[trigger] ps0[m];
                    let q = self.players@[m];
                    if is_hit(ps0, ai as int, m) {
                        damaged(p, q, att_damage)
                    } else {
                        q == p
                    }
                },
                hit_any == exists|m: int| m < j && is_hit(ps0, ai as int, m),
                hits@ == hit_events_upto(ps0, ai as int, j as int),
                self.high_scores.entry_of(att_name@) == bumped_times(
                    hs0.entry_of(att_name@),
                    kill_count_upto(ps0, ai as int, j as int),
                ),
                forall|nm: Seq<char>| nm != att_name@
                    ==> self.high_scores.entry_of(nm) == hs0.entry_of(nm),
            decreases ps0.len() - j,
        {
            if j != ai {
                let within = {
                    let dpos = self.players[j].pos;
                    let dx = att_pos.x - dpos.x;
                    let dy = att_pos.y - dpos.y;
                    proof {
                        assert(dx * dx <= 10_000_000int * 10_000_000 && dx * dx >= 0)
                            by (nonlinear_arith)
                            requires -10_000_000 <= dx <= 10_000_000,
                        ;
                        assert(dy * dy <= 10_000_000int * 10_000_000 && dy * dy >= 0)
                            by (nonlinear_arith)
                            requires -10_000_000 <= dy <= 10_000_000,
                        ;
                        let reach = att_wradius + att_radius;
                        assert(reach * reach <= 2000int * 2000 && reach * reach >= 0)
                            by (nonlinear_arith)
                            requires 0 <= reach <= 2000,
                        ;
                    }
                    let dsq = dx * dx + dy * dy;
                    let reach = att_wradius + att_radius;
                    dsq <= reach * reach
                };
                if !self.players[j].dead && within {
                    let ghost before = self.players@;
                    let ghost hs_before = self.high_scores;
                    hit_any = true;
                    let mut d = self.players.remove(j);
                    if d.health > 0 && d.health - att_damage <= 0 {
                        self.high_scores.score(att_name.as_str());
                        proof {
                            assert(is_kill(ps0, ai as int, j as int));
                        }
                    }
                    d.health = d.health - att_damage;
                    d.player_events.push(PlayerEvent::TookDamage);
                    let did = d.id;
                    self.players.insert(j, d);
                    hits.push(PlayerEvent::AttackHit { id: did });
                    proof {
                        assert(self.players@ =~= before.update(j as int, self.players@[j as int]));
                        assert(is_hit(ps0, ai as int, j as int));
                        assert(damaged(ps0[j as int], self.players@[j as int], att_damage));
                        assert(hits@ =~= hit_events_upto(ps0, ai as int, j + 1));
                        assert forall|i: int, m: int| 0 <= i < m < self.players@.len()
                            implies self.players@[i].id != self.players@[m].id
                                && self.players@[i].name@ != self.players@[m].name@ by {
                            assert(self.players@[i].id == before[i].id
                                && self.players@[m].id == before[m].id
                                && self.players@[i].name@ == before[i].name@
                                && self.players@[m].name@ == before[m].name@);
                        }
                        if !is_kill(ps0, ai as int, j as int) {
                            assert(kill_count_upto(ps0, ai as int, j + 1)
                                == kill_count_upto(ps0, ai as int, j as int));
                        }
                    }
                } else {
                    proof {
                        assert(!is_hit(ps0, ai as int, j as int));
                        assert(hits@ == hit_events_upto(ps0, ai as int, j + 1));
                        assert(kill_count_upto(ps0, ai as int, j + 1)
                            == kill_count_upto(ps0, ai as int, j as int));
                    }
                }
            } else {
                proof {
                    assert(!is_hit(ps0, ai as int, j as int));
                    assert(hits@ == hit_events_upto(ps0, ai as int, j + 1));
                    assert(kill_count_upto(ps0, ai as int, j + 1)
                        == kill_count_upto(ps0, ai as int, j as int));
                }
            }
            j = j + 1;
        }
        let ghost before = self.players@;
        let mut a = self.players.remove(ai);
        a.weapon.attack_timer.reset();
        if hit_any {
            proof {
                lemma_hit_events_nonempty(ps0, ai as int, ps0.len() as int);
            }
            let mut hits_moved = hits;
            a.player_events.append(&mut hits_moved);
        } else {
            a.player_events.push(PlayerEvent::AttackMiss);
        }
        self.players.insert(ai, a);
        proof {
            assert(self.players@ =~= before.update(ai as int, self.players@[ai as int]));
            assert forall|i: int, m: int| 0 <= i < m < self.players@.len()
                implies self.players@[i].id != self.players@[m].id
                    && self.players@[i].name@ != self.players@[m].name@ by {
                assert(self.players@[i].id == before[i].id
                    && self.players@[m].id == before[m].id
                    && self.players@[i].name@ == before[i].name@
                    && self.players@[m].name@ == before[m].name@);
            }
        }
    }

    /// Collect every id whose coalesced input requests an attack, clearing
    /// each flag as it is collected — an attack attempt is consumed exactly
    /// once — then service each collected attacker that is still
    /// registered, alive, and off cooldown. Stale ids are silently dropped,
    /// and a cooling-down attacker is skipped without producing any
    /// outcome.
    pub fn resolve_attacks(&mut self)
        requires
            old(self).wf(),
        ensures
            final(self).wf_base(),
            final(self).healths_mid(),
            attacks_phase_rel(*old(self), *final(self)),
    {
        let ghost ins0 = self.inputs@;
        let mut attacking: Vec<u8> = Vec::new();
        let mut k: usize = 0;
        proof {
            reveal_with_fuel(Seq::<PlayerInput>::filter, 2);
            assert(ins0.take(0) =~= Seq::<PlayerInput>::empty());
            assert(attacking_ids(ins0.take(0)) =~= Seq::<u8>::empty());
        }
        while k < self.inputs.len()
            invariant
                self.inputs@.len() == ins0.len(),
                k <= ins0.len(),
                attacking@.len() <= k,
                attacking@ == attacking_ids(ins0.take(k as int)),
                forall|m: int| 0 <= m < k
                    ==> self.inputs@[m] == (PlayerInput {
                        attack: false,
                        ..(#[trigger] ins0[m])
                    }),
                forall|m: int| k <= m < ins0.len()
                    ==> #[trigger] self.inputs@[m] == ins0[m],
                self.settings == old(self).settings,
                self.players == old(self).players,
                self.high_scores == old(self).high_scores,
                self.color_picker == old(self).color_picker,
                self.frame_number == old(self).frame_number,
                self.frame_timer == old(self).frame_timer,
            decreases ins0.len() - k,
        {
            let q = self.inputs[k];
            proof {
                reveal_with_fuel(Seq::<PlayerInput>::filter, 2);
                assert(ins0.take(k + 1).drop_last() =~= ins0.take(k as int));
                assert(ins0.take(k + 1).last() == ins0[k as int]);
            }
            if q.attack {
                attacking.push(q.id);
                let mut q2 = q;
                q2.attack = false;
                self.inputs.set(k, q2);
                proof {
                    reveal_with_fuel(Seq::<PlayerInput>::filter, 2);
                    assert(ins0.take(k + 1).filter(|q: PlayerInput| wants_attack(q))
                        =~= ins0.take(k as int).filter(|q: PlayerInput| wants_attack(q)).push(
                        ins0[k as int]));
                    assert(attacking@ =~= attacking_ids(ins0.take(k + 1)));
                }
            } else {
                proof {
                    reveal_with_fuel(Seq::<PlayerInput>::filter, 2);
                    assert(ins0.take(k + 1).filter(|q: PlayerInput| wants_attack(q))
                        =~= ins0.take(k as int).filter(|q: PlayerInput| wants_attack(q)));
                    assert(attacking@ =~= attacking_ids(ins0.take(k + 1)));
                }
            }
            k = k + 1;
        }
        proof {
            assert(ins0.take(ins0.len() as int) =~= ins0);
            assert(attacking@ == attacking_ids(ins0));
            assert forall|i: int, m: int| 0 <= i < m < self.inputs@.len()
                implies self.inputs@[i].id != self.inputs@[m].id by {
                assert(self.inputs@[i].id == ins0[i].id && self.inputs@[m].id == ins0[m].id);
            }
            assert forall|m: int| 0 <= m < self.inputs@.len()
                implies (#[trigger] self.inputs@[m]).valid() by {
                assert(self.inputs@[m].move_amount == ins0[m].move_amount);
            }
            lemma_input_table_bound(ins0);
        }
        let ghost orig = self.players@;
        let ghost hs_orig = self.high_scores;
        let mut t: usize = 0;
        proof {
            assert(attacking@.take(0) =~= Seq::<u8>::empty());
            assert(serviced_all(orig, hs_orig, self.players@, self.high_scores,
                attacking@.take(0)));
        }
        while t < attacking.len()
            invariant
                self.wf_base(),
                orig == old(self).players@,
                hs_orig == old(self).high_scores,
                attacking@ == attacking_ids(ins0),
                ins0 == old(self).inputs@,
                serviced_all(orig, hs_orig, self.players@, self.high_scores,
                    attacking@.take(t as int)),
                self.settings == old(self).settings,
                self.color_picker == old(self).color_picker,
                self.frame_number == old(self).frame_number,
                self.frame_timer == old(self).frame_timer,
                self.inputs@.len() == ins0.len(),
                forall|m: int| 0 <= m < ins0.len()
                    ==> self.inputs@[m] == (PlayerInput {
                        attack: false,
                        ..(#[trigger] ins0[m])
                    }),
                t <= attacking@.len(),
                attacking@.len() <= 256,
                self.players@.len() == orig.len(),
                forall|j: int| 0 <= j < orig.len() ==> {
                    let p = #[trigger] orig[j];
                    let q = self.players@[j];
                    &&& q.id == p.id
                    &&& q.name == p.name
                    &&& q.color == p.color
                    &&& q.pos == p.pos
                    &&& q.direction == p.direction
                    &&& q.radius == p.radius
                    &&& q.velocity == p.velocity
                    &&& q.starting_health == p.starting_health
                    &&& q.dead == p.dead
                    &&& q.drop_timer == p.drop_timer
                    &&& q.respawn_timer == p.respawn_timer
                    &&& q.weapon.damage == p.weapon.damage
                    &&& q.weapon.radius == p.weapon.radius
                    &&& q.weapon.description == p.weapon.description
                    &&& q.health <= p.health
                    &&& q.health >= p.health - 1000 * t
                    &&& (p.dead ==> q.health == p.health)
                    &&& q.health <= q.starting_health
                    &&& p.player_events@.is_prefix_of(q.player_events@)
                },
                forall|j: int| 0 <= j < orig.len()
                    ==> player_health_ok(#[trigger] orig[j]),
            decreases attacking@.len() - t,
        {
            let id = attacking[t];
            let ghost mid = self.players@;
            let ghost mid_hs = self.high_scores;
            if self.contains_id(id) {
                let ai = self.index_of_id(id);
                let is_dead = self.players[ai].dead;
                let ready = self.players[ai].weapon.attack_timer.ready;
                if !is_dead && ready {
                    proof {
                        assert forall|j: int| 0 <= j < mid.len() implies {
                            let p = #[trigger] mid[j];
                            -400_000 <= p.health <= p.starting_health
                        } by {
                            assert(mid[j].health >= orig[j].health - 1000 * t);
                            assert(orig[j].health >= -1);
                        }
                    }
                    self.resolve_attack(ai);
                    proof {
                        assert forall|j: int| 0 <= j < orig.len() implies {
                            let p = #[trigger] orig[j];
                            let q = self.players@[j];
                            &&& p.player_events@.is_prefix_of(q.player_events@)
                            &&& q.health >= p.health - 1000 * (t + 1)
                            &&& (p.dead ==> q.health == p.health)
                        } by {
                            if j == ai as int {
                                assert(mid[j].player_events@.is_prefix_of(
                                    self.players@[j].player_events@));
                            } else if is_hit(mid, ai as int, j) {
                                assert(mid[j].player_events@.is_prefix_of(
                                    self.players@[j].player_events@));
                            } else {
                                assert(self.players@[j] == mid[j]);
                            }
                            lemma_prefix_trans(
                                orig[j].player_events@,
                                mid[j].player_events@,
                                self.players@[j].player_events@,
                            );
                        }
                        let ci = choose|ci: int| 0 <= ci < mid.len() && mid[ci].id == id;
                        if ci != ai as int {
                            if ci < ai as int {
                                assert(mid[ci].id != mid[ai as int].id);
                            } else {
                                assert(mid[ai as int].id != mid[ci].id);
                            }
                        }
                        assert(service_step(mid, mid_hs, self.players@, self.high_scores, id));
                    }
                } else {
                    proof {
                        let ci = choose|ci: int| 0 <= ci < mid.len() && mid[ci].id == id;
                        if ci != ai as int {
                            if ci < ai as int {
                                assert(mid[ci].id != mid[ai as int].id);
                            } else {
                                assert(mid[ai as int].id != mid[ci].id);
                            }
                        }
                        assert(service_step(mid, mid_hs, self.players@, self.high_scores, id));
                    }
                }
            } else {
                proof {
                    assert(!has_id(mid, id));
                    assert(service_step(mid, mid_hs, self.players@, self.high_scores, id));
                }
            }
            proof {
                lemma_serviced_all_snoc(
                    orig,
                    hs_orig,
                    mid,
                    mid_hs,
                    self.players@,
                    self.high_scores,
                    attacking@.take(t as int),
                    id,
                );
                assert(attacking@.take(t + 1)
                    =~= attacking@.take(t as int).push(attacking@[t as int]));
            }
            t = t + 1;
        }
        proof {
            assert(attacking@.take(attacking@.len() as int) =~= attacking@);
        }
        proof {
            assert forall|j: int| 0 <= j < orig.len()
                implies player_health_loose(#[trigger] final(self).players@[j])
                    && (final(self).players@[j].dead ==> -1 <= final(self).players@[j].health) by {
                assert(self.players@[j].health >= orig[j].health - 1000 * attacking@.len());
                assert(orig[j].health >= -1);
                assert(self.players@[j].dead == orig[j].dead);
            }
        }
    }
}

/// A player survives the idle sweep while its drop timer has not fired.
pub open spec fn keeps_playing(p: PlayerState) -> bool {
    !p.drop_timer.ready
}

/// The colors the idle sweep reclaims, in registry order.
pub open spec fn reclaimed_colors(ps: Seq<PlayerState>) -> Seq<Color> {
    ps.filter(|p: PlayerState| p.drop_timer.ready).map_values(|p: PlayerState| p.color)
}

/// What the death sweep does to one player: a live player whose health was
/// driven to zero or below dies (sentinel health, respawn timer restarted,
/// `Die` event); everyone else is untouched.
pub open spec fn phase5_player(p: PlayerState, q: PlayerState) -> bool {
    if !p.dead && p.health <= 0 {
        is_died(p, q)
    } else {
        q == p
    }
}

/// Everything the idle sweep does: exactly the players whose drop timers
/// fired disappear (order kept), and their colors return to the pool in
/// registry order; nothing else moves.
pub open spec fn eviction_rel(pre: Server, post: Server) -> bool {
    &&& post.settings == pre.settings
    &&& post.inputs == pre.inputs
    &&& post.high_scores == pre.high_scores
    &&& post.frame_number == pre.frame_number
    &&& post.frame_timer == pre.frame_timer
    &&& post.players@ == pre.players@.filter(|p: PlayerState| keeps_playing(p))
    &&& post.color_picker.colors@ == pre.color_picker.colors@ + reclaimed_colors(pre.players@)
    &&& post.color_picker.index == pre.color_picker.index
}

/// Everything the death sweep does: live players at or below zero health
/// die; nothing else moves.
pub open spec fn death_sweep_rel(pre: Server, post: Server) -> bool {
    &&& post.settings == pre.settings
    &&& post.inputs == pre.inputs
    &&& post.high_scores == pre.high_scores
    &&& post.color_picker == pre.color_picker
    &&& post.frame_number == pre.frame_number
    &&& post.frame_timer == pre.frame_timer
    &&& post.players@.len() == pre.players@.len()
    &&& forall|j: int| 0 <= j < pre.players@.len()
        ==> phase5_player(pre.players@[j], #[trigger] post.players@[j])
}

/// Everything assembling and clearing one broadcast does: the snapshot
/// carries the frame number, the measured delta, the settings hash, the top
/// of the ledger, and every player's state with this tick's events; the
/// events are then cleared and the frame number increments by exactly one.
pub open spec fn broadcast_rel(pre: Server, post: Server, gs: GameState, delta: u64) -> bool {
    &&& gs.frame_number == pre.frame_number
    &&& post.frame_number == pre.frame_number + 1
    &&& gs.delta == delta
    &&& gs.game_setting_hash == pre.settings.hash_spec()
    &&& gs.high_scores.scores@ == crate::scores::top10_view(pre.high_scores)
    &&& post.settings == pre.settings
    &&& post.inputs == pre.inputs
    &&& post.high_scores == pre.high_scores
    &&& post.color_picker == pre.color_picker
    &&& post.frame_timer == (Timer {
        time_left: pre.frame_timer.time,
        ready: false,
        ..pre.frame_timer
    })
    &&& gs.player_states@.len() == pre.players@.len()
    &&& post.players@.len() == pre.players@.len()
    &&& forall|j: int| 0 <= j < pre.players@.len() ==> {
        let p = #[trigger] pre.players@[j];
        &&& p == (PlayerState { player_events: p.player_events, ..gs.player_states@[j] })
        &&& gs.player_states@[j].player_events@ == p.player_events@
        &&& post.players@[j] == (PlayerState {
            player_events: post.players@[j].player_events,
            ..p
        })
        &&& post.players@[j].player_events@.len() == 0
    }
}

/// The one per-tick broadcast snapshot: everything a client needs to render
/// the world and detect configuration changes.
pub struct GameState {
    /// Which frame this is; starts at zero and increments by one per
    /// broadcast, never skipping.
    pub frame_number: u64,
    /// The wall-clock time the server measured since the previous tick,
    /// nanoseconds.
    pub delta: u64,
    /// The hash of the current settings; when it changes, re-fetch.
    pub game_setting_hash: u64,
    /// Every currently registered player. Presence here is the only
    /// reliable signal that a player is in the game.
    pub player_states: Vec<PlayerState>,
    /// The top of the score ledger (at most ten entries).
    pub high_scores: HighScores,
}

impl Server {
    /// Forcibly remove every player whose drop timer has fired — no input
    /// arrived within the configured idle window — returning each one's
    /// color to the pool. Server-initiated: there is no reply.
    pub fn evict_idle(&mut self)
        requires
            old(self).wf_base(),
            old(self).healths_mid(),
        ensures
            final(self).wf_base(),
            final(self).healths_mid(),
            eviction_rel(*old(self), *final(self)),
    {
        let ghost orig = self.players@;
        let ghost cp0 = self.color_picker;
        let ghost mut done: int = 0;
        let mut j: usize = 0;
        proof {
            assert(orig.take(0) =~= Seq::<PlayerState>::empty());
            reveal_with_fuel(Seq::<PlayerState>::filter, 1);
            assert(orig.take(0).filter(|p: PlayerState| keeps_playing(p))
                =~= Seq::<PlayerState>::empty());
            assert(orig.take(0).filter(|p: PlayerState| p.drop_timer.ready)
                =~= Seq::<PlayerState>::empty());
            assert(self.players@ =~= orig.take(0).filter(|p: PlayerState| keeps_playing(p))
                + orig.skip(0));
            assert(self.color_picker.colors@ =~= cp0.colors@
                + reclaimed_colors(orig.take(0)));
        }
        while j < self.players.len()
            invariant
                self.wf_base(),
                self.healths_mid(),
                self.settings == old(self).settings,
                self.inputs == old(self).inputs,
                self.high_scores == old(self).high_scores,
                self.frame_number == old(self).frame_number,
                self.frame_timer == old(self).frame_timer,
                orig == old(self).players@,
                cp0 == old(self).color_picker,
                0 <= done <= orig.len(),
                j as int == orig.take(done).filter(|p: PlayerState| keeps_playing(p)).len(),
                self.players@ == orig.take(done).filter(|p: PlayerState| keeps_playing(p))
                    + orig.skip(done),
                self.color_picker.colors@ == cp0.colors@ + reclaimed_colors(orig.take(done)),
                self.color_picker.index == cp0.index,
            decreases orig.len() - done,
        {
            let ghost kept = orig.take(done).filter(|p: PlayerState| keeps_playing(p));
            proof {
                reveal_with_fuel(Seq::<PlayerState>::filter, 2);
                assert(self.players@[j as int] == orig.skip(done)[0]);
                assert(orig.skip(done)[0] == orig[done]);
                assert(orig.take(done + 1).drop_last() =~= orig.take(done));
                assert(orig.take(done + 1).last() == orig[done]);
            }
            if self.players[j].drop_timer.ready {
                let dropped = self.players.remove(j);
                self.color_picker.give_back(dropped.color);
                proof {
                    reveal_with_fuel(Seq::<PlayerState>::filter, 2);
                    assert(orig.take(done + 1).filter(|p: PlayerState| keeps_playing(p))
                        =~= kept);
                    assert(orig.take(done + 1).filter(|p: PlayerState| p.drop_timer.ready)
                        =~= orig.take(done).filter(|p: PlayerState| p.drop_timer.ready).push(
                        orig[done]));
                    assert(reclaimed_colors(orig.take(done + 1))
                        =~= reclaimed_colors(orig.take(done)).push(orig[done].color));
                    assert(self.players@ =~= kept + orig.skip(done + 1));
                    done = done + 1;
                    assert forall|i: int, m: int| 0 <= i < m < self.players@.len()
                        implies self.players@[i].id != self.players@[m].id
                            && self.players@[i].name@ != self.players@[m].name@ by {
                        let bi = if i < j as int { i } else { i + 1 };
                        let bm = if m < j as int { m } else { m + 1 };
                        assert(self.players@[i] == (kept + orig.skip(done - 1))[bi]
                            && self.players@[m] == (kept + orig.skip(done - 1))[bm]);
                    }
                }
            } else {
                j = j + 1;
                proof {
                    reveal_with_fuel(Seq::<PlayerState>::filter, 2);
                    assert(orig.take(done + 1).filter(|p: PlayerState| keeps_playing(p))
                        =~= kept.push(orig[done]));
                    assert(orig.take(done + 1).filter(|p: PlayerState| p.drop_timer.ready)
                        =~= orig.take(done).filter(|p: PlayerState| p.drop_timer.ready));
                    assert(reclaimed_colors(orig.take(done + 1))
                        =~= reclaimed_colors(orig.take(done)));
                    assert(self.players@ =~= kept.push(orig[done]) + orig.skip(done + 1));
                    done = done + 1;
                }
            }
        }
        proof {
            assert(orig.skip(done).len() == 0);
            assert(done == orig.len());
            assert(orig.take(done) =~= orig);
        }
    }

    /// Transition every live player whose health was driven to zero or
    /// below (by this tick's combat) to dead: sentinel health, respawn
    /// timer restarted, a `Die` event. Boundary deaths already happened
    /// during movement; this sweep catches deaths from damage.
    pub fn sweep_deaths(&mut self)
        requires
            old(self).wf_base(),
            old(self).healths_mid(),
        ensures
            final(self).wf(),
            death_sweep_rel(*old(self), *final(self)),
    {
        let ghost orig = self.players@;
        let mut j: usize = 0;
        while j < self.players.len()
            invariant
                self.wf_base(),
                self.settings == old(self).settings,
                self.inputs == old(self).inputs,
                self.high_scores == old(self).high_scores,
                self.color_picker == old(self).color_picker,
                self.frame_number == old(self).frame_number,
                self.frame_timer == old(self).frame_timer,
                self.players@.len() == orig.len(),
                orig == old(self).players@,
                old(self).healths_mid(),
                j <= orig.len(),
                forall|m: int| 0 <= m < j
                    ==> phase5_player(orig[m], #[trigger] self.players@[m]),
                forall|m: int| 0 <= m < j
                    ==> player_health_ok(#[trigger] self.players@[m]),
                forall|m: int| j <= m < orig.len()
                    ==> #[trigger] self.players@[m] == orig[m],
            decreases orig.len() - j,
        {
            let ghost before = self.players@;
            let alive = !self.players[j].dead;
            let low = self.players[j].health <= 0;
            if alive && low {
                let mut p = self.players.remove(j);
                p.die();
                let ghost p1 = p;
                self.players.insert(j, p);
                proof {
                    assert(self.players@ =~= before.update(j as int, p1));
                    assert forall|i: int, m: int| 0 <= i < m < self.players@.len()
                        implies self.players@[i].id != self.players@[m].id
                            && self.players@[i].name@ != self.players@[m].name@ by {
                        assert(self.players@[i].id == before[i].id
                            && self.players@[m].id == before[m].id
                            && self.players@[i].name@ == before[i].name@
                            && self.players@[m].name@ == before[m].name@);
                    }
                }
            }
            j = j + 1;
        }
    }

    /// One scheduler iteration: advance the broadcast timer, run the five
    /// simulation phases in their fixed order (timers and respawns, input to
    /// velocity, velocity to position with boundary deaths, attack
    /// resolution, idle eviction and the death sweep), and, if at least one
    /// broadcast period has elapsed, assemble the snapshot to broadcast.
    /// The snapshot carries this tick's events; they are cleared right
    /// after, so each event is visible in exactly one snapshot. The frame
    /// number increments by exactly one per broadcast and never otherwise.
    /// When no broadcast is due the simulation still advances, keeping
    /// physics and control responsive above the broadcast rate.
    pub fn tick(&mut self, delta: u64) -> (snap: Option<GameState>)
        requires
            old(self).wf(),
            delta <= DELTA_MAX,
            old(self).frame_number < u64::MAX,
        ensures
            final(self).wf(),
            final(self).settings == old(self).settings,
            ({
                let fired = old(self).frame_timer.advanced(delta as u128).ready;
                &&& (snap is Some <==> fired)
                &&& (!fired ==> final(self).frame_timer
                    == old(self).frame_timer.advanced(delta as u128))
                &&& (fired ==> final(self).frame_timer == (Timer {
                    time_left: old(self).frame_timer.time,
                    ready: false,
                    ..old(self).frame_timer
                }))
            }),
            snap is None ==> final(self).frame_number == old(self).frame_number,
            (snap matches Some(gs) ==> {
                &&& gs.frame_number == old(self).frame_number
                &&& final(self).frame_number == old(self).frame_number + 1
                &&& gs.delta == delta
                &&& gs.game_setting_hash == old(self).settings.hash_spec()
                &&& gs.high_scores.scores@ == crate::scores::top10_view(final(self).high_scores)
                &&& gs.player_states@.len() == final(self).players@.len()
                &&& forall|j: int| 0 <= j < final(self).players@.len() ==> {
                    let r = #[trigger] final(self).players@[j];
                    &&& r == (PlayerState {
                        player_events: r.player_events,
                        ..gs.player_states@[j]
                    })
                    &&& r.player_events@.len() == 0
                }
            }),
            final(self).inputs@.len() == old(self).inputs@.len(),
            forall|k: int| 0 <= k < old(self).inputs@.len()
                ==> final(self).inputs@[k] == (PlayerInput {
                    attack: false,
                    ..(#[trigger] old(self).inputs@[k])
                }),
            exists|s2: Server, s3: Server, s4: Server, s5: Server, s6: Server, s7: Server|
                #![trigger inputs_phase_rel(s2, s3, delta), movement_phase_rel(s3, s4, delta),
                    attacks_phase_rel(s4, s5), eviction_rel(s5, s6), death_sweep_rel(s6, s7)]
                {
                    let s1 = (Server {
                        frame_timer: old(self).frame_timer.advanced(delta as u128),
                        ..*old(self)
                    });
                    &&& timers_phase_rel(s1, s2, delta)
                    &&& inputs_phase_rel(s2, s3, delta)
                    &&& movement_phase_rel(s3, s4, delta)
                    &&& attacks_phase_rel(s4, s5)
                    &&& eviction_rel(s5, s6)
                    &&& death_sweep_rel(s6, s7)
                    &&& (snap matches Some(gs) ==> broadcast_rel(s7, *final(self), gs, delta))
                    &&& (snap is None ==> *final(self) == s7)
                },
    {
        self.frame_timer.update(delta);
        let ghost w1 = *self;
        self.advance_timers_and_respawns(delta);
        let ghost w2 = *self;
        self.apply_inputs(delta);
        let ghost w3 = *self;
        self.integrate_positions(delta);
        let ghost w4 = *self;
        self.resolve_attacks();
        let ghost w5 = *self;
        self.evict_idle();
        let ghost w6 = *self;
        self.sweep_deaths();
        let ghost w7 = *self;
        proof {
            assert(w1 == (Server {
                frame_timer: old(self).frame_timer.advanced(delta as u128),
                ..*old(self)
            }));
        }
        if self.frame_timer.ready {
            self.frame_timer.reset();
            let hash = self.settings.get_hash();
            let top = self.high_scores.top10();
            let mut snap_players: Vec<PlayerState> = Vec::new();
            let mut j: usize = 0;
            while j < self.players.len()
                invariant
                    j <= self.players@.len(),
                    snap_players@.len() == j,
                    forall|m: int| 0 <= m < j ==> {
                        let r = #[trigger] self.players@[m];
                        r == (PlayerState {
                            player_events: r.player_events,
                            ..snap_players@[m]
                        }) && snap_players@[m].player_events@ == r.player_events@
                    },
                decreases self.players@.len() - j,
            {
                snap_players.push(self.players[j].duplicate());
                j = j + 1;
            }
            let ghost pre_clear = self.players@;
            let ghost srv_mid = *self;
            let mut m: usize = 0;
            while m < self.players.len()
                invariant
                    self.wf(),
                    m <= self.players@.len(),
                    self.players@.len() == pre_clear.len(),
                    self.settings == srv_mid.settings,
                    self.inputs == srv_mid.inputs,
                    self.high_scores == srv_mid.high_scores,
                    self.color_picker == srv_mid.color_picker,
                    self.frame_number == srv_mid.frame_number,
                    self.frame_timer == srv_mid.frame_timer,
                    forall|i: int| 0 <= i < m ==> {
                        let r = #[trigger] self.players@[i];
                        r == (PlayerState {
                            player_events: r.player_events,
                            ..pre_clear[i]
                        }) && r.player_events@.len() == 0
                    },
                    forall|i: int| m <= i < pre_clear.len()
                        ==> #[trigger] self.players@[i] == pre_clear[i],
                decreases pre_clear.len() - m,
            {
                let ghost before = self.players@;
                let mut p = self.players.remove(m);
                p.new_frame();
                let ghost p1 = p;
                self.players.insert(m, p);
                proof {
                    assert(self.players@ =~= before.update(m as int, p1));
                    assert forall|a: int, b: int| 0 <= a < b < self.players@.len()
                        implies self.players@[a].id != self.players@[b].id
                            && self.players@[a].name@ != self.players@[b].name@ by {
                        assert(self.players@[a].id == before[a].id
                            && self.players@[b].id == before[b].id
                            && self.players@[a].name@ == before[a].name@
                            && self.players@[b].name@ == before[b].name@);
                    }
                }
                m = m + 1;
            }
            let gs = GameState {
                frame_number: self.frame_number,
                delta,
                game_setting_hash: hash,
                player_states: snap_players,
                high_scores: top,
            };
            self.frame_number = self.frame_number + 1;
            Some(gs)
        } else {
            None
        }
    }
}

/// Exec mirror of [`vel_after_input`].
fn velocity_update(vel: Vector2, inp: &PlayerInput, s: &GameSetting, delta: u64) -> (v: Vector2)
    requires
        s.valid(),
        inp.valid(),
        delta <= DELTA_MAX,
        vel.in_square(s.max_velocity as int),
    ensures
        v == vel_after_input(vel, *inp, *s, delta as int),
        v.in_square(s.max_velocity as int),
{
    let mc = inp.move_amount.clamped_to_normal();
    let msq = mc.magnitude_squared();
    let d = delta as i64;
    proof {
        assert(0 <= s.move_threshold * s.move_threshold <= 1_000_000) by (nonlinear_arith)
            requires 0 <= s.move_threshold <= 1000,
        ;
    }
    let base = if msq > s.move_threshold * s.move_threshold {
        proof {
            assert(mc.x * s.acceleration <= 1000 * 1_000_000
                && mc.x * s.acceleration >= -(1000 * 1_000_000)) by (nonlinear_arith)
                requires -1000 <= mc.x <= 1000, 0 <= s.acceleration <= 1_000_000,
            ;
            assert(mc.y * s.acceleration <= 1000 * 1_000_000
                && mc.y * s.acceleration >= -(1000 * 1_000_000)) by (nonlinear_arith)
                requires -1000 <= mc.y <= 1000, 0 <= s.acceleration <= 1_000_000,
            ;
            assert((mc.x * s.acceleration) * d <= 1_000_000_000 * 4_000_000_000
                && (mc.x * s.acceleration) * d >= -(1_000_000_000 * 4_000_000_000))
                by (nonlinear_arith)
                requires -1_000_000_000 <= mc.x * s.acceleration <= 1_000_000_000,
                    0 <= d <= 4_000_000_000,
            ;
            assert((mc.y * s.acceleration) * d <= 1_000_000_000 * 4_000_000_000
                && (mc.y * s.acceleration) * d >= -(1_000_000_000 * 4_000_000_000))
                by (nonlinear_arith)
                requires -1_000_000_000 <= mc.y * s.acceleration <= 1_000_000_000,
                    0 <= d <= 4_000_000_000,
            ;
            crate::geom::lemma_div_trunc_bound(
                (mc.x * s.acceleration * d) as int,
                1_000_000_000_000,
                4_000_000_000_000_000_000,
            );
            crate::geom::lemma_div_trunc_bound(
                (mc.y * s.acceleration * d) as int,
                1_000_000_000_000,
                4_000_000_000_000_000_000,
            );
        }
        let tx = div_trunc_i64(mc.x * s.acceleration * d, 1_000_000_000_000);
        let ty = div_trunc_i64(mc.y * s.acceleration * d, 1_000_000_000_000);
        Vector2 { x: vel.x + tx, y: vel.y + ty }
    } else {
        proof {
            assert(s.drag * d <= 1_000_000 * 4_000_000_000 && s.drag * d >= 0)
                by (nonlinear_arith)
                requires 0 <= s.drag <= 1_000_000, 0 <= d <= 4_000_000_000,
            ;
        }
        let dd = s.drag * d;
        let f: i64 = if dd >= 1_000_000_000_000 { 0 } else { 1_000_000_000_000 - dd };
        proof {
            assert(vel.x * f <= 1_000_000 * 1_000_000_000_000
                && vel.x * f >= -(1_000_000 * 1_000_000_000_000)) by (nonlinear_arith)
                requires -1_000_000 <= vel.x <= 1_000_000, 0 <= f <= 1_000_000_000_000,
            ;
            assert(vel.y * f <= 1_000_000 * 1_000_000_000_000
                && vel.y * f >= -(1_000_000 * 1_000_000_000_000)) by (nonlinear_arith)
                requires -1_000_000 <= vel.y <= 1_000_000, 0 <= f <= 1_000_000_000_000,
            ;
        }
        proof {
            crate::geom::lemma_div_trunc_bound(
                vel.x as int * f as int,
                1_000_000_000_000,
                1_000_000int * 1_000_000_000_000,
            );
            crate::geom::lemma_div_trunc_bound(
                vel.y as int * f as int,
                1_000_000_000_000,
                1_000_000int * 1_000_000_000_000,
            );
        }
        let nx = div_trunc_i64(vel.x * f, 1_000_000_000_000);
        let ny = div_trunc_i64(vel.y * f, 1_000_000_000_000);
        Vector2 { x: nx, y: ny }
    };
    let cap: i64 = if inp.attack {
        ((s.max_velocity as u64) / 2) as i64
    } else {
        s.max_velocity
    };
    base.clamped_to(cap)
}

/// Exec mirror of [`next_pos`]: where residual velocity carries a player.
fn integrated_position(p: &PlayerState, s: &GameSetting, delta: u64) -> (np: Vector2)
    requires
        s.valid(),
        delta <= DELTA_MAX,
        p.velocity.in_square(s.max_velocity as int),
        p.pos.in_square(UNIT as int),
    ensures
        np == next_pos(*p, delta as int),
        np.in_square((UNIT + 4_000_000) as int),
{
    let d = delta as i64;
    proof {
        assert(p.velocity.x * d <= 1_000_000 * 4_000_000_000
            && p.velocity.x * d >= -(1_000_000 * 4_000_000_000)) by (nonlinear_arith)
            requires -1_000_000 <= p.velocity.x <= 1_000_000, 0 <= d <= 4_000_000_000,
        ;
        assert(p.velocity.y * d <= 1_000_000 * 4_000_000_000
            && p.velocity.y * d >= -(1_000_000 * 4_000_000_000)) by (nonlinear_arith)
            requires -1_000_000 <= p.velocity.y <= 1_000_000, 0 <= d <= 4_000_000_000,
        ;
        crate::geom::lemma_div_trunc_bound(
            (p.velocity.x as int) * (d as int),
            NANOS_PER_SEC as int,
            4_000_000_000_000_000,
        );
        crate::geom::lemma_div_trunc_bound(
            (p.velocity.y as int) * (d as int),
            NANOS_PER_SEC as int,
            4_000_000_000_000_000,
        );
    }
    let dx = div_trunc_i64(p.velocity.x * d, NANOS_PER_SEC);
    let dy = div_trunc_i64(p.velocity.y * d, NANOS_PER_SEC);
    Vector2 { x: p.pos.x + dx, y: p.pos.y + dy }
}

/// Id uniqueness: at every tick boundary no two registered players share an
/// id, and id zero never appears as a registered player id. Every mutating
/// method of [`Server`] preserves `wf`, so this holds for all ticks.
pub proof fn lemma_registry_ids_unique(s: Server)
    requires
        s.wf(),
    ensures
        forall|i: int, j: int| 0 <= i < j < s.players@.len()
            ==> s.players@[i].id != s.players@[j].id,
        forall|i: int| 0 <= i < s.players@.len() ==> (#[trigger] s.players@[i]).id != 0,
{
}

/// Name uniqueness: at every tick boundary no two registered players share
/// a name; a successful join requires the name to differ from every
/// currently registered player's name at the moment of success.
pub proof fn lemma_registry_names_unique(s: Server)
    requires
        s.wf(),
    ensures
        forall|i: int, j: int| 0 <= i < j < s.players@.len()
            ==> s.players@[i].name@ != s.players@[j].name@,
{
}

/// With fewer than 255 registered players (ids distinct), some nonzero id is
/// free: pigeonhole over the 255 candidate values.
proof fn lemma_free_id_exists(ps: Seq<PlayerState>)
    requires
        ids_distinct(ps),
        ps.len() < 255,
    ensures
        exists|v: u8| v != 0 && !has_id(ps, v),
{
    if !(exists|v: u8| v != 0 && !has_id(ps, v)) {
        assert(forall|v: u8| 1 <= v ==> has_id(ps, v));
        let ids = ps.map(|i: int, p: PlayerState| p.id as int);
        assert(ids.no_duplicates()) by {
            assert forall|i: int, j: int|
                0 <= i < ids.len() && 0 <= j < ids.len() && i != j implies ids[i] != ids[j] by {
                assert(ids[i] == ps[i].id as int && ids[j] == ps[j].id as int);
                if i < j {
                    assert(ps[i].id != ps[j].id);
                } else {
                    assert(ps[j].id != ps[i].id);
                }
            }
        }
        ids.unique_seq_to_set();
        seq_to_set_is_finite(ids);
        assert(set_int_range(1, 256).subset_of(ids.to_set())) by {
            assert forall|v: int| set_int_range(1, 256).contains(v)
                implies ids.to_set().contains(v) by {
                let c = v as u8;
                assert(has_id(ps, c));
                let j = choose|j: int| 0 <= j < ps.len() && ps[j].id == c;
                assert(ids[j] == v);
                assert(ids.contains(v));
            }
        }
        lemma_int_range(1, 256);
        lemma_len_subset(set_int_range(1, 256), ids.to_set());
        assert(false);
    }
}

} // verus!
