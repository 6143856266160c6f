//! Per-player server-side state: identity, physics, combat, and the
//! bookkeeping timers that drive respawn and idle eviction.

use vstd::prelude::*;

verus! {

use crate::geom::Vector2;
use crate::palette::Color;
use crate::settings::GameSetting;
use crate::timer::{Timer, NANOS_PER_MILLI};

/// Health a player spawns with.
pub const STARTING_HEALTH: i64 = 100;

/// Milliseconds a freshly joined player waits for the first spawn; shorter
/// than the configured respawn delay so joining feels quick.
pub const INITIAL_RESPAWN_MS: u64 = 1000;

/// Something that happened to a player this tick. A snapshot carries each
/// event exactly once; the server clears the lists after broadcasting.
#[derive(Copy, Clone, Debug, PartialEq, Eq, Structural)]
pub enum PlayerEvent {
    /// The player attacked and hit the player with this id.
    AttackHit { id: u8 },
    /// The player attacked but hit no one.
    AttackMiss,
    /// The player changed weapons.
    ChangeWeapon,
    /// The player died.
    Die,
    /// The player stopped healing.
    HealEnd,
    /// The player started healing.
    HealStart,
    /// The player stopped moving.
    MoveEnd,
    /// The player started moving.
    MoveStart,
    /// The player spawned.
    Spawn,
    /// The player received damage.
    TookDamage,
    /// The player joined the game.
    Join,
    /// The player left the game.
    Leave,
}

/// A weapon a player holds.
#[derive(Clone, Debug)]
pub struct Weapon {
    /// A display name, such as "Rusty Sword".
    pub description: String,
    /// Health points removed per hit.
    pub damage: i64,
    /// Cooldown between attacks.
    pub attack_timer: Timer,
    /// How far attacks reach beyond the attacker's own radius, milli-units.
    pub radius: i64,
}

impl Weapon {
    /// The starter weapon everyone holds.
    pub fn new() -> (w: Weapon)
        ensures
            w.description@ == "Rusty Sword"@,
            w.damage == 17,
            w.radius == 100,
            w.attack_timer.time == 500 * NANOS_PER_MILLI,
            w.attack_timer.time_left == w.attack_timer.time,
            !w.attack_timer.ready,
    {
        Weapon {
            description: String::from_str("Rusty Sword"),
            damage: 17,
            radius: 100,
            attack_timer: Timer::from_millis(500),
        }
    }

    /// An equal copy.
    pub fn duplicate(&self) -> (w: Weapon)
        ensures
            w == *self,
    {
        Weapon {
            description: self.description.clone(),
            damage: self.damage,
            attack_timer: self.attack_timer,
            radius: self.radius,
        }
    }
}

/// The state of one registered player. The server creates these on join,
/// mutates them every tick, and broadcasts them in each snapshot.
#[derive(Clone, Debug)]
pub struct PlayerState {
    /// The player's id; never 0, unique while connected.
    pub id: u8,
    /// The player's display name; unique among connected players.
    pub name: String,
    /// The color assigned from the palette; reclaimed on disconnect.
    pub color: Color,
    /// Position in milli-units; the arena spans [-1000, 1000] on each axis.
    pub pos: Vector2,
    /// Facing in milli-radians, set instantly from input.
    pub direction: i64,
    /// The player's collision radius in milli-units.
    pub radius: i64,
    /// Velocity in milli-units per second, integrated from input.
    pub velocity: Vector2,
    /// Current health; can go negative transiently before death is processed.
    pub health: i64,
    /// Health restored on respawn.
    pub starting_health: i64,
    /// The current weapon.
    pub weapon: Weapon,
    /// Events that happened to this player this tick; cleared after each
    /// broadcast.
    pub player_events: Vec<PlayerEvent>,
    /// Resets whenever input arrives from this player; firing means forced
    /// disconnect.
    pub drop_timer: Timer,
    /// Started on death; firing while dead makes the player eligible to
    /// respawn.
    pub respawn_timer: Timer,
    /// The authoritative aliveness flag, decoupled from the sign of health.
    pub dead: bool,
}

impl PlayerState {
    /// A freshly joined player: dead, primed for a quick first spawn.
    pub fn new(
        game_setting: &GameSetting,
        id: u8,
        name: String,
        color: Color,
        pos: Vector2,
        radius: i64,
    ) -> (p: PlayerState)
        ensures
            p.id == id,
            p.name == name,
            p.color == color,
            p.pos == pos,
            p.direction == 0,
            p.radius == radius,
            p.velocity == (Vector2 { x: 0i64, y: 0i64 }),
            p.health == STARTING_HEALTH,
            p.starting_health == STARTING_HEALTH,
            p.weapon.description@ == "Rusty Sword"@,
            p.weapon.damage == 17 && p.weapon.radius == 100,
            p.weapon.attack_timer.time == 500 * NANOS_PER_MILLI,
            p.weapon.attack_timer.time_left == p.weapon.attack_timer.time,
            !p.weapon.attack_timer.ready,
            p.player_events@.len() == 0,
            p.drop_timer.time == game_setting.drop_delay as u128 * NANOS_PER_MILLI,
            p.drop_timer.time_left == p.drop_timer.time,
            !p.drop_timer.ready,
            p.respawn_timer.time == game_setting.respawn_delay as u128 * NANOS_PER_MILLI,
            p.respawn_timer.time_left == INITIAL_RESPAWN_MS as u128 * NANOS_PER_MILLI,
            !p.respawn_timer.ready,
            p.dead,
    {
        let mut respawn_timer = Timer::from_millis(game_setting.respawn_delay);
        // Spawn more quickly on initial connect.
        respawn_timer.set_millis_transient(INITIAL_RESPAWN_MS);
        PlayerState {
            id,
            name,
            color,
            pos,
            direction: 0,
            radius,
            velocity: Vector2::new(),
            health: STARTING_HEALTH,
            starting_health: STARTING_HEALTH,
            weapon: Weapon::new(),
            player_events: Vec::new(),
            drop_timer: Timer::from_millis(game_setting.drop_delay),
            respawn_timer,
            dead: true,
        }
    }

    /// What one tick of timer advancement leaves behind.
    pub open spec fn timers_advanced(self, delta: u128) -> PlayerState {
        PlayerState {
            weapon: Weapon { attack_timer: self.weapon.attack_timer.advanced(delta), ..self.weapon },
            drop_timer: self.drop_timer.advanced(delta),
            respawn_timer: self.respawn_timer.advanced(delta),
            ..self
        }
    }

    /// Advance the weapon cooldown, idle-drop and respawn timers by `delta`
    /// nanoseconds.
    pub fn update(&mut self, delta: u64)
        ensures
            *final(self) == old(self).timers_advanced(delta as u128),
    {
        self.weapon.attack_timer.update(delta);
        self.drop_timer.update(delta);
        self.respawn_timer.update(delta);
    }

    /// Clear the transient event list at the start of a new broadcast frame.
    pub fn new_frame(&mut self)
        ensures
            *final(self) == (PlayerState { player_events: final(self).player_events, ..*old(self) }),
            final(self).player_events@.len() == 0,
    {
        self.player_events.clear();
    }

    /// Kill this player: used for both boundary deaths and deaths from
    /// damage.
    pub fn die(&mut self)
        ensures
            is_died(*old(self), *final(self)),
    {
        self.health = -1;
        self.respawn_timer.reset();
        self.player_events.push(PlayerEvent::Die);
        self.dead = true;
    }

    /// Bring this player back to life at `pos`.
    pub fn respawn(&mut self, pos: Vector2)
        ensures
            is_respawned(*old(self), *final(self), pos),
    {
        self.pos = pos;
        self.health = self.starting_health;
        self.player_events.push(PlayerEvent::Spawn);
        self.dead = false;
    }

    /// A copy equal to this player field by field.
    pub fn duplicate(&self) -> (p: PlayerState)
        ensures
            p.id == self.id,
            p.name == self.name,
            p.color == self.color,
            p.pos == self.pos,
            p.direction == self.direction,
            p.radius == self.radius,
            p.velocity == self.velocity,
            p.health == self.health,
            p.starting_health == self.starting_health,
            p.weapon == self.weapon,
            p.player_events@ == self.player_events@,
            p.drop_timer == self.drop_timer,
            p.respawn_timer == self.respawn_timer,
            p.dead == self.dead,
    {
        PlayerState {
            id: self.id,
            name: self.name.clone(),
            color: self.color,
            pos: self.pos,
            direction: self.direction,
            radius: self.radius,
            velocity: self.velocity,
            health: self.health,
            starting_health: self.starting_health,
            weapon: self.weapon.duplicate(),
            player_events: copy_events(&self.player_events),
            drop_timer: self.drop_timer,
            respawn_timer: self.respawn_timer,
            dead: self.dead,
        }
    }
}

/// `b` is `a` just after dying: sentinel negative health, the respawn timer
/// restarted, a `Die` event appended, the dead flag set, all else unchanged.
pub open spec fn is_died(a: PlayerState, b: PlayerState) -> bool {
    &&& b == (PlayerState {
        health: -1i64,
        respawn_timer: (Timer {
            time_left: a.respawn_timer.time,
            ready: false,
            ..a.respawn_timer
        }),
        player_events: b.player_events,
        dead: true,
        ..a
    })
    &&& b.player_events@ == a.player_events@.push(PlayerEvent::Die)
}

/// `b` is `a` just after respawning at `pos`: full health, alive, a `Spawn`
/// event appended, all else (including residual velocity) unchanged.
pub open spec fn is_respawned(a: PlayerState, b: PlayerState, pos: Vector2) -> bool {
    &&& b == (PlayerState {
        pos,
        health: a.starting_health,
        player_events: b.player_events,
        dead: false,
        ..a
    })
    &&& b.player_events@ == a.player_events@.push(PlayerEvent::Spawn)
}

/// An element-for-element copy of an event list.
fn copy_events(v: &Vec<PlayerEvent>) -> (r: Vec<PlayerEvent>)
    ensures
        r@ == v@,
{
    let mut r: Vec<PlayerEvent> = Vec::new();
    let mut i: usize = 0;
    while i < v.len()
        invariant
            i <= v@.len(),
            r@ == v@.take(i as int),
        decreases v@.len() - i,
    {
        r.push(v[i]);
        proof {
            assert(r@ =~= v@.take(i + 1));
        }
        i = i + 1;
    }
    proof {
        assert(v@.take(v@.len() as int) =~= v@);
    }
    r
}

} // verus!
