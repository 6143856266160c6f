//! Player input as the server receives and coalesces it.
//!
//! Clients send input samples often; the server merges every sample received
//! within one tick into a single effective input per player id. Attack
//! requests stick across the merge (a tap is never lost), while movement and
//! facing take the most recent sample.

use vstd::prelude::*;

verus! {

use crate::geom::{Vector2, COORD_BOUND};

/// Abstracted button values a client may report (arrow keys and letter keys
/// combined into directions, for example).
#[derive(Copy, Clone, Debug, PartialEq, Eq, Structural)]
pub enum ButtonValue {
    /// Any button meaning "up".
    Up,
    /// Any button meaning "down".
    Down,
    /// Any button meaning "left".
    Left,
    /// Any button meaning "right".
    Right,
    /// Any button meaning "attack".
    Attack,
    /// Any button meaning "quit".
    Quit,
}

/// Whether a button was pressed or released.
#[derive(Copy, Clone, Debug, PartialEq, Eq, Structural)]
pub enum ButtonState {
    /// The button was just pressed.
    Pressed,
    /// The button was just released.
    Released,
}

/// One player's effective input: ephemeral, supplied by a client, coalesced
/// server-side per tick per player id. Movement is in milli-units (clamped
/// to unit magnitude before use); facing is in milli-radians.
#[derive(Copy, Clone, Debug, PartialEq, Eq, Structural)]
pub struct PlayerInput {
    /// The id of the player this input drives.
    pub id: u8,
    /// Whether the player is attempting to attack. Sticky across coalescing;
    /// cleared by the simulation when the attempt is consumed.
    pub attack: bool,
    /// How much the player is trying to move, componentwise in [-1000, 1000]
    /// once clamped; the simulation clamps it to unit magnitude.
    pub move_amount: Vector2,
    /// The direction the player faces, in milli-radians; applied instantly.
    pub direction: i64,
}

/// The result of merging an accumulated input `a` with a newer sample `b`:
/// any attack sticks, movement and facing take the newer sample.
pub open spec fn coalesced(a: PlayerInput, b: PlayerInput) -> PlayerInput {
    PlayerInput {
        id: a.id,
        attack: a.attack || b.attack,
        move_amount: b.move_amount,
        direction: b.direction,
    }
}

impl PlayerInput {
    /// Componentwise bound under which the simulation's fixed-point
    /// arithmetic cannot overflow; the server ignores wilder samples as
    /// malformed.
    pub open spec fn valid(self) -> bool {
        self.move_amount.in_square(COORD_BOUND as int)
    }

    /// A neutral input: no player, no attack, no movement.
    pub fn new() -> (inp: PlayerInput)
        ensures
            inp == (PlayerInput {
                id: 0u8,
                attack: false,
                move_amount: Vector2 { x: 0i64, y: 0i64 },
                direction: 0i64,
            }),
    {
        PlayerInput { id: 0, attack: false, move_amount: Vector2::new(), direction: 0 }
    }

    /// Merge a newer sample into this accumulated input.
    pub fn coalesce(&mut self, new: PlayerInput)
        ensures
            *final(self) == coalesced(*old(self), new),
    {
        // Any attack sticks.
        self.attack = self.attack || new.attack;
        // Anything else, the newer sample wins.
        self.move_amount = new.move_amount;
        self.direction = new.direction;
    }
}

} // verus!
