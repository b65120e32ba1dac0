//! Which movement keys are held, and the facing that follows from them.

use vstd::prelude::*;
use crate::direction::Direction;

verus! {

/// The four movement keys, by the direction each one moves in.
#[derive(Clone, Copy, Debug, PartialEq, Eq, Structural)]
pub enum MoveKey {
    Up,
    Down,
    Left,
    Right,
}

/// The movement keys that are held, and whether the set of held keys has
/// changed since the facing was last worked out.
#[derive(Clone, Copy, Debug, PartialEq, Eq, Structural)]
pub struct InputState {
    pub w_pressed: bool,
    pub s_pressed: bool,
    pub a_pressed: bool,
    pub d_pressed: bool,
    pub update_last_move: bool,
}

/// The facing and the start of the motion, as the held keys leave them.
#[derive(Clone, Copy, Debug, PartialEq, Eq, Structural)]
pub struct Facing {
    pub dir: Direction,
    pub last_move_start: Option<u32>,
}

impl InputState {
    /// No key held, nothing to work out.
    pub fn new() -> (input: InputState)
        ensures
            input == (InputState {
                w_pressed: false,
                s_pressed: false,
                a_pressed: false,
                d_pressed: false,
                update_last_move: false,
            }),
    {
        InputState {
            w_pressed: false,
            s_pressed: false,
            a_pressed: false,
            d_pressed: false,
            update_last_move: false,
        }
    }

    /// Whether `key` is held.
    pub open spec fn held_spec(&self, key: MoveKey) -> bool {
        match key {
            MoveKey::Up => self.w_pressed,
            MoveKey::Down => self.s_pressed,
            MoveKey::Left => self.a_pressed,
            MoveKey::Right => self.d_pressed,
        }
    }

    /// Tests whether `key` is held.
    #[verifier::when_used_as_spec(held_spec)]
    pub fn held(&self, key: MoveKey) -> (held: bool)
        ensures
            held == self.held_spec(key),
    {
        match key {
            MoveKey::Up => self.w_pressed,
            MoveKey::Down => self.s_pressed,
            MoveKey::Left => self.a_pressed,
            MoveKey::Right => self.d_pressed,
        }
    }

    /// Whether any movement key is held.
    pub open spec fn any_held_spec(&self) -> bool {
        self.a_pressed || self.d_pressed || self.s_pressed || self.w_pressed
    }

    /// Tests whether any movement key is held.
    #[verifier::when_used_as_spec(any_held_spec)]
    pub fn any_held(&self) -> (any: bool)
        ensures
            any == self.any_held_spec(),
    {
        self.a_pressed || self.d_pressed || self.s_pressed || self.w_pressed
    }

    /// The state with `key` held or not, the other keys as they were, and the
    /// given mark.
    pub open spec fn with_key(self, key: MoveKey, held: bool, update_last_move: bool) -> InputState {
        InputState {
            w_pressed: if key == MoveKey::Up {
                held
            } else {
                self.w_pressed
            },
            s_pressed: if key == MoveKey::Down {
                held
            } else {
                self.s_pressed
            },
            a_pressed: if key == MoveKey::Left {
                held
            } else {
                self.a_pressed
            },
            d_pressed: if key == MoveKey::Right {
                held
            } else {
                self.d_pressed
            },
            update_last_move,
        }
    }

    fn set(&mut self, key: MoveKey, held: bool)
        ensures
            *final(self) == old(self).with_key(key, held, old(self).update_last_move),
    {
        match key {
            MoveKey::Up => {
                self.w_pressed = held;
            },
            MoveKey::Down => {
                self.s_pressed = held;
            },
            MoveKey::Left => {
                self.a_pressed = held;
            },
            MoveKey::Right => {
                self.d_pressed = held;
            },
        }
    }

    /// Takes note that `key` went down. If it was not held before, the facing
    /// has to be worked out anew; a repeat of a key already held changes
    /// nothing.
    pub fn key_pressed(&mut self, key: MoveKey)
        ensures
            *final(self) == old(self).with_key(
                key,
                true,
                old(self).update_last_move || !old(self).held_spec(key),
            ),
    {
        if !self.held(key) {
            self.update_last_move = true;
        }
        self.set(key, true);
    }

    /// Takes note that `key` went up. If it was held before, the facing has
    /// to be worked out anew.
    pub fn key_released(&mut self, key: MoveKey)
        ensures
            *final(self) == old(self).with_key(
                key,
                false,
                old(self).update_last_move || old(self).held_spec(key),
            ),
    {
        if self.held(key) {
            self.update_last_move = true;
        }
        self.set(key, false);
    }

    /// The direction to face: that of the held key that comes last in the
    /// order Up, Down, Left, Right, or `current` if no key is held.
    pub open spec fn facing_spec(&self, current: Direction) -> Direction {
        if self.d_pressed {
            Direction::Right
        } else if self.a_pressed {
            Direction::Left
        } else if self.s_pressed {
            Direction::Down
        } else if self.w_pressed {
            Direction::Up
        } else {
            current
        }
    }

    /// Works the facing out key by key in the order Up, Down, Left, Right,
    /// each held key overruling those before it.
    #[verifier::when_used_as_spec(facing_spec)]
    pub fn facing(&self, current: Direction) -> (dir: Direction)
        ensures
            dir == self.facing_spec(current),
    {
        let mut dir = current;
        if self.w_pressed {
            dir = Direction::Up;
        }
        if self.s_pressed {
            dir = Direction::Down;
        }
        if self.a_pressed {
            dir = Direction::Left;
        }
        if self.d_pressed {
            dir = Direction::Right;
        }
        dir
    }

    /// What becomes of a facing at `ticks`: untouched unless the held keys
    /// have changed; then, with a key held, turned to face the way the keys
    /// say, its motion starting now; with none held, at rest as it faces.
    pub open spec fn refreshed(&self, facing: Facing, ticks: u32) -> Facing {
        if !self.update_last_move {
            facing
        } else if self.any_held_spec() {
            Facing { dir: self.facing_spec(facing.dir), last_move_start: Some(ticks) }
        } else {
            Facing { dir: facing.dir, last_move_start: None }
        }
    }

    /// Works out the facing anew if the held keys have changed since it was
    /// last worked out, and clears the mark.
    pub fn refresh_facing(&mut self, facing: Facing, ticks: u32) -> (now: Facing)
        ensures
            now == old(self).refreshed(facing, ticks),
            *final(self) == (InputState { update_last_move: false, ..*old(self) }),
    {
        if !self.update_last_move {
            return facing;
        }
        self.update_last_move = false;
        if self.any_held() {
            Facing { dir: self.facing(facing.dir), last_move_start: Some(ticks) }
        } else {
            Facing { dir: facing.dir, last_move_start: None }
        }
    }

    /// The displacement on each axis for `elapsed_micros` of walking: `step`
    /// towards the key held on that axis, Left and Up winning over their
    /// opposites, and none where no key of the axis is held.
    pub open spec fn deltas_spec(&self, elapsed_micros: u32) -> (i64, i64) {
        let step = elapsed_micros * crate::player::SPEED;
        (
            if self.a_pressed {
                (-step) as i64
            } else if self.d_pressed {
                step as i64
            } else {
                0
            },
            if self.w_pressed {
                (-step) as i64
            } else if self.s_pressed {
                step as i64
            } else {
                0
            },
        )
    }

    /// Works out the displacement on each axis.
    #[verifier::when_used_as_spec(deltas_spec)]
    pub fn deltas(&self, elapsed_micros: u32) -> (delta: (i64, i64))
        ensures
            delta == self.deltas_spec(elapsed_micros),
    {
        let step: i64 = elapsed_micros as i64 * crate::player::SPEED;
        let delta_x = if self.a_pressed {
            -step
        } else if self.d_pressed {
            step
        } else {
            0
        };
        let delta_y = if self.w_pressed {
            -step
        } else if self.s_pressed {
            step
        } else {
            0
        };
        (delta_x, delta_y)
    }
}

/// Of the keys held, the last in the order Up, Down, Left, Right decides the
/// facing: Right whenever it is held, Left if Right is not, Down if neither
/// is, and Up only when held alone.
pub proof fn lemma_last_evaluated_key_wins(input: InputState, current: Direction)
    ensures
        input.d_pressed ==> input.facing_spec(current) == Direction::Right,
        input.a_pressed && !input.d_pressed ==> input.facing_spec(current) == Direction::Left,
        input.s_pressed && !input.a_pressed && !input.d_pressed ==> input.facing_spec(current)
            == Direction::Down,
        input.w_pressed && !input.s_pressed && !input.a_pressed && !input.d_pressed
            ==> input.facing_spec(current) == Direction::Up,
        !input.any_held_spec() ==> input.facing_spec(current) == current,
{
}

/// Releasing and pressing again, first Up and then Right, while both were
/// held leaves both held and the facing Right, whatever it was.
pub proof fn lemma_repress_up_then_right_faces_right(input: InputState, facing: Facing, ticks: u32)
    requires
        input.w_pressed,
        input.d_pressed,
    ensures
        ({
            let after = input.with_key(MoveKey::Up, false, true).with_key(
                MoveKey::Up,
                true,
                true,
            ).with_key(MoveKey::Right, false, true).with_key(MoveKey::Right, true, true);
            &&& after.w_pressed && after.d_pressed
            &&& after.refreshed(facing, ticks) == (Facing {
                dir: Direction::Right,
                last_move_start: Some(ticks),
            })
        }),
{
}

/// Only a change of the held keys asks for the facing to be worked out anew:
/// a press of a held key and a release of a key not held leave the state as
/// it was.
pub proof fn lemma_only_edges_mark(input: InputState, key: MoveKey)
    ensures
        input.held_spec(key) ==> input.with_key(
            key,
            true,
            input.update_last_move || !input.held_spec(key),
        ) == input,
        !input.held_spec(key) ==> input.with_key(
            key,
            false,
            input.update_last_move || input.held_spec(key),
        ) == input,
{
}

/// When the last key is let go the player comes to rest facing as it did.
pub proof fn lemma_release_of_last_key_stops(input: InputState, facing: Facing, ticks: u32)
    requires
        input.update_last_move,
        !input.any_held_spec(),
    ensures
        input.refreshed(facing, ticks) == (Facing { dir: facing.dir, last_move_start: None }),
{
}

} // verus!
