//! Input intent tracking.
//!
//! The router turns a stream of key press/release events into a per-tick
//! snapshot of held-direction flags.  Raw terminal events are decoded
//! outside the library and handed in as [`InputEvent`] values; unknown
//! events arrive as [`InputEvent::Other`] and are no-ops.

use vstd::prelude::*;

verus! {

/// A direction key the simulation reacts to.
#[derive(Clone, Copy, PartialEq, Eq, Structural, Debug)]
pub enum Key {
    Left,
    Right,
    Up,
    Down,
}

/// A decoded input event.
#[derive(Clone, Copy, PartialEq, Eq, Structural, Debug)]
pub enum InputEvent {
    /// A direction key went down.
    Press(Key),
    /// A direction key went up.
    Release(Key),
    /// The reserved quit key.
    Quit,
    /// Any event the simulation does not react to.
    Other,
}

/// The per-tick snapshot of held-direction flags.
#[derive(Clone, Copy, PartialEq, Eq, Structural, Debug)]
pub struct InputState {
    pub left: bool,
    pub right: bool,
    pub up: bool,
    pub down: bool,
}

impl InputState {
    /// Whether the given key is currently held.
    pub open spec fn holds(self, k: Key) -> bool {
        match k {
            Key::Left => self.left,
            Key::Right => self.right,
            Key::Up => self.up,
            Key::Down => self.down,
        }
    }

    /// The snapshot after a press of `k`.
    pub open spec fn with_key(self, k: Key, v: bool) -> InputState {
        match k {
            Key::Left => InputState { left: v, ..self },
            Key::Right => InputState { right: v, ..self },
            Key::Up => InputState { up: v, ..self },
            Key::Down => InputState { down: v, ..self },
        }
    }

    /// A snapshot with no key held.
    pub fn new() -> (s: InputState)
        ensures
            s == (InputState { left: false, right: false, up: false, down: false }),
    {
        InputState { left: false, right: false, up: false, down: false }
    }

    /// Folds one event into the snapshot.  Returns whether the snapshot
    /// changed the set of held keys: a press of an already-held key is
    /// reported as no change, a release always counts as one.
    pub fn accept(&mut self, event: InputEvent) -> (changed: bool)
        ensures
            match event {
                InputEvent::Press(k) => *final(self) == old(self).with_key(k, true) && changed
                    == !old(self).holds(k),
                InputEvent::Release(k) => *final(self) == old(self).with_key(k, false) && changed,
                _ => *final(self) == *old(self) && !changed,
            },
    {
        match event {
            InputEvent::Press(k) => {
                let was = self.is_pressed(k);
                self.set_key(k, true);
                !was
            },
            InputEvent::Release(k) => {
                self.set_key(k, false);
                true
            },
            _ => false,
        }
    }

    /// Whether the given key is currently held.
    pub fn is_pressed(&self, k: Key) -> (b: bool)
        ensures
            b == self.holds(k),
    {
        match k {
            Key::Left => self.left,
            Key::Right => self.right,
            Key::Up => self.up,
            Key::Down => self.down,
        }
    }

    fn set_key(&mut self, k: Key, v: bool)
        ensures
            *final(self) == old(self).with_key(k, v),
    {
        match k {
            Key::Left => self.left = v,
            Key::Right => self.right = v,
            Key::Up => self.up = v,
            Key::Down => self.down = v,
        }
    }
}

} // verus!
