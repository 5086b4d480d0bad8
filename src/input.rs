use vstd::prelude::*;

verus! {

/// The three logical buttons a player can hold.
#[derive(Clone, Copy, Debug, PartialEq, Eq, Structural)]
pub enum Button {
    Left,
    Right,
    Jump,
}

/// A raw button signal: the key went down or came up.
#[derive(Clone, Copy, Debug, PartialEq, Eq, Structural)]
pub enum Edge {
    Press,
    Release,
}

/// One logical transition of one button.
#[derive(Clone, Copy, Debug, PartialEq, Eq, Structural)]
pub struct KeyEvent {
    pub button: Button,
    pub edge: Edge,
}

/// Which buttons are currently held.
#[derive(Clone, Copy, Debug, PartialEq, Eq, Structural)]
pub struct KeyState {
    pub left: bool,
    pub right: bool,
    pub jump: bool,
}

impl KeyState {
    /// The flag that belongs to `b`.
    pub open spec fn held(self, b: Button) -> bool {
        match b {
            Button::Left => self.left,
            Button::Right => self.right,
            Button::Jump => self.jump,
        }
    }

    /// The state with the flag of `b` set to `v` and the others kept.
    pub open spec fn with(self, b: Button, v: bool) -> KeyState {
        match b {
            Button::Left => KeyState { left: v, ..self },
            Button::Right => KeyState { right: v, ..self },
            Button::Jump => KeyState { jump: v, ..self },
        }
    }

    /// The state after an event: a press holds the button, a release lets it go.
    pub open spec fn after(self, ev: KeyEvent) -> KeyState {
        self.with(ev.button, ev.edge == Edge::Press)
    }

    /// No button held.
    pub open spec fn none_spec() -> KeyState {
        KeyState { left: false, right: false, jump: false }
    }

    /// No button held.
    pub fn none() -> (r: KeyState)
        ensures
            r == KeyState::none_spec(),
    {
        KeyState { left: false, right: false, jump: false }
    }

    /// Whether `b` is held.
    pub fn is_held(&self, b: Button) -> (r: bool)
        ensures
            r == self.held(b),
    {
        match b {
            Button::Left => self.left,
            Button::Right => self.right,
            Button::Jump => self.jump,
        }
    }

    /// Records an event: a press holds the button, a release lets it go.
    pub fn apply(&mut self, ev: KeyEvent)
        ensures
            *final(self) == old(self).after(ev),
    {
        let v = match ev.edge {
            Edge::Press => true,
            Edge::Release => false,
        };
        match ev.button {
            Button::Left => self.left = v,
            Button::Right => self.right = v,
            Button::Jump => self.jump = v,
        }
    }
}

/// Turns raw press and release signals, which the operating system repeats,
/// into single logical edges.
pub struct InputTracker {
    pub keys: KeyState,
}

impl InputTracker {
    /// A tracker with no button held.
    pub fn new() -> (r: InputTracker)
        ensures
            r.keys == KeyState::none_spec(),
    {
        InputTracker { keys: KeyState::none() }
    }

    /// Feeds one raw signal. A press of a button that is not held, or a
    /// release of one that is, changes the state and is returned as a
    /// transition; any other signal is a repeat and changes nothing.
    pub fn on_event(&mut self, button: Button, edge: Edge) -> (r: Option<KeyEvent>)
        ensures
            old(self).keys.held(button) != (edge == Edge::Press) ==> (
                r == Some(KeyEvent { button, edge })
                && final(self).keys == old(self).keys.after(KeyEvent { button, edge })
            ),
            old(self).keys.held(button) == (edge == Edge::Press) ==> (
                r.is_none() && final(self).keys == old(self).keys
            ),
    {
        let pressed = match edge {
            Edge::Press => true,
            Edge::Release => false,
        };
        if self.keys.is_held(button) == pressed {
            None
        } else {
            let ev = KeyEvent { button, edge };
            self.keys.apply(ev);
            Some(ev)
        }
    }

    /// The buttons held now.
    pub fn snapshot(&self) -> (r: KeyState)
        ensures
            r == self.keys,
    {
        self.keys
    }
}

} // verus!
