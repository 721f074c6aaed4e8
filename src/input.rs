//! The state of the eight logical buttons, each an edge-triggered state machine.

use vstd::prelude::*;

verus! {

/// One of the eight logical buttons.
#[derive(Copy, Clone, PartialEq, Eq, Debug, Structural)]
pub enum Button {
    Left,
    Right,
    Up,
    Down,
    A,
    B,
    Start,
    Select,
}

/// The state of one button: `Pressed` for the one frame after it went down,
/// `Held` for every later frame while it stays down, `Up` once released.
#[derive(Copy, Clone, PartialEq, Eq, Debug, Structural)]
pub enum PressedState {
    Up,
    Pressed,
    Held,
}

impl PressedState {
    /// The state one frame later.
    pub open spec fn advanced(self) -> PressedState {
        match self {
            PressedState::Up => PressedState::Up,
            PressedState::Pressed => PressedState::Held,
            PressedState::Held => PressedState::Held,
        }
    }

    /// The state after a key-down event: a held button stays held.
    pub open spec fn after_key_down(self) -> PressedState {
        match self {
            PressedState::Held => PressedState::Held,
            _ => PressedState::Pressed,
        }
    }

    /// The state after a key-up event.
    pub open spec fn after_key_up(self) -> PressedState {
        PressedState::Up
    }

    /// Advance by one frame: `Pressed` becomes `Held`; `Up` and `Held` stay.
    pub fn update(&mut self)
        ensures
            *final(self) == old(self).advanced(),
    {
        *self = match *self {
            PressedState::Up => PressedState::Up,
            PressedState::Pressed => PressedState::Held,
            PressedState::Held => PressedState::Held,
        };
    }

    pub fn key_down(&mut self)
        ensures
            *final(self) == old(self).after_key_down(),
    {
        if *self != PressedState::Held {
            *self = PressedState::Pressed;
        }
    }

    pub fn key_up(&mut self)
        ensures
            *final(self) == old(self).after_key_up(),
    {
        *self = PressedState::Up;
    }
}

/// The state of all eight buttons.
#[derive(Copy, Clone, PartialEq, Eq, Debug, Structural)]
pub struct InputState {
    pub left: PressedState,
    pub right: PressedState,
    pub up: PressedState,
    pub down: PressedState,
    pub a: PressedState,
    pub b: PressedState,
    pub start: PressedState,
    pub select: PressedState,
}

impl InputState {
    /// The state of button `b`.
    pub open spec fn get(self, b: Button) -> PressedState {
        match b {
            Button::Left => self.left,
            Button::Right => self.right,
            Button::Up => self.up,
            Button::Down => self.down,
            Button::A => self.a,
            Button::B => self.b,
            Button::Start => self.start,
            Button::Select => self.select,
        }
    }

    /// Every button is up.
    pub fn new() -> (r: InputState)
        ensures
            forall|b: Button| #[trigger] r.get(b) == PressedState::Up,
    {
        InputState {
            left: PressedState::Up,
            right: PressedState::Up,
            up: PressedState::Up,
            down: PressedState::Up,
            a: PressedState::Up,
            b: PressedState::Up,
            start: PressedState::Up,
            select: PressedState::Up,
        }
    }

    /// Advance every button by one frame.
    pub fn update(&mut self)
        ensures
            forall|b: Button| #[trigger] final(self).get(b) == old(self).get(b).advanced(),
    {
        self.left.update();
        self.right.update();
        self.up.update();
        self.down.update();
        self.a.update();
        self.b.update();
        self.start.update();
        self.select.update();
    }

    fn button_mut(&mut self, button: Button) -> (r: &mut PressedState)
        ensures
            *r == old(self).get(button),
            forall|b: Button| #[trigger]
                final(self).get(b) == if b == button {
                    *final(r)
                } else {
                    old(self).get(b)
                },
    {
        match button {
            Button::Left => &mut self.left,
            Button::Right => &mut self.right,
            Button::Up => &mut self.up,
            Button::Down => &mut self.down,
            Button::A => &mut self.a,
            Button::B => &mut self.b,
            Button::Start => &mut self.start,
            Button::Select => &mut self.select,
        }
    }

    /// A key-down event for `button`.
    pub fn key_down(&mut self, button: Button)
        ensures
            forall|b: Button| #[trigger]
                final(self).get(b) == if b == button {
                    old(self).get(b).after_key_down()
                } else {
                    old(self).get(b)
                },
    {
        self.button_mut(button).key_down();
    }

    /// A key-up event for `button`.
    pub fn key_up(&mut self, button: Button)
        ensures
            forall|b: Button| #[trigger]
                final(self).get(b) == if b == button {
                    old(self).get(b).after_key_up()
                } else {
                    old(self).get(b)
                },
    {
        self.button_mut(button).key_up();
    }
}

/// Each button runs `Up --key down--> Pressed --next frame--> Held --key up--> Up`,
/// and a new frame leaves `Up` and `Held` as they are.
pub proof fn lemma_button_cycle(s: PressedState)
    ensures
        PressedState::Up.after_key_down() == PressedState::Pressed,
        PressedState::Pressed.advanced() == PressedState::Held,
        PressedState::Held.after_key_up() == PressedState::Up,
        s == PressedState::Up || s == PressedState::Held ==> s.advanced() == s,
{
}

} // verus!
