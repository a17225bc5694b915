use vstd::prelude::*;

verus! {

/// Which of the two mouse buttons an event or an action concerns.
#[derive(Clone, Copy, Debug, PartialEq, Eq, Structural)]
pub enum Button {
    Left,
    Right,
}

/// A physical press as the hook thread reports it: the channel it arrived
/// on, the button to amplify, and a monotonic timestamp in milliseconds.
#[derive(Clone, Copy, Debug, PartialEq, Eq, Structural)]
pub enum Click {
    LeftClick(Button, u128),
    RightClick(Button, u128),
}

/// One planned step of a burst: inject a click, or pause for the given
/// number of nanoseconds.
#[derive(Clone, Copy, Debug, PartialEq, Eq, Structural)]
pub enum Action {
    Click(Button),
    Delay(u32),
}

impl Click {
    /// The channel the event arrived on, naming the history it belongs to.
    pub open spec fn channel(self) -> Button {
        match self {
            Click::LeftClick(_, _) => Button::Left,
            Click::RightClick(_, _) => Button::Right,
        }
    }

    /// The button the event carries; a burst injects this button.
    pub open spec fn payload(self) -> Button {
        match self {
            Click::LeftClick(b, _) => b,
            Click::RightClick(b, _) => b,
        }
    }

    /// The event's timestamp in milliseconds.
    pub open spec fn time(self) -> u128 {
        match self {
            Click::LeftClick(_, t) => t,
            Click::RightClick(_, t) => t,
        }
    }
}

} // verus!
