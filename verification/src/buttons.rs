//! Identifiers for mouse buttons, gamepad buttons and gamepad axes.

use vstd::prelude::*;

verus! {

/// Mouse button identifier.
#[derive(Clone, Copy, Debug, PartialEq, Eq, Hash, Structural)]
pub enum MouseButton {
    Left,
    Middle,
    Right,
    /// Extra buttons (4 and above on multi-button mice). The index
    /// starts at `3` for the first extra button, matching the event
    /// source's `mouse_button: u8` numbering.
    Other(u8),
}

impl MouseButton {
    /// The button an event's `mouse_button` index denotes.
    pub open spec fn spec_from_index(idx: u8) -> MouseButton {
        if idx == 0 {
            MouseButton::Left
        } else if idx == 1 {
            MouseButton::Middle
        } else if idx == 2 {
            MouseButton::Right
        } else {
            MouseButton::Other(idx)
        }
    }

    /// Maps an event's `mouse_button` index: `0` left, `1` middle,
    /// `2` right, anything else an extra button carrying its index.
    pub fn from_index(idx: u8) -> (b: MouseButton)
        ensures
            b == Self::spec_from_index(idx),
    {
        match idx {
            0 => MouseButton::Left,
            1 => MouseButton::Middle,
            2 => MouseButton::Right,
            n => MouseButton::Other(n),
        }
    }
}

/// Normalised gamepad button, named by position ("south / east / west /
/// north") so one name serves Xbox, PlayStation and Switch Pro layouts.
#[derive(Clone, Copy, Debug, PartialEq, Eq, Hash, Structural)]
pub enum GamepadButton {
    /// A / Cross / B (Nintendo layout)
    South,
    /// B / Circle / A
    East,
    /// X / Square / Y
    West,
    /// Y / Triangle / X
    North,
    LeftShoulder,
    RightShoulder,
    /// Digital press; the analog value is [`GamepadAxis::LeftTrigger`].
    LeftTrigger,
    RightTrigger,
    /// Back / Share
    Select,
    /// Menu / Options
    Start,
    /// L3, pressing the stick down
    LeftThumb,
    /// R3
    RightThumb,
    DPadUp,
    DPadDown,
    DPadLeft,
    DPadRight,
    /// Xbox / PS home button. Some platforms reserve it.
    Mode,
}

/// Normalised gamepad analog axis. Sticks run `-1.0 ..= 1.0` (up / right
/// positive), triggers `0.0 ..= 1.0`. No deadzone is applied.
#[derive(Clone, Copy, Debug, PartialEq, Eq, Hash, Structural)]
pub enum GamepadAxis {
    LeftStickX,
    LeftStickY,
    RightStickX,
    RightStickY,
    LeftTrigger,
    RightTrigger,
}

impl GamepadAxis {
    /// Position of the axis in a per-pad table of the six axes.
    pub open spec fn spec_slot(self) -> int {
        match self {
            GamepadAxis::LeftStickX => 0,
            GamepadAxis::LeftStickY => 1,
            GamepadAxis::RightStickX => 2,
            GamepadAxis::RightStickY => 3,
            GamepadAxis::LeftTrigger => 4,
            GamepadAxis::RightTrigger => 5,
        }
    }

    pub fn slot(self) -> (i: usize)
        ensures
            i == self.spec_slot(),
            i < 6,
    {
        match self {
            GamepadAxis::LeftStickX => 0,
            GamepadAxis::LeftStickY => 1,
            GamepadAxis::RightStickX => 2,
            GamepadAxis::RightStickY => 3,
            GamepadAxis::LeftTrigger => 4,
            GamepadAxis::RightTrigger => 5,
        }
    }
}

/// The button at index `i` of the W3C "Standard Gamepad" button array.
pub open spec fn spec_web_button(i: u32) -> Option<GamepadButton> {
    if i == 0 {
        Some(GamepadButton::South)
    } else if i == 1 {
        Some(GamepadButton::East)
    } else if i == 2 {
        Some(GamepadButton::West)
    } else if i == 3 {
        Some(GamepadButton::North)
    } else if i == 4 {
        Some(GamepadButton::LeftShoulder)
    } else if i == 5 {
        Some(GamepadButton::RightShoulder)
    } else if i == 6 {
        Some(GamepadButton::LeftTrigger)
    } else if i == 7 {
        Some(GamepadButton::RightTrigger)
    } else if i == 8 {
        Some(GamepadButton::Select)
    } else if i == 9 {
        Some(GamepadButton::Start)
    } else if i == 10 {
        Some(GamepadButton::LeftThumb)
    } else if i == 11 {
        Some(GamepadButton::RightThumb)
    } else if i == 12 {
        Some(GamepadButton::DPadUp)
    } else if i == 13 {
        Some(GamepadButton::DPadDown)
    } else if i == 14 {
        Some(GamepadButton::DPadLeft)
    } else if i == 15 {
        Some(GamepadButton::DPadRight)
    } else if i == 16 {
        Some(GamepadButton::Mode)
    } else {
        None
    }
}

/// Maps a Web Gamepad API button-array index to the normalised button,
/// following the "Standard Gamepad" layout that browsers apply to
/// DualShock / DualSense, Xbox, Switch Pro and generic XInput pads.
/// Indices past `16` have no button.
pub fn map_web_button_index(i: u32) -> (b: Option<GamepadButton>)
    ensures
        b == spec_web_button(i),
{
    match i {
        0 => Some(GamepadButton::South),
        1 => Some(GamepadButton::East),
        2 => Some(GamepadButton::West),
        3 => Some(GamepadButton::North),
        4 => Some(GamepadButton::LeftShoulder),
        5 => Some(GamepadButton::RightShoulder),
        6 => Some(GamepadButton::LeftTrigger),
        7 => Some(GamepadButton::RightTrigger),
        8 => Some(GamepadButton::Select),
        9 => Some(GamepadButton::Start),
        10 => Some(GamepadButton::LeftThumb),
        11 => Some(GamepadButton::RightThumb),
        12 => Some(GamepadButton::DPadUp),
        13 => Some(GamepadButton::DPadDown),
        14 => Some(GamepadButton::DPadLeft),
        15 => Some(GamepadButton::DPadRight),
        16 => Some(GamepadButton::Mode),
        _ => None,
    }
}

} // verus!
