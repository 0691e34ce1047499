use vstd::prelude::*;

use crate::types::InJoyButton;

verus! {

/// Joypad button 1 (the weeder).
pub const JOY_BUTTON_1: i64 = 1;
/// Joypad button 4 (reverse the left side).
pub const JOY_BUTTON_4: i64 = 4;
/// Joypad button 5 (reverse the right side).
pub const JOY_BUTTON_5: i64 = 5;
/// Joypad button 12 (d-pad up).
pub const JOY_BUTTON_12: i64 = 12;
/// Joypad button 13 (d-pad down).
pub const JOY_BUTTON_13: i64 = 13;
/// Joypad button 14 (d-pad left).
pub const JOY_BUTTON_14: i64 = 14;
/// Joypad button 15 (d-pad right).
pub const JOY_BUTTON_15: i64 = 15;

/// Whether the wheels follow the joypad's triggers or the arrow buttons.
#[derive(Debug, Clone, Copy, PartialEq, Eq, Structural)]
pub enum ControlMode {
    Joystick,
    Keyboard,
}

/// What the teleoperation keeps of the joypad's buttons.
#[derive(Debug, Clone, Copy, PartialEq, Eq, Structural)]
pub struct JoyButtons {
    pub control_mode: ControlMode,
    pub left_reversed: bool,
    pub right_reversed: bool,
    pub key_up: bool,
    pub key_right: bool,
    pub key_down: bool,
    pub key_left: bool,
    pub weeder_on: bool,
}

/// The buttons after `event`: any button selects joystick control, the
/// shoulder buttons reverse a side, button 1 runs the weeder while held,
/// and the d-pad selects arrow control and holds its direction.
pub open spec fn after_button(s: JoyButtons, event: InJoyButton) -> JoyButtons {
    let p = event.pressed;
    let b = event.button_index;
    let s = JoyButtons { control_mode: ControlMode::Joystick, ..s };
    if b == JOY_BUTTON_4 {
        JoyButtons { left_reversed: p, ..s }
    } else if b == JOY_BUTTON_5 {
        JoyButtons { right_reversed: p, ..s }
    } else if b == JOY_BUTTON_1 {
        JoyButtons { weeder_on: p, ..s }
    } else if b == JOY_BUTTON_12 {
        JoyButtons { control_mode: ControlMode::Keyboard, key_up: p, ..s }
    } else if b == JOY_BUTTON_13 {
        JoyButtons { control_mode: ControlMode::Keyboard, key_down: p, ..s }
    } else if b == JOY_BUTTON_14 {
        JoyButtons { control_mode: ControlMode::Keyboard, key_left: p, ..s }
    } else if b == JOY_BUTTON_15 {
        JoyButtons { control_mode: ControlMode::Keyboard, key_right: p, ..s }
    } else {
        s
    }
}

/// `b` as a count: 1 when set, 0 otherwise.
pub open spec fn held(b: bool) -> int {
    if b {
        1
    } else {
        0
    }
}

/// `v` held to the range -1 to 1.
pub open spec fn clamp_unit(v: int) -> int {
    if v < -1 {
        -1
    } else if v > 1 {
        1
    } else {
        v
    }
}

impl JoyButtons {
    /// Nothing pressed, joystick control.
    pub fn new() -> (r: Self)
        ensures
            r == (JoyButtons {
                control_mode: ControlMode::Joystick,
                left_reversed: false,
                right_reversed: false,
                key_up: false,
                key_right: false,
                key_down: false,
                key_left: false,
                weeder_on: false,
            }),
    {
        JoyButtons {
            control_mode: ControlMode::Joystick,
            left_reversed: false,
            right_reversed: false,
            key_up: false,
            key_right: false,
            key_down: false,
            key_left: false,
            weeder_on: false,
        }
    }

    /// Takes in a button press or release.
    pub fn on_button(&mut self, event: InJoyButton)
        ensures
            *final(self) == after_button(*old(self), event),
    {
        self.control_mode = ControlMode::Joystick;
        let p = event.pressed;
        let b = event.button_index;
        if b == JOY_BUTTON_4 {
            self.left_reversed = p;
        } else if b == JOY_BUTTON_5 {
            self.right_reversed = p;
        } else if b == JOY_BUTTON_1 {
            self.weeder_on = p;
        } else if b == JOY_BUTTON_12 || b == JOY_BUTTON_13 || b == JOY_BUTTON_14 || b
            == JOY_BUTTON_15 {
            self.control_mode = ControlMode::Keyboard;
            if b == JOY_BUTTON_12 {
                self.key_up = p;
            } else if b == JOY_BUTTON_15 {
                self.key_right = p;
            } else if b == JOY_BUTTON_13 {
                self.key_down = p;
            } else {
                self.key_left = p;
            }
        }
    }

    /// Takes in a movement of a joypad axis: the triggers drive the wheels
    /// directly, so joystick control is selected.
    pub fn on_motion(&mut self)
        ensures
            *final(self) == (JoyButtons { control_mode: ControlMode::Joystick, ..*old(self) }),
    {
        self.control_mode = ControlMode::Joystick;
    }

    /// The direction of each side under arrow control, in units of the
    /// keyboard speed: up drives both sides forward, down both back, left
    /// turns left (left side back, right side forward), right turns right;
    /// the pressed arrows add up, and each side is held to one unit either
    /// way.
    pub fn keyboard_direction(&self) -> (r: (i8, i8))
        ensures
            r.0 == clamp_unit(
                held(self.key_up) - held(self.key_down) - held(self.key_left) + held(
                    self.key_right,
                ),
            ),
            r.1 == clamp_unit(
                held(self.key_up) - held(self.key_down) + held(self.key_left) - held(
                    self.key_right,
                ),
            ),
    {
        let mut left: i8 = 0;
        let mut right: i8 = 0;
        if self.key_up {
            left = left + 1;
            right = right + 1;
        }
        if self.key_down {
            left = left - 1;
            right = right - 1;
        }
        if self.key_left {
            left = left - 1;
            right = right + 1;
        }
        if self.key_right {
            left = left + 1;
            right = right - 1;
        }
        let left = if left < -1 {
            -1
        } else if left > 1 {
            1
        } else {
            left
        };
        let right = if right < -1 {
            -1
        } else if right > 1 {
            1
        } else {
            right
        };
        (left, right)
    }
}

/// Each button drives only its own setting: the right shoulder button
/// (5) reverses the right side, the left one (4) the left side, button 1
/// runs the weeder, and the d-pad buttons 12, 13, 14 and 15 hold up, down,
/// left and right. Any button press or release selects joystick control,
/// except a d-pad button, which selects arrow control; nothing else
/// changes.
pub proof fn law_each_button_sets_its_own_setting(s: JoyButtons, pressed: bool)
    ensures
        after_button(s, InJoyButton { button_index: 5, pressed }) == (JoyButtons {
            control_mode: ControlMode::Joystick,
            right_reversed: pressed,
            ..s
        }),
        after_button(s, InJoyButton { button_index: 4, pressed }) == (JoyButtons {
            control_mode: ControlMode::Joystick,
            left_reversed: pressed,
            ..s
        }),
        after_button(s, InJoyButton { button_index: 1, pressed }) == (JoyButtons {
            control_mode: ControlMode::Joystick,
            weeder_on: pressed,
            ..s
        }),
        after_button(s, InJoyButton { button_index: 12, pressed }) == (JoyButtons {
            control_mode: ControlMode::Keyboard,
            key_up: pressed,
            ..s
        }),
        after_button(s, InJoyButton { button_index: 13, pressed }) == (JoyButtons {
            control_mode: ControlMode::Keyboard,
            key_down: pressed,
            ..s
        }),
        after_button(s, InJoyButton { button_index: 14, pressed }) == (JoyButtons {
            control_mode: ControlMode::Keyboard,
            key_left: pressed,
            ..s
        }),
        after_button(s, InJoyButton { button_index: 15, pressed }) == (JoyButtons {
            control_mode: ControlMode::Keyboard,
            key_right: pressed,
            ..s
        }),
        forall|b: i64|
            !(b == 1 || b == 4 || b == 5 || b == 12 || b == 13 || b == 14 || b == 15)
                ==> #[trigger] after_button(s, InJoyButton { button_index: b, pressed }) == (
            JoyButtons { control_mode: ControlMode::Joystick, ..s }),
{
}

} // verus!
