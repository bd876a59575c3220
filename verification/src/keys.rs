//! Key identities.
//!
//! Keyboard keys are identified by their HID usage id (`u8`); the constants
//! below name the letter block used by the default layout.

use vstd::prelude::*;

verus! {

/// Usage ids of the letter keys.
pub const KC_A: u8 = 0x04;

pub const KC_B: u8 = 0x05;

pub const KC_C: u8 = 0x06;

pub const KC_D: u8 = 0x07;

pub const KC_E: u8 = 0x08;

pub const KC_F: u8 = 0x09;

pub const KC_G: u8 = 0x0a;

pub const KC_H: u8 = 0x0b;

pub const KC_I: u8 = 0x0c;

pub const KC_J: u8 = 0x0d;

pub const KC_K: u8 = 0x0e;

pub const KC_L: u8 = 0x0f;

pub const KC_M: u8 = 0x10;

pub const KC_N: u8 = 0x11;

pub const KC_O: u8 = 0x12;

pub const KC_P: u8 = 0x13;

pub const KC_Q: u8 = 0x14;

pub const KC_R: u8 = 0x15;

pub const KC_S: u8 = 0x16;

pub const KC_T: u8 = 0x17;

/// Pointer-device actions a key can trigger.
#[derive(Debug, Clone, Copy, PartialEq, Eq, Structural)]
pub enum Mouse {
    LeftClick,
    RightClick,
    MiddleClick,
    ScrollUp,
    ScrollDown,
    ScrollLeft,
    ScrollRight,
    MoveUp,
    MoveDown,
    MoveLeft,
    MoveRight,
    SpeedUp,
    SpeedDown,
}

/// A key identity as seen by the report layer: a plain keyboard usage, a
/// mouse action, a layer switch, or one of the two inert bindings.
#[derive(Debug, Clone, Copy, PartialEq, Eq, Structural)]
pub enum Key {
    Base(u8),
    Mouse(Mouse),
    Layer(usize),
    Transparent,
    NoKey,
}

} // verus!
