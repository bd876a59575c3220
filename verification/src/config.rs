//! Board configuration: matrix dimensions, scan-cycle compare points, and
//! the default keymap.

use vstd::prelude::*;

use crate::action::{Action, KeyAction};
use crate::keys::{
    KC_A, KC_B, KC_C, KC_D, KC_E, KC_F, KC_G, KC_H, KC_I, KC_J, KC_K, KC_L, KC_M, KC_N, KC_O,
    KC_P, KC_Q, KC_R, KC_S, KC_T,
};
use crate::layers::{Layer, Layers};

verus! {

/// Number of keys the rollover report can carry at once.
pub const NKRO_MAX_KEYS: usize = 10;

/// Number of configured layers.
pub const NUMBER_LAYERS: usize = 1;

/// Matrix dimensions.
pub const MATRIX_COLUMNS_NUMBER: usize = 5;

pub const MATRIX_ROWS_NUMBER: usize = 4;

/// Full-matrix scan frequency in hertz; the counter itself runs one period
/// per column, so its rate is this times the column count.
pub const FREQUENCY: u32 = 4000;

/// Counter compare value at which the column pattern is asserted.
pub const CC_1: u32 = 500;

/// Counter compare value at which the row inputs are latched.
pub const CC_2: u32 = 1000;

/// Counter reload value.
pub const CC_MAX: u32 = 1000;

/// Debounce interval, in ticks of the pass clock.
pub const DEBOUNCE_INTERVAL_TICKS: u64 = 5;

/// Hold-tap timeout, in ticks of the pass clock.
pub const HOLD_TAP_TIMEOUT_TICKS: u64 = 200;

/// The usage id bound at `(row, col)` of the default letter layout: the
/// letter block `A` through `T`, row-major.
pub open spec fn default_usage(row: int, col: int) -> u8 {
    (KC_A + row * (MATRIX_COLUMNS_NUMBER as int) + col) as u8
}

/// The default layer: the letters `A` through `T`, row-major.
pub fn layer_1() -> (l: Layer<MATRIX_ROWS_NUMBER, MATRIX_COLUMNS_NUMBER>)
    ensures
        forall|r: int, c: int|
            0 <= r < MATRIX_ROWS_NUMBER && 0 <= c < MATRIX_COLUMNS_NUMBER ==> l@[r][c]
                == KeyAction::Single(Action::Keyboard(default_usage(r, c))),
{
    Layer::new(
        [
            [
                KeyAction::Single(Action::Keyboard(KC_A)),
                KeyAction::Single(Action::Keyboard(KC_B)),
                KeyAction::Single(Action::Keyboard(KC_C)),
                KeyAction::Single(Action::Keyboard(KC_D)),
                KeyAction::Single(Action::Keyboard(KC_E)),
            ],
            [
                KeyAction::Single(Action::Keyboard(KC_F)),
                KeyAction::Single(Action::Keyboard(KC_G)),
                KeyAction::Single(Action::Keyboard(KC_H)),
                KeyAction::Single(Action::Keyboard(KC_I)),
                KeyAction::Single(Action::Keyboard(KC_J)),
            ],
            [
                KeyAction::Single(Action::Keyboard(KC_K)),
                KeyAction::Single(Action::Keyboard(KC_L)),
                KeyAction::Single(Action::Keyboard(KC_M)),
                KeyAction::Single(Action::Keyboard(KC_N)),
                KeyAction::Single(Action::Keyboard(KC_O)),
            ],
            [
                KeyAction::Single(Action::Keyboard(KC_P)),
                KeyAction::Single(Action::Keyboard(KC_Q)),
                KeyAction::Single(Action::Keyboard(KC_R)),
                KeyAction::Single(Action::Keyboard(KC_S)),
                KeyAction::Single(Action::Keyboard(KC_T)),
            ],
        ],
    )
}

/// The default layout: the single letter layer, with layer 0 active.
pub fn layout() -> (l: Layers<NUMBER_LAYERS, MATRIX_ROWS_NUMBER, MATRIX_COLUMNS_NUMBER>)
    ensures
        l.wf(),
        l.current() == 0,
        forall|r: int, c: int|
            0 <= r < MATRIX_ROWS_NUMBER && 0 <= c < MATRIX_COLUMNS_NUMBER ==> l.stack()[0][r][c]
                == KeyAction::Single(Action::Keyboard(default_usage(r, c))),
{
    Layers::new([layer_1()])
}

} // verus!
