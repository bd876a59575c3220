//! Semantic actions a matrix key can be bound to.
//!
//! A keyboard keycode is carried as its HID usage id (a `u8`); the host-facing
//! report writer turns it into whatever wire representation it needs.

use vstd::prelude::*;

verus! {

/// Pointer-device actions a key can trigger.
#[derive(Debug, Clone, Copy, PartialEq, Eq, Structural)]
pub enum Mouse {
    LeftClick,
    RightClick,
    MiddleClick,
    ScrollUp,
    ScrollDown,
    ScrollLeft,
    ScrollRight,
    MoveUp,
    MoveDown,
    MoveLeft,
    MoveRight,
    SpeedUp,
    SpeedDown,
}

/// A single emittable action: one keyboard usage id or one mouse action.
#[derive(Debug, Clone, Copy, PartialEq, Eq, Structural)]
pub enum Action {
    Mouse(Mouse),
    Keyboard(u8),
}

/// Shortcut for creating a mouse action.
pub fn m(key: Mouse) -> (a: Action)
    ensures
        a == Action::Mouse(key),
{
    Action::Mouse(key)
}

/// Shortcut for creating a keyboard action.
pub fn k(key: u8) -> (a: Action)
    ensures
        a == Action::Keyboard(key),
{
    Action::Keyboard(key)
}

/// Policy deciding how a hold-tap key resolves when other keys interleave
/// with it while it is still pending.
#[derive(Debug, Clone, Copy, PartialEq, Eq, Structural)]
pub enum HoldTapConfig {
    /// Resolve by timeout or by releasing the key, nothing else.
    Default,
    /// Any other key pressed while pending resolves the key to its hold action.
    HoldOnOtherKeyPress,
    /// Any other key released while pending resolves the key to its hold action.
    PermissiveHold,
}

/// A dual-role binding: `hold` when held past the timeout (or resolved early
/// by `config`), `tap` when released before it.
#[derive(Debug, Clone, Copy, PartialEq, Eq, Structural)]
pub struct HoldTapAction {
    pub hold: Action,
    pub tap: Action,
    pub config: HoldTapConfig,
}

/// What one cell of a layer does.
#[derive(Debug, Clone, Copy, PartialEq, Eq, Structural)]
pub enum KeyAction {
    /// Produces nothing.
    NoOp,
    /// Defers to the next layer below; on the base layer it acts as `NoOp`.
    Transparent,
    /// Emits one action while the key is held.
    Single(Action),
    /// Momentary layer switch: the layer is active while the key is held.
    Layer(usize),
    /// Persistent layer switch.
    DefaultLayer(usize),
    /// Dual-role hold/tap binding.
    HoldTap(HoldTapAction),
}

} // verus!
