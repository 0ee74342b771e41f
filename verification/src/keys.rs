//! Engine key codes, independent of any window system.

use vstd::prelude::*;

verus! {

/// Physical keys the engine cares about.
#[derive(Debug, Clone, Copy, PartialEq, Eq, Hash, Structural)]
pub enum KeyCode {
    ArrowUp,
    ArrowDown,
    ArrowLeft,
    ArrowRight,
    Escape,
    Insert,
    Enter,
    Space,
    ControlLeft,
    PageUp,
    PageDown,
    Home,
    End,
    KeyR,
    KeyA,
    KeyD,
    KeyE,
    KeyW,
    KeyQ,
    KeyF,
    KeyS,
    AltLeft,
    AltRight,
    Numpad0,
    Numpad1,
    Numpad2,
    Numpad3,
    Numpad4,
    Numpad6,
    Numpad7,
    Numpad8,
    Numpad9,
    NumpadEnter,
}

/// What a keyboard source reports: a state change, or a tap from a source
/// that cannot report releases.
#[derive(Debug, Clone, Copy, PartialEq, Eq, Structural)]
pub enum KeyEvent {
    State { code: KeyCode, pressed: bool },
    Tap(KeyCode),
}

} // verus!
