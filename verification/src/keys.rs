//! Key identities and what a key can be remapped to.

use vstd::prelude::*;

verus! {

/// Symbolic names of physical keys, after the American QWERTY layout.
#[derive(Clone, Copy, Debug, PartialEq, Eq, Hash, Structural)]
pub enum KeyCode {
    Escape,
    Num1,
    Num2,
    Num3,
    Num4,
    Num5,
    Num6,
    Num7,
    Num8,
    Num9,
    Num0,
    Backspace,
    Tab,
    KeyQ,
    KeyW,
    KeyE,
    KeyR,
    KeyT,
    KeyY,
    KeyU,
    KeyI,
    KeyO,
    KeyP,
    Return,
    ControlLeft,
    KeyA,
    KeyS,
    KeyD,
    KeyF,
    KeyG,
    KeyH,
    KeyJ,
    KeyK,
    KeyL,
    SemiColon,
    Quote,
    ShiftLeft,
    KeyZ,
    KeyX,
    KeyC,
    KeyV,
    KeyB,
    KeyN,
    KeyM,
    Comma,
    Dot,
    Slash,
    ShiftRight,
    NumLock,
    Kp0,
    Kp1,
    Kp2,
    Kp3,
    Kp4,
    Kp5,
    Kp6,
    Kp7,
    Kp8,
    Kp9,
    KpDot,
    KpPlus,
    KpMinus,
    KpMultiply,
    KpDivide,
    KpReturn,
    UpArrow,
    LeftArrow,
    DownArrow,
    RightArrow,
    VolumeUp,
    VolumeDown,
    VolumeMute,
}

/// What identifies a physical key: its place in a switch matrix, or its
/// symbolic name, depending on where the events come from.
#[derive(Clone, Copy, Debug, PartialEq, Eq, Hash, Structural)]
pub enum KeyIdentity {
    MatrixPosition { row: u8, col: u8 },
    PhysicalKeyCode(KeyCode),
}

/// The media controls a key can stand for.
#[derive(Clone, Copy, Debug, PartialEq, Eq, Hash, Structural)]
pub enum CommandKind {
    VolumeUp,
    VolumeDown,
    ToggleMute,
    PlayPause,
}

/// What a key is remapped to.
#[derive(Clone, Copy, Debug, PartialEq, Eq, Hash, Structural)]
pub enum RemapTarget {
    /// The key is forwarded as it is.
    Passthrough,
    /// Another key is sent in its place.
    EmitKey(KeyIdentity),
    /// A media command is issued when the key goes down.
    MediaCommand(CommandKind),
}

/// One line of a mapping table.
#[derive(Clone, Copy, Debug, PartialEq, Eq, Hash, Structural)]
pub struct MappingEntry {
    pub key: KeyIdentity,
    pub target: RemapTarget,
}

} // verus!
