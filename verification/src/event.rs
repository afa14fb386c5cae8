//! The events that the decoder hands to the application.

use crate::modifiers::Modifiers;
use vstd::prelude::*;

verus! {

/// What a key stroke put in.
#[derive(Copy, Clone, Debug, PartialEq, Eq, Structural)]
pub enum KeyInput {
    /// A decoded Unicode scalar value.
    Codepoint(char),
    /// A raw byte, not part of a unicode codepoint. This is generated when invalid UTF-8 is
    /// input.
    Byte(u8),
    /// A key not inputting a printable character, under the terminal driver's own code.
    Special(i32),
}

/// A single event generated by a terminal. Simple text input, whether arriving via a pipe, a
/// paste command, or typing, is represented with `KeyPress` events. These events are
/// inherently lossy and have different levels of support on different terminals.
#[derive(Copy, Clone, Debug, PartialEq, Eq, Structural)]
pub enum Event {
    /// A single typing action by the user. Except between `PasteBegin` and `PasteEnd`, the
    /// control characters that Ctrl and a letter produce are given as the letter with the Ctrl
    /// modifier.
    KeyPress {
        modifiers: Modifiers,
        key: KeyInput,
        /// Whether this key press comes from holding down a key.
        is_repeat: bool,
    },
    /// A key going up. Few terminals report it.
    KeyRelease { modifiers: Modifiers, key: KeyInput },
    /// A motion or click of a mouse button. Modifiers are only available on button state
    /// changes, not on mouse motion.
    Mouse { device_id: u16, modifiers: Modifiers, buttons: ncurses::ll::mmask_t, x: u32, y: u32 },
    /// The events that follow, up to `PasteEnd`, come from a paste: text of unknown origin,
    /// to be taken as raw text and never as commands.
    PasteBegin,
    /// The marker indicating a return to normal user interaction.
    PasteEnd,
    /// The window has been resized.
    Resize { width: u32, height: u32 },
}

/// The one failure of decoding: the driver's signal fits no known event. The decoder is left
/// as it was, and the next signal is decoded as if this one had not come.
#[derive(Copy, Clone, Debug, PartialEq, Eq, Structural)]
pub struct DecodeError;

} // verus!
