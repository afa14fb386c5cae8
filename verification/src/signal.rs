//! The raw signals of the terminal driver, and how the driver's numbers are sorted into them.

use crate::modifiers::Modifiers;
use vstd::prelude::*;

verus! {

/// A mouse report as the driver gives it.
#[derive(Copy, Clone, Debug, PartialEq, Eq, Structural)]
pub struct MouseReport {
    pub device_id: u16,
    /// The button-state bitmask, as the driver reports it.
    pub buttons: ncurses::ll::mmask_t,
    pub x: u32,
    pub y: u32,
    /// The modifier keys that the report names as held.
    pub held: Modifiers,
    /// Whether the report is of a change of button state, and not of pure motion.
    pub button_change: bool,
}

/// One raw signal of the terminal driver.
#[derive(Copy, Clone, Debug, PartialEq, Eq, Structural)]
pub enum Signal {
    /// A decoded Unicode scalar value.
    Codepoint(char),
    /// A byte that is part of no valid UTF-8 sequence.
    Byte(u8),
    /// A special key, under the driver's own code.
    Special(i32),
    /// A mouse report.
    Mouse(MouseReport),
    /// The start of a bracketed paste.
    PasteBegin,
    /// The end of a bracketed paste.
    PasteEnd,
    /// The terminal now has this size.
    Resize { width: u32, height: u32 },
    /// Something that fits none of the above.
    Unclassified,
}

/// The key codes under which the driver announces what is not a key.
#[derive(Copy, Clone, Debug, PartialEq, Eq, Structural)]
pub struct KeyCodes {
    /// A mouse report is waiting.
    pub mouse: i32,
    /// The terminal was resized.
    pub resize: i32,
    /// A bracketed paste begins.
    pub paste_begin: i32,
    /// A bracketed paste ends.
    pub paste_end: i32,
}

/// What a key code of the driver stands for.
#[derive(Copy, Clone, Debug, PartialEq, Eq, Structural)]
pub enum KeyClass {
    /// A mouse report is to be fetched from the driver.
    Mouse,
    /// The new size is to be fetched from the driver.
    Resize,
    /// The start of a bracketed paste.
    PasteBegin,
    /// The end of a bracketed paste.
    PasteEnd,
    /// A special key, with its code.
    Special(i32),
}

impl KeyCodes {
    /// What `code` stands for. Where two announcements share a code, the one named first in
    /// the list of `KeyClass` wins.
    pub open spec fn class_of(self, code: i32) -> KeyClass {
        if code == self.mouse {
            KeyClass::Mouse
        } else if code == self.resize {
            KeyClass::Resize
        } else if code == self.paste_begin {
            KeyClass::PasteBegin
        } else if code == self.paste_end {
            KeyClass::PasteEnd
        } else {
            KeyClass::Special(code)
        }
    }

    /// Sorts a key code of the driver: one of the four announcements, or else a special key
    /// whose code is handed on as it is.
    pub fn classify(&self, code: i32) -> (class: KeyClass)
        ensures
            class == self.class_of(code),
    {
        if code == self.mouse {
            KeyClass::Mouse
        } else if code == self.resize {
            KeyClass::Resize
        } else if code == self.paste_begin {
            KeyClass::PasteBegin
        } else if code == self.paste_end {
            KeyClass::PasteEnd
        } else {
            KeyClass::Special(code)
        }
    }
}

/// The bits of the driver's button-state bitmask that do not stand for a button.
#[derive(Copy, Clone, Debug, PartialEq, Eq, Structural)]
pub struct MouseMasks {
    /// Set where Shift was held.
    pub shift: ncurses::ll::mmask_t,
    /// Set where Ctrl was held.
    pub ctrl: ncurses::ll::mmask_t,
    /// Set where Alt was held.
    pub alt: ncurses::ll::mmask_t,
    /// Set where the report is of pure motion.
    pub motion: ncurses::ll::mmask_t,
}

impl MouseMasks {
    /// The modifier keys that the bitmask `buttons` names.
    pub open spec fn held_in(self, buttons: ncurses::ll::mmask_t) -> Modifiers {
        let shift = if buttons & self.shift != 0 {
            Modifiers::shift()
        } else {
            Modifiers::none()
        };
        let ctrl = if buttons & self.ctrl != 0 {
            Modifiers::ctrl()
        } else {
            Modifiers::none()
        };
        let alt = if buttons & self.alt != 0 {
            Modifiers::alt()
        } else {
            Modifiers::none()
        };
        shift.union(ctrl).union(alt)
    }

    /// The signal that the driver's mouse report makes, where its numbers are in range.
    pub open spec fn report_of(self, id: i16, x: i32, y: i32, buttons: ncurses::ll::mmask_t) -> Signal {
        if id < 0 || x < 0 || y < 0 {
            Signal::Unclassified
        } else {
            Signal::Mouse(
                MouseReport {
                    device_id: id as u16,
                    buttons,
                    x: x as u32,
                    y: y as u32,
                    held: self.held_in(buttons),
                    button_change: buttons & self.motion == 0,
                },
            )
        }
    }

    /// The modifier keys that a button-state bitmask names as held.
    pub fn held(&self, buttons: ncurses::ll::mmask_t) -> (held: Modifiers)
        ensures
            held == self.held_in(buttons),
    {
        let shift = if buttons & self.shift != 0 {
            Modifiers::shift()
        } else {
            Modifiers::none()
        };
        let ctrl = if buttons & self.ctrl != 0 {
            Modifiers::ctrl()
        } else {
            Modifiers::none()
        };
        let alt = if buttons & self.alt != 0 {
            Modifiers::alt()
        } else {
            Modifiers::none()
        };
        shift.bitor(ctrl).bitor(alt)
    }

    /// Turns the numbers of a mouse report of the driver into a signal. A negative device id
    /// or coordinate fits no event and gives `Unclassified`. The bitmask is kept whole; the
    /// report counts as a change of button state where the motion bit is not set.
    pub fn report(&self, id: i16, x: i32, y: i32, buttons: ncurses::ll::mmask_t) -> (signal: Signal)
        ensures
            signal == self.report_of(id, x, y, buttons),
    {
        if id < 0 || x < 0 || y < 0 {
            Signal::Unclassified
        } else {
            Signal::Mouse(
                MouseReport {
                    device_id: id as u16,
                    buttons,
                    x: x as u32,
                    y: y as u32,
                    held: self.held(buttons),
                    button_change: buttons & self.motion == 0,
                },
            )
        }
    }
}

impl MouseMasks {
    /// A key is among the held ones exactly where the bitmask has a bit of that key's mask,
    /// each key by itself.
    pub proof fn law_held_key_by_key(self, buttons: ncurses::ll::mmask_t)
        ensures
            self.held_in(buttons).contains(Modifiers::shift()) <==> buttons & self.shift != 0,
            self.held_in(buttons).contains(Modifiers::ctrl()) <==> buttons & self.ctrl != 0,
            self.held_in(buttons).contains(Modifiers::alt()) <==> buttons & self.alt != 0,
    {
        let shift = if buttons & self.shift != 0 {
            Modifiers::shift()
        } else {
            Modifiers::none()
        };
        let ctrl = if buttons & self.ctrl != 0 {
            Modifiers::ctrl()
        } else {
            Modifiers::none()
        };
        let alt = if buttons & self.alt != 0 {
            Modifiers::alt()
        } else {
            Modifiers::none()
        };
        Modifiers::lemma_named_bits();
        Modifiers::lemma_bits_of_operations(shift, ctrl);
        Modifiers::lemma_bits_of_operations(shift.union(ctrl), alt);
        let s = shift.bits();
        let c = ctrl.bits();
        let a = alt.bits();
        assert(((s | c) | a) & 1u8 == 1u8 <==> s == 1u8) by (bit_vector)
            requires
                s == 0u8 || s == 1u8,
                c == 0u8 || c == 4u8,
                a == 0u8 || a == 2u8,
        ;
        assert(((s | c) | a) & 4u8 == 4u8 <==> c == 4u8) by (bit_vector)
            requires
                s == 0u8 || s == 1u8,
                c == 0u8 || c == 4u8,
                a == 0u8 || a == 2u8,
        ;
        assert(((s | c) | a) & 2u8 == 2u8 <==> a == 2u8) by (bit_vector)
            requires
                s == 0u8 || s == 1u8,
                c == 0u8 || c == 4u8,
                a == 0u8 || a == 2u8,
        ;
    }

    /// A bitmask with the Ctrl bit and neither of the other two names Ctrl alone, and one
    /// with none of the three names no key.
    pub proof fn law_held_alone(self, buttons: ncurses::ll::mmask_t)
        requires
            buttons & self.shift == 0,
            buttons & self.alt == 0,
        ensures
            buttons & self.ctrl != 0 ==> self.held_in(buttons) == Modifiers::ctrl(),
            buttons & self.ctrl == 0 ==> self.held_in(buttons) == Modifiers::none(),
    {
        Modifiers::law_none(Modifiers::ctrl());
        Modifiers::law_none(Modifiers::none());
    }
}

/// Whether `code` is a Unicode scalar value: a code point that is no surrogate.
pub open spec fn is_scalar_value(code: u32) -> bool {
    code <= 0xD7FF || (0xE000 <= code && code <= 0x10FFFF)
}

/// `char::from_u32` of std: the character with the code `i` where `i` is a Unicode
/// scalar value, and `None` for a surrogate or a number above 0x10FFFF.
pub assume_specification[ char::from_u32 ](i: u32) -> (c: Option<char>)
    ensures
        c == (if is_scalar_value(i) {
            Some(i as char)
        } else {
            None::<char>
        }),
;

impl Signal {
    /// The signal that a wide character of the driver makes.
    pub open spec fn wide_char_of(code: u32) -> Signal {
        if is_scalar_value(code) {
            Signal::Codepoint(code as char)
        } else {
            Signal::Unclassified
        }
    }

    /// The signal that a size report of the driver makes.
    pub open spec fn resize_of(lines: i32, columns: i32) -> Signal {
        if lines < 0 || columns < 0 {
            Signal::Unclassified
        } else {
            Signal::Resize { width: columns as u32, height: lines as u32 }
        }
    }

    /// The signal that a key code of the driver makes by itself: a paste marker or a special
    /// key. For a mouse report or a resize the driver has to be asked for more, and there is
    /// no signal yet.
    pub open spec fn key_code_of(codes: KeyCodes, code: i32) -> Option<Signal> {
        match codes.class_of(code) {
            KeyClass::Mouse => None,
            KeyClass::Resize => None,
            KeyClass::PasteBegin => Some(Signal::PasteBegin),
            KeyClass::PasteEnd => Some(Signal::PasteEnd),
            KeyClass::Special(c) => Some(Signal::Special(c)),
        }
    }

    /// Turns a wide character of the driver into a signal: the character itself where the
    /// number is a Unicode scalar value, `Unclassified` where it is not.
    pub fn from_wide_char(code: u32) -> (signal: Signal)
        ensures
            signal == Signal::wide_char_of(code),
    {
        match char::from_u32(code) {
            Some(c) => Signal::Codepoint(c),
            None => Signal::Unclassified,
        }
    }

    /// Turns the size that the driver reports into a signal. A negative number of lines or
    /// columns fits no event and gives `Unclassified`.
    pub fn from_size(lines: i32, columns: i32) -> (signal: Signal)
        ensures
            signal == Signal::resize_of(lines, columns),
    {
        if lines < 0 || columns < 0 {
            Signal::Unclassified
        } else {
            Signal::Resize { width: columns as u32, height: lines as u32 }
        }
    }

    /// Turns a key code of the driver into a signal where the code is one by itself, and
    /// returns `None` where the driver first has to be asked for a mouse report or a size.
    pub fn from_key_code(codes: &KeyCodes, code: i32) -> (signal: Option<Signal>)
        ensures
            signal == Signal::key_code_of(*codes, code),
    {
        match codes.classify(code) {
            KeyClass::Mouse => None,
            KeyClass::Resize => None,
            KeyClass::PasteBegin => Some(Signal::PasteBegin),
            KeyClass::PasteEnd => Some(Signal::PasteEnd),
            KeyClass::Special(c) => Some(Signal::Special(c)),
        }
    }
}

} // verus!
