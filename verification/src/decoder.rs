//! The decoder: one raw signal in, one event or one decode error out.
//!
//! The only state that lives from one signal to the next is whether a bracketed paste is
//! under way. Key repeats are reported only on positive evidence, and a signal carries none:
//! every key press comes out with `is_repeat` false.

use crate::event::{DecodeError, Event, KeyInput};
use crate::modifiers::Modifiers;
use crate::signal::{MouseReport, Signal};
use vstd::prelude::*;

verus! {

/// Whether `c` is one of the control characters that Ctrl and a letter produce: 0x01 for
/// Ctrl-A up to 0x1A for Ctrl-Z. Tab and Enter are among them, since the terminal sends what
/// Ctrl-I and Ctrl-M send.
pub open spec fn is_ctrl_letter(c: char) -> bool {
    0x01 <= c as u32 <= 0x1A
}

/// The lower-case letter that, held with Ctrl, produces the control character `c`.
pub open spec fn ctrl_letter(c: char) -> char
    recommends
        is_ctrl_letter(c),
{
    ((c as u32) + 0x60) as char
}

/// The key press for the character `c`. Outside a paste a control character of Ctrl and a
/// letter becomes that letter with the Ctrl modifier; every other character, and inside a
/// paste every character, stands as it came, with no modifier.
pub open spec fn key_press_of(pasting: bool, c: char) -> Event {
    if !pasting && is_ctrl_letter(c) {
        Event::KeyPress {
            modifiers: Modifiers::ctrl(),
            key: KeyInput::Codepoint(ctrl_letter(c)),
            is_repeat: false,
        }
    } else {
        Event::KeyPress { modifiers: Modifiers::none(), key: KeyInput::Codepoint(c), is_repeat: false }
    }
}

/// The mouse event for a report: the modifiers count only on a change of button state.
pub open spec fn mouse_event_of(report: MouseReport) -> Event {
    Event::Mouse {
        device_id: report.device_id,
        modifiers: if report.button_change {
            report.held
        } else {
            Modifiers::none()
        },
        buttons: report.buttons,
        x: report.x,
        y: report.y,
    }
}

/// What the decoder answers to `signal`, in or out of a paste.
///
/// A paste marker that does not fit the state (a begin inside a paste, an end outside one)
/// fits no event, like a signal that the driver could not classify.
pub open spec fn respond(pasting: bool, signal: Signal) -> Result<Event, DecodeError> {
    match signal {
        Signal::Codepoint(c) => Ok(key_press_of(pasting, c)),
        Signal::Byte(b) => Ok(
            Event::KeyPress { modifiers: Modifiers::none(), key: KeyInput::Byte(b), is_repeat: false },
        ),
        Signal::Special(code) => Ok(
            Event::KeyPress {
                modifiers: Modifiers::none(),
                key: KeyInput::Special(code),
                is_repeat: false,
            },
        ),
        Signal::Mouse(report) => Ok(mouse_event_of(report)),
        Signal::PasteBegin => if pasting {
            Err(DecodeError)
        } else {
            Ok(Event::PasteBegin)
        },
        Signal::PasteEnd => if pasting {
            Ok(Event::PasteEnd)
        } else {
            Err(DecodeError)
        },
        Signal::Resize { width, height } => Ok(Event::Resize { width, height }),
        Signal::Unclassified => Err(DecodeError),
    }
}

/// Whether a paste is under way after `signal`: a begin outside a paste starts one, an end
/// inside a paste ends it, and nothing else changes anything.
pub open spec fn paste_after(pasting: bool, signal: Signal) -> bool {
    match signal {
        Signal::PasteBegin => true,
        Signal::PasteEnd => false,
        _ => pasting,
    }
}

/// The state of decoding that lives from one signal to the next.
#[derive(Copy, Clone, Debug, PartialEq, Eq, Structural)]
pub struct Decoder {
    pasting: bool,
}

impl Decoder {
    /// Whether the decoder is between a `PasteBegin` and its `PasteEnd`.
    pub closed spec fn pasting(self) -> bool {
        self.pasting
    }

    /// A decoder in its initial state: outside a paste.
    pub fn new() -> (decoder: Decoder)
        ensures
            !decoder.pasting(),
    {
        Decoder { pasting: false }
    }

    /// Whether the decoder is between a `PasteBegin` and its `PasteEnd`.
    pub fn in_paste(&self) -> (pasting: bool)
        ensures
            pasting == self.pasting(),
    {
        self.pasting
    }

    /// Decodes one key press of the character `c` in the decoder's state.
    pub fn key_press(&self, c: char) -> (event: Event)
        ensures
            event == key_press_of(self.pasting(), c),
    {
        let code: u32 = c as u32;
        if !self.pasting && 0x01 <= code && code <= 0x1A {
            let letter: u8 = (code + 0x60) as u8;
            Event::KeyPress {
                modifiers: Modifiers::ctrl(),
                key: KeyInput::Codepoint(letter as char),
                is_repeat: false,
            }
        } else {
            Event::KeyPress {
                modifiers: Modifiers::none(),
                key: KeyInput::Codepoint(c),
                is_repeat: false,
            }
        }
    }

    /// Turns one raw signal into one event, or into a decode error where the signal fits no
    /// event. An error leaves the decoder as it was.
    pub fn decode(&mut self, signal: Signal) -> (out: Result<Event, DecodeError>)
        ensures
            out == respond(old(self).pasting(), signal),
            final(self).pasting() == paste_after(old(self).pasting(), signal),
            final(self).pasting() == old(self).pasting() ==> *final(self) == *old(self),
            out is Err ==> *final(self) == *old(self),
    {
        match signal {
            Signal::Codepoint(c) => Ok(self.key_press(c)),
            Signal::Byte(b) => Ok(
                Event::KeyPress {
                    modifiers: Modifiers::none(),
                    key: KeyInput::Byte(b),
                    is_repeat: false,
                },
            ),
            Signal::Special(code) => Ok(
                Event::KeyPress {
                    modifiers: Modifiers::none(),
                    key: KeyInput::Special(code),
                    is_repeat: false,
                },
            ),
            Signal::Mouse(report) => {
                let modifiers = if report.button_change {
                    report.held
                } else {
                    Modifiers::none()
                };
                Ok(
                    Event::Mouse {
                        device_id: report.device_id,
                        modifiers,
                        buttons: report.buttons,
                        x: report.x,
                        y: report.y,
                    },
                )
            },
            Signal::PasteBegin => {
                if self.pasting {
                    Err(DecodeError)
                } else {
                    self.pasting = true;
                    Ok(Event::PasteBegin)
                }
            },
            Signal::PasteEnd => {
                if self.pasting {
                    self.pasting = false;
                    Ok(Event::PasteEnd)
                } else {
                    Err(DecodeError)
                }
            },
            Signal::Resize { width, height } => Ok(Event::Resize { width, height }),
            Signal::Unclassified => Err(DecodeError),
        }
    }
}

} // verus!
