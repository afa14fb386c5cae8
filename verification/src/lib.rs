//! Decoding of raw terminal input into a stream of structured events.
//!
//! The terminal driver hands over one raw signal at a time; the decoder turns
//! each into exactly one [`Event`] or a recoverable [`DecodeError`].

pub mod decoder;
pub mod event;
pub mod modifiers;
pub mod signal;
pub mod stream;
pub mod trace;
pub mod utf8;

pub use decoder::Decoder;
pub use event::{DecodeError, Event, KeyInput};
pub use modifiers::Modifiers;
pub use signal::{KeyClass, KeyCodes, MouseMasks, MouseReport, Signal};
pub use stream::{escape_delay, Action, InputState, RawMouse, Reading, MAX_ESCAPE_DELAY};
