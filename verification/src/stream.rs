//! The decisions of the input stream: what to make of each thing that the terminal driver
//! hands over, and what to ask of it next. The stream itself, which owns the terminal and
//! blocks on it, only carries these out.
//!
//! What the driver hands over waits in a queue, in the order in which it came. Bytes are
//! read as UTF-8, so a character may need several of them; whatever else the driver hands
//! over cuts short a sequence of bytes that is not all there yet. Every answer takes what it
//! was made of off the queue, and nothing is answered before what came before it.

use crate::decoder::{paste_after, respond, Decoder};
use crate::event::{DecodeError, Event};
use crate::signal::{KeyClass, KeyCodes, MouseMasks, Signal};
use crate::utf8::{front, front_of};
use vstd::prelude::*;

verus! {

/// The longest escape delay that the driver takes, in milliseconds.
pub const MAX_ESCAPE_DELAY: i32 = 0x7fff_ffff;

/// The delay that the driver is given for `millis` milliseconds.
pub open spec fn escape_delay_of(millis: u128) -> i32 {
    if millis <= MAX_ESCAPE_DELAY as u128 {
        millis as i32
    } else {
        MAX_ESCAPE_DELAY
    }
}

/// The time, as the driver takes it, to wait after an escape character before it counts as
/// the escape key and not as the start of an escape sequence: `millis` itself where the
/// driver's range holds it, the driver's maximum where it does not.
pub fn escape_delay(millis: u128) -> (delay: i32)
    ensures
        delay == escape_delay_of(millis),
        0 <= delay <= MAX_ESCAPE_DELAY,
        millis <= MAX_ESCAPE_DELAY ==> delay == millis,
        millis > MAX_ESCAPE_DELAY ==> delay == MAX_ESCAPE_DELAY,
{
    if millis <= MAX_ESCAPE_DELAY as u128 {
        millis as i32
    } else {
        MAX_ESCAPE_DELAY
    }
}

/// One thing that the driver has handed over.
#[derive(Copy, Clone, Debug, PartialEq, Eq, Structural)]
pub enum Reading {
    /// A raw byte of input, to be read as UTF-8 together with its neighbours.
    Byte(u8),
    /// A character that the driver has decoded itself, by its number.
    Char(u32),
    /// A key code.
    KeyCode(i32),
    /// The read failed.
    Failed,
}

/// What the stream does next.
#[derive(Copy, Clone, Debug, PartialEq, Eq)]
pub enum Action {
    /// Hand this out.
    Deliver(Result<Event, DecodeError>),
    /// Fetch the waiting mouse report from the driver and hand it to `on_mouse`.
    FetchMouse,
    /// Fetch the size of the screen from the driver and hand it to `on_size`.
    FetchSize,
}

/// The numbers of a mouse report of the driver.
#[derive(Copy, Clone, Debug, PartialEq, Eq, Structural)]
pub struct RawMouse {
    pub id: i16,
    pub x: i32,
    pub y: i32,
    /// The button-state bitmask.
    pub buttons: ncurses::ll::mmask_t,
}

/// The signal that a reading makes by itself, or `None` where the driver has to be asked
/// for a mouse report or for the size first. A failed read fits no event.
pub open spec fn signal_of_reading(codes: KeyCodes, reading: Reading) -> Option<Signal> {
    match reading {
        Reading::Byte(byte) => Some(Signal::Byte(byte)),
        Reading::Char(code) => Some(Signal::wide_char_of(code)),
        Reading::KeyCode(code) => Signal::key_code_of(codes, code),
        Reading::Failed => Some(Signal::Unclassified),
    }
}

/// What follows a reading that is no byte, for a decoder in or out of a paste.
pub open spec fn action_of(pasting: bool, codes: KeyCodes, reading: Reading) -> Action {
    match signal_of_reading(codes, reading) {
        Some(signal) => Action::Deliver(respond(pasting, signal)),
        None => if codes.class_of(reading->KeyCode_0) == KeyClass::Mouse {
            Action::FetchMouse
        } else {
            Action::FetchSize
        },
    }
}

/// Whether a paste is under way after a reading that is no byte.
pub open spec fn paste_after_reading(pasting: bool, codes: KeyCodes, reading: Reading) -> bool {
    match signal_of_reading(codes, reading) {
        Some(signal) => paste_after(pasting, signal),
        None => pasting,
    }
}

/// The signal that a fetched mouse report makes; a fetch that failed fits no event.
pub open spec fn signal_of_mouse(masks: MouseMasks, fetched: Option<RawMouse>) -> Signal {
    match fetched {
        Some(raw) => masks.report_of(raw.id, raw.x, raw.y, raw.buttons),
        None => Signal::Unclassified,
    }
}

/// Whether the reading at place `i` of `waiting` is a byte.
pub open spec fn byte_at(waiting: Seq<Reading>, i: int) -> bool {
    0 <= i < waiting.len() && waiting[i] is Byte
}

/// The number of bytes at the head of `waiting`, as far as one character can need them:
/// four at most.
pub open spec fn head_len(waiting: Seq<Reading>) -> int {
    if !byte_at(waiting, 0) {
        0
    } else if !byte_at(waiting, 1) {
        1
    } else if !byte_at(waiting, 2) {
        2
    } else if !byte_at(waiting, 3) {
        3
    } else {
        4
    }
}

/// The bytes at the head of `waiting`, as far as one character can need them.
pub open spec fn head_of(waiting: Seq<Reading>) -> Seq<u8> {
    Seq::new(head_len(waiting) as nat, |i: int| waiting[i]->Byte_0)
}

/// What can be answered from `waiting` without another read of the driver, and how many
/// readings the answer takes up.
///
/// Bytes at the head are read as UTF-8. Where they are only the start of a sequence, the
/// stream waits for more, unless something that is no byte has already come after them: then
/// the sequence is cut short and its first byte is answered as a raw byte. A reading at the
/// head that is no byte is answered by itself.
pub open spec fn ready_of(pasting: bool, codes: KeyCodes, waiting: Seq<Reading>) -> Option<
    (Action, int),
> {
    if waiting.len() == 0 {
        None
    } else if waiting[0] is Byte {
        match front_of(head_of(waiting)) {
            Some((signal, used)) => Some((Action::Deliver(respond(pasting, signal)), used)),
            None => if head_len(waiting) < waiting.len() {
                Some(
                    (
                        Action::Deliver(respond(pasting, Signal::Byte(waiting[0]->Byte_0))),
                        1int,
                    ),
                )
            } else {
                None
            },
        }
    } else {
        Some((action_of(pasting, codes, waiting[0]), 1int))
    }
}

/// The decoder together with what it has to know of the driver's numbers, and what the
/// driver has handed over and no answer has taken up yet.
pub struct InputState {
    pub decoder: Decoder,
    pub codes: KeyCodes,
    pub masks: MouseMasks,
    /// What the driver has handed over and no answer has taken up yet, the oldest first.
    pub waiting: Vec<Reading>,
}

impl InputState {
    /// The state of a new stream: outside a paste, with nothing waiting.
    pub fn new(codes: KeyCodes, masks: MouseMasks) -> (state: InputState)
        ensures
            !state.decoder.pasting(),
            state.codes == codes,
            state.masks == masks,
            state.waiting@ == Seq::<Reading>::empty(),
    {
        InputState { decoder: Decoder::new(), codes, masks, waiting: Vec::new() }
    }

    /// The number of readings that wait.
    pub fn waiting_len(&self) -> (n: usize)
        ensures
            n == self.waiting@.len(),
    {
        self.waiting.len()
    }

    /// Takes what a read of the driver gave and puts it behind what waits already.
    pub fn on_reading(&mut self, reading: Reading)
        ensures
            final(self).waiting@ == old(self).waiting@.push(reading),
            final(self).decoder == old(self).decoder,
            final(self).codes == old(self).codes,
            final(self).masks == old(self).masks,
    {
        self.waiting.push(reading);
    }

    /// Answers the oldest of what waits, where that can be done without another read of the
    /// driver, and takes it off the queue. Returns `None`, and changes nothing, where the
    /// driver has to be read first.
    pub fn poll(&mut self) -> (out: Option<Action>)
        ensures
            final(self).codes == old(self).codes,
            final(self).masks == old(self).masks,
            match ready_of(old(self).decoder.pasting(), old(self).codes, old(self).waiting@) {
                Some((action, used)) => {
                    &&& out == Some(action)
                    &&& 1 <= used <= old(self).waiting@.len()
                    &&& final(self).waiting@ == old(self).waiting@.skip(used)
                    &&& final(self).decoder.pasting() == if old(self).waiting@[0] is Byte {
                        old(self).decoder.pasting()
                    } else {
                        paste_after_reading(
                            old(self).decoder.pasting(),
                            old(self).codes,
                            old(self).waiting@[0],
                        )
                    }
                },
                None => {
                    &&& out.is_none()
                    &&& final(self).waiting@ == old(self).waiting@
                    &&& final(self).decoder == old(self).decoder
                },
            },
    {
        let n = self.waiting.len();
        if n == 0 {
            return None;
        }
        let oldest = self.waiting[0];
        match oldest {
            Reading::Byte(first) => {
                let head = self.head();
                match front(head.as_slice()) {
                    Some((signal, used)) => {
                        self.drop_waiting(used);
                        Some(Action::Deliver(self.decoder.decode(signal)))
                    },
                    None => {
                        if head.len() < n {
                            self.drop_waiting(1);
                            Some(Action::Deliver(self.decoder.decode(Signal::Byte(first))))
                        } else {
                            None
                        }
                    },
                }
            },
            Reading::Char(code) => {
                self.drop_waiting(1);
                Some(Action::Deliver(self.decoder.decode(Signal::from_wide_char(code))))
            },
            Reading::KeyCode(code) => {
                self.drop_waiting(1);
                match Signal::from_key_code(&self.codes, code) {
                    Some(signal) => Some(Action::Deliver(self.decoder.decode(signal))),
                    None => {
                        if code == self.codes.mouse {
                            Some(Action::FetchMouse)
                        } else {
                            Some(Action::FetchSize)
                        }
                    },
                }
            },
            Reading::Failed => {
                self.drop_waiting(1);
                Some(Action::Deliver(self.decoder.decode(Signal::Unclassified)))
            },
        }
    }

    /// The bytes at the head of the queue, as far as one character can need them.
    fn head(&self) -> (head: Vec<u8>)
        ensures
            head@ == head_of(self.waiting@),
            head@.len() == head_len(self.waiting@),
    {
        let mut head: Vec<u8> = Vec::new();
        let mut i: usize = 0;
        while i < 4 && i < self.waiting.len()
            invariant
                i <= 4,
                i <= self.waiting@.len(),
                head@.len() == i,
                forall|k: int| 0 <= k < i ==> byte_at(self.waiting@, k),
                forall|k: int| 0 <= k < i ==> head@[k] == self.waiting@[k]->Byte_0,
            decreases 4 - i,
        {
            match self.waiting[i] {
                Reading::Byte(byte) => {
                    head.push(byte);
                    i += 1;
                },
                _ => {
                    assert(!byte_at(self.waiting@, i as int));
                    assert(head@ =~= head_of(self.waiting@));
                    return head;
                },
            }
        }
        assert(head@ =~= head_of(self.waiting@));
        head
    }

    /// Takes the first `count` readings off the queue.
    fn drop_waiting(&mut self, count: usize)
        requires
            count <= old(self).waiting@.len(),
        ensures
            final(self).waiting@ == old(self).waiting@.skip(count as int),
            final(self).decoder == old(self).decoder,
            final(self).codes == old(self).codes,
            final(self).masks == old(self).masks,
    {
        let mut done: usize = 0;
        assert(self.waiting@ =~= old(self).waiting@.skip(0));
        while done < count
            invariant
                done <= count <= old(self).waiting@.len(),
                self.waiting@ == old(self).waiting@.skip(done as int),
                self.decoder == old(self).decoder,
                self.codes == old(self).codes,
                self.masks == old(self).masks,
            decreases count - done,
        {
            self.waiting.remove(0);
            done += 1;
            assert(self.waiting@ =~= old(self).waiting@.skip(done as int));
        }
    }

    /// Takes the mouse report that was fetched after `FetchMouse`, or `None` where the
    /// driver had none to give, and decodes it.
    pub fn on_mouse(&mut self, fetched: Option<RawMouse>) -> (out: Result<Event, DecodeError>)
        ensures
            out == respond(old(self).decoder.pasting(), signal_of_mouse(old(self).masks, fetched)),
            final(self).waiting@ == old(self).waiting@,
            final(self).decoder == old(self).decoder,
            final(self).codes == old(self).codes,
            final(self).masks == old(self).masks,
    {
        let signal = match fetched {
            Some(raw) => self.masks.report(raw.id, raw.x, raw.y, raw.buttons),
            None => Signal::Unclassified,
        };
        self.decoder.decode(signal)
    }

    /// Takes the size of the screen that was fetched after `FetchSize`, and decodes it.
    pub fn on_size(&mut self, lines: i32, columns: i32) -> (out: Result<Event, DecodeError>)
        ensures
            out == respond(old(self).decoder.pasting(), Signal::resize_of(lines, columns)),
            final(self).waiting@ == old(self).waiting@,
            final(self).decoder == old(self).decoder,
            final(self).codes == old(self).codes,
            final(self).masks == old(self).masks,
    {
        self.decoder.decode(Signal::from_size(lines, columns))
    }
}

/// A byte at the head of the queue that begins no UTF-8 sequence is answered at once, as a
/// key press of that raw byte and of nothing else: the readings behind it stay as they are.
pub proof fn law_stray_byte_answered_alone(
    pasting: bool,
    codes: KeyCodes,
    byte: u8,
    rest: Seq<Reading>,
)
    requires
        crate::utf8::width_of(byte) == 0,
    ensures
        ready_of(pasting, codes, seq![Reading::Byte(byte)] + rest) == Some(
            (
                Action::Deliver(
                    Ok(
                        Event::KeyPress {
                            modifiers: crate::modifiers::Modifiers::none(),
                            key: crate::event::KeyInput::Byte(byte),
                            is_repeat: false,
                        },
                    ),
                ),
                1int,
            ),
        ),
{
    let waiting = seq![Reading::Byte(byte)] + rest;
    assert(waiting[0] == Reading::Byte(byte));
    assert(head_of(waiting)[0] == byte);
    crate::utf8::lemma_no_sequence_from_stray_byte(head_of(waiting));
}

/// A decode error takes exactly one reading off the queue, one that is no byte, and leaves
/// the paste state as it was: what waits behind it is answered as if it had not come.
pub proof fn law_error_takes_one_reading(pasting: bool, codes: KeyCodes, waiting: Seq<Reading>)
    requires
        ready_of(pasting, codes, waiting) is Some,
        ready_of(pasting, codes, waiting)->Some_0.0 == Action::Deliver(
            Err::<Event, DecodeError>(DecodeError),
        ),
    ensures
        ready_of(pasting, codes, waiting)->Some_0.1 == 1,
        !(waiting[0] is Byte),
        paste_after_reading(pasting, codes, waiting[0]) == pasting,
{
}

/// Bytes never change the paste state, and no answer to bytes is a decode error.
pub proof fn law_bytes_never_fail(pasting: bool, codes: KeyCodes, waiting: Seq<Reading>)
    requires
        byte_at(waiting, 0),
        ready_of(pasting, codes, waiting) is Some,
    ensures
        ready_of(pasting, codes, waiting)->Some_0.0 is Deliver,
        ready_of(pasting, codes, waiting)->Some_0.0->Deliver_0 is Ok,
        ready_of(pasting, codes, waiting)->Some_0.0->Deliver_0->Ok_0 is KeyPress,
{
}

} // verus!
