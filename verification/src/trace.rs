//! What holds of the decoder over every signal and over every run of signals.

use crate::decoder::{is_ctrl_letter, key_press_of, paste_after, respond, Decoder};
use crate::event::{DecodeError, Event, KeyInput};
use crate::modifiers::Modifiers;
use crate::signal::{MouseReport, Signal};
use vstd::prelude::*;

verus! {

/// Whether a paste is under way after the whole of `signals`, decoded one after the other
/// from the state `pasting`.
pub open spec fn paste_after_all(pasting: bool, signals: Seq<Signal>) -> bool
    decreases signals.len(),
{
    if signals.len() == 0 {
        pasting
    } else {
        paste_after(paste_after_all(pasting, signals.drop_last()), signals.last())
    }
}

/// The answers of the decoder to `signals`, decoded one after the other from the state
/// `pasting`: the answer to each signal is the one for the state that the signals before it
/// have led to.
pub open spec fn answers(pasting: bool, signals: Seq<Signal>) -> Seq<Result<Event, DecodeError>> {
    Seq::new(
        signals.len(),
        |i: int| respond(paste_after_all(pasting, signals.take(i)), signals[i]),
    )
}

/// The number of `PasteBegin` events among `answers`, less the number of `PasteEnd` events.
pub open spec fn open_pastes(answers: Seq<Result<Event, DecodeError>>) -> int
    decreases answers.len(),
{
    if answers.len() == 0 {
        0
    } else {
        open_pastes(answers.drop_last()) + if answers.last() == Ok::<Event, DecodeError>(
            Event::PasteBegin,
        ) {
            1int
        } else if answers.last() == Ok::<Event, DecodeError>(Event::PasteEnd) {
            -1int
        } else {
            0int
        }
    }
}

/// The answers to the first `n + 1` signals are the answers to the first `n`, then the
/// answer to the next in the state that those have led to.
pub proof fn lemma_answers_grow(pasting: bool, signals: Seq<Signal>, n: int)
    requires
        0 <= n < signals.len(),
    ensures
        answers(pasting, signals.take(n + 1)) == answers(pasting, signals.take(n)).push(
            respond(paste_after_all(pasting, signals.take(n)), signals[n]),
        ),
        paste_after_all(pasting, signals.take(n + 1)) == paste_after(
            paste_after_all(pasting, signals.take(n)),
            signals[n],
        ),
{
    let longer = signals.take(n + 1);
    let shorter = signals.take(n);
    assert(longer.drop_last() =~= shorter);
    assert(longer.take(n) =~= shorter);
    assert forall|k: int| 0 <= k < n implies #[trigger] answers(pasting, longer)[k] == answers(
        pasting,
        shorter,
    )[k] by {
        assert(longer.take(k) =~= shorter.take(k));
    }
    assert(answers(pasting, longer) =~= answers(pasting, shorter).push(
        respond(paste_after_all(pasting, shorter), signals[n]),
    ));
}

impl Decoder {
    /// Decodes a run of signals, one after the other, and returns the answer to each in the
    /// order of the signals.
    pub fn decode_all(&mut self, signals: &Vec<Signal>) -> (out: Vec<Result<Event, DecodeError>>)
        ensures
            out@ == answers(old(self).pasting(), signals@),
            final(self).pasting() == paste_after_all(old(self).pasting(), signals@),
    {
        let ghost start = self.pasting();
        let mut out: Vec<Result<Event, DecodeError>> = Vec::new();
        let mut i: usize = 0;
        proof {
            assert(signals@.take(0) =~= Seq::<Signal>::empty());
            assert(out@ =~= answers(start, signals@.take(0)));
        }
        while i < signals.len()
            invariant
                i <= signals.len(),
                out@ == answers(start, signals@.take(i as int)),
                self.pasting() == paste_after_all(start, signals@.take(i as int)),
            decreases signals.len() - i,
        {
            proof {
                lemma_answers_grow(start, signals@, i as int);
            }
            let answer = self.decode(signals[i]);
            out.push(answer);
            i += 1;
        }
        proof {
            assert(signals@.take(signals@.len() as int) =~= signals@);
        }
        out
    }
}

/// A printable ASCII character outside a paste is a key press of that character, with no
/// modifier.
pub proof fn law_printable_ascii_unchanged(c: char)
    requires
        0x20 <= c as u32 <= 0x7E,
    ensures
        respond(false, Signal::Codepoint(c)) == Ok::<Event, DecodeError>(
            Event::KeyPress {
                modifiers: Modifiers::none(),
                key: KeyInput::Codepoint(c),
                is_repeat: false,
            },
        ),
{
}

/// Outside a paste, every character but the control characters of Ctrl and a letter is a
/// key press of that character, with no modifier; each of those control characters is a key
/// press of a lower-case ASCII letter with Ctrl, and no two of them give the same letter.
pub proof fn law_ctrl_letters(c: char, d: char)
    ensures
        !is_ctrl_letter(c) ==> key_press_of(false, c) == (Event::KeyPress {
            modifiers: Modifiers::none(),
            key: KeyInput::Codepoint(c),
            is_repeat: false,
        }),
        is_ctrl_letter(c) ==> key_press_of(false, c) is KeyPress && key_press_of(
            false,
            c,
        )->KeyPress_modifiers == Modifiers::ctrl() && exists|l: char|
            'a' <= l <= 'z' && key_press_of(false, c)->KeyPress_key == KeyInput::Codepoint(l),
        is_ctrl_letter(c) && is_ctrl_letter(d) && key_press_of(false, c) == key_press_of(false, d)
            ==> c == d,
{
    if is_ctrl_letter(c) {
        let l = ((c as u32) + 0x60) as char;
        assert('a' <= l <= 'z' && key_press_of(false, c)->KeyPress_key == KeyInput::Codepoint(l));
    }
}

/// Inside a paste nothing is read as a command: every character, byte and special key is a
/// key press of what came, with no modifier.
pub proof fn law_paste_is_literal(signal: Signal)
    ensures
        match signal {
            Signal::Codepoint(c) => respond(true, signal) == Ok::<Event, DecodeError>(
                Event::KeyPress {
                    modifiers: Modifiers::none(),
                    key: KeyInput::Codepoint(c),
                    is_repeat: false,
                },
            ),
            Signal::Byte(b) => respond(true, signal) == Ok::<Event, DecodeError>(
                Event::KeyPress {
                    modifiers: Modifiers::none(),
                    key: KeyInput::Byte(b),
                    is_repeat: false,
                },
            ),
            Signal::Special(code) => respond(true, signal) == Ok::<Event, DecodeError>(
                Event::KeyPress {
                    modifiers: Modifiers::none(),
                    key: KeyInput::Special(code),
                    is_repeat: false,
                },
            ),
            _ => true,
        },
{
}

/// An undecodable byte is no error, in a paste or out of one: it is a key press of that
/// byte, and it changes nothing for the signals that follow.
pub proof fn law_byte_passes(pasting: bool, b: u8, rest: Seq<Signal>)
    ensures
        respond(pasting, Signal::Byte(b)) == Ok::<Event, DecodeError>(
            Event::KeyPress {
                modifiers: Modifiers::none(),
                key: KeyInput::Byte(b),
                is_repeat: false,
            },
        ),
        paste_after(pasting, Signal::Byte(b)) == pasting,
        answers(pasting, seq![Signal::Byte(b)] + rest).skip(1) == answers(
            pasting,
            rest,
        ),
{
    lemma_first_signal(pasting, Signal::Byte(b), rest);
}

/// A mouse report gives a mouse event with its device, buttons and place; the event has the
/// held modifiers where the report is of a change of button state, and none where it is of
/// pure motion. The state of the paste makes no difference.
pub proof fn law_mouse_modifiers(pasting: bool, report: MouseReport)
    ensures
        respond(pasting, Signal::Mouse(report)) == Ok::<Event, DecodeError>(
            Event::Mouse {
                device_id: report.device_id,
                modifiers: if report.button_change {
                    report.held
                } else {
                    Modifiers::none()
                },
                buttons: report.buttons,
                x: report.x,
                y: report.y,
            },
        ),
        paste_after(pasting, Signal::Mouse(report)) == pasting,
{
}

/// Every signal gets exactly one answer, and what changes the state is told: a paste begins
/// only with a `PasteBegin` event and ends only with a `PasteEnd` event.
pub proof fn law_state_changes_are_told(pasting: bool, signal: Signal)
    ensures
        (!pasting && paste_after(pasting, signal)) <==> respond(pasting, signal) == Ok::<
            Event,
            DecodeError,
        >(Event::PasteBegin),
        (pasting && !paste_after(pasting, signal)) <==> respond(pasting, signal) == Ok::<
            Event,
            DecodeError,
        >(Event::PasteEnd),
{
}

/// No key press is called a repeat, since no signal is evidence of one, and no key release
/// is given out, since no signal reports one.
pub proof fn law_no_repeat_no_release(pasting: bool, signal: Signal)
    ensures
        match respond(pasting, signal) {
            Ok(Event::KeyPress { is_repeat, .. }) => !is_repeat,
            Ok(Event::KeyRelease { .. }) => false,
            _ => true,
        },
{
}

/// A decode error comes exactly for a signal that the driver could not classify and for a
/// paste marker out of place: a begin inside a paste, an end outside one.
pub proof fn law_errors(pasting: bool, signal: Signal)
    ensures
        respond(pasting, signal) is Err <==> (signal == Signal::Unclassified || (pasting && signal
            == Signal::PasteBegin) || (!pasting && signal == Signal::PasteEnd)),
{
}

/// A signal that gives a decode error leaves the state as it was.
pub proof fn law_error_keeps_state(pasting: bool, signal: Signal)
    requires
        respond(pasting, signal) is Err,
    ensures
        paste_after(pasting, signal) == pasting,
{
}

/// After a decode error the signals that follow are answered as if the failed signal had
/// not come.
pub proof fn law_error_is_skipped(pasting: bool, signal: Signal, rest: Seq<Signal>)
    requires
        respond(pasting, signal) is Err,
    ensures
        answers(pasting, seq![signal] + rest).skip(1) == answers(
            pasting,
            rest,
        ),
        paste_after_all(pasting, seq![signal] + rest) == paste_after_all(pasting, rest),
{
    lemma_first_signal(pasting, signal, rest);
}

/// The answers to a run of signals are the answer to the first, then the answers to the
/// others from the state that the first has led to.
pub proof fn lemma_first_signal(pasting: bool, signal: Signal, rest: Seq<Signal>)
    ensures
        answers(pasting, seq![signal] + rest)[0] == respond(pasting, signal),
        answers(pasting, seq![signal] + rest).skip(1) == answers(
            paste_after(pasting, signal),
            rest,
        ),
        paste_after_all(pasting, seq![signal] + rest) == paste_after_all(
            paste_after(pasting, signal),
            rest,
        ),
{
    let all = seq![signal] + rest;
    let next = paste_after(pasting, signal);
    assert(all.take(0) =~= Seq::<Signal>::empty());
    assert forall|i: int| 0 <= i <= rest.len() implies paste_after_all(pasting, all.take(i + 1))
        == paste_after_all(next, rest.take(i)) by {
        lemma_state_after_first(pasting, signal, rest.take(i));
        assert(all.take(i + 1) =~= seq![signal] + rest.take(i));
    }
    assert(all.take(rest.len() as int + 1) =~= all);
    assert(rest.take(rest.len() as int) =~= rest);
    assert forall|i: int| 0 <= i < rest.len() implies answers(pasting, all).skip(1)[i] == answers(next, rest)[i] by {
        assert(all[i + 1] == rest[i]);
    }
    assert(answers(pasting, all).skip(1) =~= answers(next, rest));
}

/// The state after a run of signals is the state after the others, begun from the state
/// that the first has led to.
proof fn lemma_state_after_first(pasting: bool, signal: Signal, rest: Seq<Signal>)
    ensures
        paste_after_all(pasting, seq![signal] + rest) == paste_after_all(
            paste_after(pasting, signal),
            rest,
        ),
    decreases rest.len(),
{
    let all = seq![signal] + rest;
    if rest.len() == 0 {
        assert(all.drop_last() =~= Seq::<Signal>::empty());
        assert(paste_after_all(pasting, all.drop_last()) == pasting);
    } else {
        lemma_state_after_first(pasting, signal, rest.drop_last());
        assert(all.drop_last() =~= seq![signal] + rest.drop_last());
        assert(all.last() == rest.last());
    }
}

/// From the initial state, and after any number of signals, the `PasteBegin` events that
/// were given out are as many as the `PasteEnd` events, or one more, and one more exactly
/// where a paste is under way. So pastes never nest: between two `PasteBegin` events there is
/// a `PasteEnd`, and between two `PasteEnd` events a `PasteBegin`.
pub proof fn law_pastes_are_bracketed(signals: Seq<Signal>, n: int)
    requires
        0 <= n <= signals.len(),
    ensures
        open_pastes(answers(false, signals).take(n)) == if paste_after_all(
            false,
            signals.take(n),
        ) {
            1int
        } else {
            0int
        },
    decreases n,
{
    let given = answers(false, signals).take(n);
    if n == 0 {
        assert(signals.take(0) =~= Seq::<Signal>::empty());
    } else {
        law_pastes_are_bracketed(signals, n - 1);
        assert(given.drop_last() =~= answers(false, signals).take(n - 1));
        assert(signals.take(n).drop_last() =~= signals.take(n - 1));
        assert(signals.take(n).last() == signals[n - 1]);
        assert(given.last() == respond(
            paste_after_all(false, signals.take(n - 1)),
            signals[n - 1],
        ));
    }
}

/// The state after `n` signals follows from the state after `n - 1` and the last of them.
proof fn lemma_state_step(pasting: bool, signals: Seq<Signal>, n: int)
    requires
        0 < n <= signals.len(),
    ensures
        paste_after_all(pasting, signals.take(n)) == paste_after(
            paste_after_all(pasting, signals.take(n - 1)),
            signals[n - 1],
        ),
{
    assert(signals.take(n).drop_last() =~= signals.take(n - 1));
    assert(signals.take(n).last() == signals[n - 1]);
}

/// Where a paste is under way after `lo` signals and none after `hi`, a `PasteEnd` was given
/// out in between.
proof fn lemma_paste_was_ended(pasting: bool, signals: Seq<Signal>, lo: int, hi: int)
    requires
        0 <= lo <= hi <= signals.len(),
        paste_after_all(pasting, signals.take(lo)),
        !paste_after_all(pasting, signals.take(hi)),
    ensures
        exists|k: int|
            lo <= k < hi && #[trigger] answers(pasting, signals)[k] == Ok::<Event, DecodeError>(
                Event::PasteEnd,
            ),
    decreases hi - lo,
{
    if lo < hi {
        lemma_state_step(pasting, signals, hi);
        if paste_after_all(pasting, signals.take(hi - 1)) {
            assert(answers(pasting, signals)[hi - 1] == Ok::<Event, DecodeError>(Event::PasteEnd));
        } else {
            lemma_paste_was_ended(pasting, signals, lo, hi - 1);
        }
    }
}

/// Where no paste is under way after `lo` signals and one is after `hi`, a `PasteBegin` was
/// given out in between.
proof fn lemma_paste_was_begun(pasting: bool, signals: Seq<Signal>, lo: int, hi: int)
    requires
        0 <= lo <= hi <= signals.len(),
        !paste_after_all(pasting, signals.take(lo)),
        paste_after_all(pasting, signals.take(hi)),
    ensures
        exists|k: int|
            lo <= k < hi && #[trigger] answers(pasting, signals)[k] == Ok::<Event, DecodeError>(
                Event::PasteBegin,
            ),
    decreases hi - lo,
{
    if lo < hi {
        lemma_state_step(pasting, signals, hi);
        if !paste_after_all(pasting, signals.take(hi - 1)) {
            assert(answers(pasting, signals)[hi - 1] == Ok::<Event, DecodeError>(
                Event::PasteBegin,
            ));
        } else {
            lemma_paste_was_begun(pasting, signals, lo, hi - 1);
        }
    }
}

/// Pastes never nest, whatever the driver sends and whatever the state at the start:
/// between any two `PasteBegin` events that the decoder gives out it gives out a `PasteEnd`.
pub proof fn law_paste_end_between_begins(pasting: bool, signals: Seq<Signal>, i: int, j: int)
    requires
        0 <= i < j < signals.len(),
        answers(pasting, signals)[i] == Ok::<Event, DecodeError>(Event::PasteBegin),
        answers(pasting, signals)[j] == Ok::<Event, DecodeError>(Event::PasteBegin),
    ensures
        exists|k: int|
            i < k < j && #[trigger] answers(pasting, signals)[k] == Ok::<Event, DecodeError>(
                Event::PasteEnd,
            ),
{
    lemma_state_step(pasting, signals, i + 1);
    lemma_paste_was_ended(pasting, signals, i + 1, j);
}

/// No paste is ended twice: between any two `PasteEnd` events that the decoder gives out it
/// gives out a `PasteBegin`.
pub proof fn law_paste_begin_between_ends(pasting: bool, signals: Seq<Signal>, i: int, j: int)
    requires
        0 <= i < j < signals.len(),
        answers(pasting, signals)[i] == Ok::<Event, DecodeError>(Event::PasteEnd),
        answers(pasting, signals)[j] == Ok::<Event, DecodeError>(Event::PasteEnd),
    ensures
        exists|k: int|
            i < k < j && #[trigger] answers(pasting, signals)[k] == Ok::<Event, DecodeError>(
                Event::PasteBegin,
            ),
{
    lemma_state_step(pasting, signals, i + 1);
    lemma_paste_was_begun(pasting, signals, i + 1, j);
}

/// From the initial state no `PasteEnd` comes before the first `PasteBegin`.
pub proof fn law_paste_begins_first(signals: Seq<Signal>, j: int)
    requires
        0 <= j < signals.len(),
        answers(false, signals)[j] == Ok::<Event, DecodeError>(Event::PasteEnd),
    ensures
        exists|k: int|
            0 <= k < j && #[trigger] answers(false, signals)[k] == Ok::<Event, DecodeError>(
                Event::PasteBegin,
            ),
{
    assert(signals.take(0) =~= Seq::<Signal>::empty());
    lemma_paste_was_begun(false, signals, 0, j);
}

} // verus!
