use terminal_input::{DecodeError, Decoder, Event, KeyInput, Modifiers, MouseReport, Signal};

fn press(modifiers: Modifiers, key: KeyInput) -> Result<Event, DecodeError> {
    Ok(Event::KeyPress { modifiers, key, is_repeat: false })
}

#[test]
fn new_decoder_is_outside_paste() {
    assert!(!Decoder::new().in_paste());
}

#[test]
fn printable_ascii_passes_unchanged() {
    for code in 0x20u8..=0x7E {
        let c = code as char;
        let mut decoder = Decoder::new();
        assert_eq!(
            decoder.decode(Signal::Codepoint(c)),
            press(Modifiers::none(), KeyInput::Codepoint(c))
        );
        assert!(!decoder.in_paste());
    }
}

#[test]
fn unicode_passes_unchanged() {
    let mut decoder = Decoder::new();
    for c in ['é', 'ß', '日', '\u{1F600}', '\u{10FFFF}'] {
        assert_eq!(
            decoder.decode(Signal::Codepoint(c)),
            press(Modifiers::none(), KeyInput::Codepoint(c))
        );
    }
}

#[test]
fn ctrl_a_is_ctrl_with_a() {
    let mut decoder = Decoder::new();
    assert_eq!(
        decoder.decode(Signal::Codepoint('\u{1}')),
        Ok(Event::KeyPress {
            modifiers: Modifiers::ctrl(),
            key: KeyInput::Codepoint('a'),
            is_repeat: false,
        })
    );
}

#[test]
fn every_ctrl_letter_is_decoded() {
    let mut decoder = Decoder::new();
    for (i, letter) in ('a'..='z').enumerate() {
        let control = char::from_u32(i as u32 + 1).unwrap();
        assert_eq!(
            decoder.decode(Signal::Codepoint(control)),
            press(Modifiers::ctrl(), KeyInput::Codepoint(letter))
        );
    }
}

#[test]
fn other_control_characters_stand() {
    let mut decoder = Decoder::new();
    for c in ['\u{0}', '\u{1b}', '\u{1c}', '\u{1f}', '\u{7f}'] {
        assert_eq!(
            decoder.decode(Signal::Codepoint(c)),
            press(Modifiers::none(), KeyInput::Codepoint(c))
        );
    }
}

#[test]
fn ctrl_a_inside_paste_is_literal() {
    let mut decoder = Decoder::new();
    assert_eq!(decoder.decode(Signal::PasteBegin), Ok(Event::PasteBegin));
    assert!(decoder.in_paste());
    assert_eq!(
        decoder.decode(Signal::Codepoint('\u{1}')),
        press(Modifiers::none(), KeyInput::Codepoint('\u{1}'))
    );
    assert_eq!(
        decoder.decode(Signal::Byte(0x01)),
        press(Modifiers::none(), KeyInput::Byte(0x01))
    );
    assert_eq!(decoder.decode(Signal::PasteEnd), Ok(Event::PasteEnd));
    assert!(!decoder.in_paste());
    assert_eq!(
        decoder.decode(Signal::Codepoint('\u{1}')),
        press(Modifiers::ctrl(), KeyInput::Codepoint('a'))
    );
}

#[test]
fn key_press_follows_the_paste_state() {
    let mut decoder = Decoder::new();
    assert_eq!(
        decoder.key_press('\u{1a}'),
        Event::KeyPress {
            modifiers: Modifiers::ctrl(),
            key: KeyInput::Codepoint('z'),
            is_repeat: false
        }
    );
    assert_eq!(decoder.decode(Signal::PasteBegin), Ok(Event::PasteBegin));
    assert_eq!(
        decoder.key_press('\u{1a}'),
        Event::KeyPress {
            modifiers: Modifiers::none(),
            key: KeyInput::Codepoint('\u{1a}'),
            is_repeat: false
        }
    );
}

#[test]
fn lone_continuation_byte_is_a_byte() {
    let mut decoder = Decoder::new();
    assert_eq!(
        decoder.decode(Signal::Byte(0x80)),
        press(Modifiers::none(), KeyInput::Byte(0x80))
    );
    assert_eq!(
        decoder.decode(Signal::Codepoint('x')),
        press(Modifiers::none(), KeyInput::Codepoint('x'))
    );
    assert_eq!(
        decoder.decode(Signal::Codepoint('\u{3}')),
        press(Modifiers::ctrl(), KeyInput::Codepoint('c'))
    );
}

#[test]
fn special_key_code_passes_through() {
    let mut decoder = Decoder::new();
    for code in [0, 259, -1, i32::MAX, i32::MIN] {
        assert_eq!(
            decoder.decode(Signal::Special(code)),
            press(Modifiers::none(), KeyInput::Special(code))
        );
    }
}

fn report(held: Modifiers, button_change: bool) -> MouseReport {
    MouseReport { device_id: 3, buttons: 0x0200_0002, x: 17, y: 5, held, button_change }
}

#[test]
fn mouse_button_change_keeps_ctrl() {
    let mut decoder = Decoder::new();
    assert_eq!(
        decoder.decode(Signal::Mouse(report(Modifiers::ctrl(), true))),
        Ok(Event::Mouse {
            device_id: 3,
            modifiers: Modifiers::ctrl(),
            buttons: 0x0200_0002,
            x: 17,
            y: 5,
        })
    );
}

#[test]
fn mouse_motion_has_no_modifiers() {
    let mut decoder = Decoder::new();
    let held = Modifiers::ctrl().bitor(Modifiers::shift());
    assert_eq!(
        decoder.decode(Signal::Mouse(report(held, false))),
        Ok(Event::Mouse {
            device_id: 3,
            modifiers: Modifiers::none(),
            buttons: 0x0200_0002,
            x: 17,
            y: 5,
        })
    );
}

#[test]
fn resize_gives_the_new_size() {
    let mut decoder = Decoder::new();
    assert_eq!(
        decoder.decode(Signal::Resize { width: 120, height: 40 }),
        Ok(Event::Resize { width: 120, height: 40 })
    );
    assert!(!decoder.in_paste());
}

#[test]
fn unclassified_signal_is_a_decode_error() {
    let mut decoder = Decoder::new();
    assert_eq!(decoder.decode(Signal::Unclassified), Err(DecodeError));
}

#[test]
fn decoding_resumes_after_an_error() {
    let mut decoder = Decoder::new();
    assert_eq!(decoder.decode(Signal::Unclassified), Err(DecodeError));
    assert!(!decoder.in_paste());
    assert_eq!(
        decoder.decode(Signal::Codepoint('\u{1}')),
        press(Modifiers::ctrl(), KeyInput::Codepoint('a'))
    );
    assert_eq!(decoder.decode(Signal::PasteBegin), Ok(Event::PasteBegin));
    assert_eq!(decoder.decode(Signal::Unclassified), Err(DecodeError));
    assert!(decoder.in_paste());
    assert_eq!(
        decoder.decode(Signal::Codepoint('\u{1}')),
        press(Modifiers::none(), KeyInput::Codepoint('\u{1}'))
    );
}

#[test]
fn paste_markers_out_of_place_are_errors() {
    let mut decoder = Decoder::new();
    assert_eq!(decoder.decode(Signal::PasteEnd), Err(DecodeError));
    assert!(!decoder.in_paste());
    assert_eq!(decoder.decode(Signal::PasteBegin), Ok(Event::PasteBegin));
    assert_eq!(decoder.decode(Signal::PasteBegin), Err(DecodeError));
    assert!(decoder.in_paste());
    assert_eq!(decoder.decode(Signal::PasteEnd), Ok(Event::PasteEnd));
    assert_eq!(decoder.decode(Signal::PasteEnd), Err(DecodeError));
}

#[test]
fn paste_without_end_stays_open() {
    let mut decoder = Decoder::new();
    assert_eq!(decoder.decode(Signal::PasteBegin), Ok(Event::PasteBegin));
    for _ in 0..100 {
        assert_eq!(
            decoder.decode(Signal::Codepoint('\u{4}')),
            press(Modifiers::none(), KeyInput::Codepoint('\u{4}'))
        );
        assert!(decoder.in_paste());
    }
}

#[test]
fn mouse_and_resize_inside_paste() {
    let mut decoder = Decoder::new();
    assert_eq!(decoder.decode(Signal::PasteBegin), Ok(Event::PasteBegin));
    assert_eq!(
        decoder.decode(Signal::Resize { width: 80, height: 24 }),
        Ok(Event::Resize { width: 80, height: 24 })
    );
    assert_eq!(
        decoder.decode(Signal::Mouse(report(Modifiers::alt(), true))),
        Ok(Event::Mouse {
            device_id: 3,
            modifiers: Modifiers::alt(),
            buttons: 0x0200_0002,
            x: 17,
            y: 5,
        })
    );
    assert!(decoder.in_paste());
}

#[test]
fn decode_all_answers_in_order() {
    let signals = vec![
        Signal::Codepoint('h'),
        Signal::PasteEnd,
        Signal::PasteBegin,
        Signal::Codepoint('\u{1}'),
        Signal::PasteBegin,
        Signal::PasteEnd,
        Signal::Codepoint('\u{1}'),
        Signal::Unclassified,
        Signal::Resize { width: 120, height: 40 },
    ];
    let mut decoder = Decoder::new();
    let out = decoder.decode_all(&signals);
    assert_eq!(
        out,
        vec![
            press(Modifiers::none(), KeyInput::Codepoint('h')),
            Err(DecodeError),
            Ok(Event::PasteBegin),
            press(Modifiers::none(), KeyInput::Codepoint('\u{1}')),
            Err(DecodeError),
            Ok(Event::PasteEnd),
            press(Modifiers::ctrl(), KeyInput::Codepoint('a')),
            Err(DecodeError),
            Ok(Event::Resize { width: 120, height: 40 }),
        ]
    );
    assert!(!decoder.in_paste());
    let mut single = Decoder::new();
    let one_by_one: Vec<_> = signals.iter().map(|s| single.decode(*s)).collect();
    assert_eq!(out, one_by_one);
}

#[test]
fn pastes_never_nest() {
    let alphabet = [
        Signal::PasteBegin,
        Signal::PasteEnd,
        Signal::Codepoint('\u{1}'),
        Signal::Unclassified,
    ];
    for pick in 0u32..(1 << 12) {
        let signals: Vec<Signal> =
            (0..6).map(|i| alphabet[((pick >> (2 * i)) & 3) as usize]).collect();
        let mut decoder = Decoder::new();
        let mut open = 0i32;
        for answer in decoder.decode_all(&signals) {
            match answer {
                Ok(Event::PasteBegin) => open += 1,
                Ok(Event::PasteEnd) => open -= 1,
                _ => {}
            }
            assert!(open == 0 || open == 1);
        }
        assert_eq!(open == 1, decoder.in_paste());
    }
}
