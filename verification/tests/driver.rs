use terminal_input::{
    escape_delay, Action, DecodeError, Event, InputState, KeyClass, KeyCodes, KeyInput, Modifiers,
    MouseMasks, MouseReport, RawMouse, Reading, Signal, MAX_ESCAPE_DELAY,
};

const CODES: KeyCodes = KeyCodes { mouse: 409, resize: 410, paste_begin: 2000, paste_end: 2001 };

const MASKS: MouseMasks =
    MouseMasks { shift: 1 << 26, ctrl: 1 << 25, alt: 1 << 27, motion: 1 << 28 };

#[test]
fn key_codes_are_sorted() {
    assert_eq!(CODES.classify(409), KeyClass::Mouse);
    assert_eq!(CODES.classify(410), KeyClass::Resize);
    assert_eq!(CODES.classify(2000), KeyClass::PasteBegin);
    assert_eq!(CODES.classify(2001), KeyClass::PasteEnd);
    assert_eq!(CODES.classify(259), KeyClass::Special(259));
    assert_eq!(CODES.classify(-7), KeyClass::Special(-7));
}

#[test]
fn shared_key_code_goes_to_the_first() {
    let codes = KeyCodes { mouse: 1, resize: 1, paste_begin: 2, paste_end: 2 };
    assert_eq!(codes.classify(1), KeyClass::Mouse);
    assert_eq!(codes.classify(2), KeyClass::PasteBegin);
}

#[test]
fn key_code_signals() {
    assert_eq!(Signal::from_key_code(&CODES, 409), None);
    assert_eq!(Signal::from_key_code(&CODES, 410), None);
    assert_eq!(Signal::from_key_code(&CODES, 2000), Some(Signal::PasteBegin));
    assert_eq!(Signal::from_key_code(&CODES, 2001), Some(Signal::PasteEnd));
    assert_eq!(Signal::from_key_code(&CODES, 265), Some(Signal::Special(265)));
}

#[test]
fn wide_characters() {
    assert_eq!(Signal::from_wide_char(0x41), Signal::Codepoint('A'));
    assert_eq!(Signal::from_wide_char(0), Signal::Codepoint('\u{0}'));
    assert_eq!(Signal::from_wide_char(0x65E5), Signal::Codepoint('日'));
    assert_eq!(Signal::from_wide_char(0xD7FF), Signal::Codepoint('\u{D7FF}'));
    assert_eq!(Signal::from_wide_char(0xD800), Signal::Unclassified);
    assert_eq!(Signal::from_wide_char(0xDFFF), Signal::Unclassified);
    assert_eq!(Signal::from_wide_char(0xE000), Signal::Codepoint('\u{E000}'));
    assert_eq!(Signal::from_wide_char(0x10FFFF), Signal::Codepoint('\u{10FFFF}'));
    assert_eq!(Signal::from_wide_char(0x110000), Signal::Unclassified);
    assert_eq!(Signal::from_wide_char(u32::MAX), Signal::Unclassified);
}

#[test]
fn sizes() {
    assert_eq!(Signal::from_size(40, 120), Signal::Resize { width: 120, height: 40 });
    assert_eq!(Signal::from_size(0, 0), Signal::Resize { width: 0, height: 0 });
    assert_eq!(
        Signal::from_size(i32::MAX, 1),
        Signal::Resize { width: 1, height: 0x7fff_ffff }
    );
    assert_eq!(Signal::from_size(-1, 120), Signal::Unclassified);
    assert_eq!(Signal::from_size(40, -1), Signal::Unclassified);
}

#[test]
fn held_modifiers_from_mask() {
    assert_eq!(MASKS.held(0), Modifiers::none());
    assert_eq!(MASKS.held(0b10), Modifiers::none());
    assert_eq!(MASKS.held(1 << 25), Modifiers::ctrl());
    assert_eq!(MASKS.held(1 << 26), Modifiers::shift());
    assert_eq!(MASKS.held(1 << 27), Modifiers::alt());
    assert_eq!(
        MASKS.held((1 << 25) | (1 << 27) | 0b10),
        Modifiers::ctrl().bitor(Modifiers::alt())
    );
    assert_eq!(
        MASKS.held((1 << 25) | (1 << 26) | (1 << 27)),
        Modifiers::ctrl().bitor(Modifiers::alt()).bitor(Modifiers::shift())
    );
}

#[test]
fn mouse_reports() {
    let buttons = (1 << 25) | 0b10;
    assert_eq!(
        MASKS.report(0, 10, 20, buttons),
        Signal::Mouse(MouseReport {
            device_id: 0,
            buttons,
            x: 10,
            y: 20,
            held: Modifiers::ctrl(),
            button_change: true,
        })
    );
    let moving = buttons | (1 << 28);
    assert_eq!(
        MASKS.report(2, 0, 0, moving),
        Signal::Mouse(MouseReport {
            device_id: 2,
            buttons: moving,
            x: 0,
            y: 0,
            held: Modifiers::ctrl(),
            button_change: false,
        })
    );
    assert_eq!(MASKS.report(-1, 10, 20, buttons), Signal::Unclassified);
    assert_eq!(MASKS.report(0, -1, 20, buttons), Signal::Unclassified);
    assert_eq!(MASKS.report(0, 10, -1, buttons), Signal::Unclassified);
}

#[test]
fn escape_delays() {
    assert_eq!(escape_delay(0), 0);
    assert_eq!(escape_delay(25), 25);
    assert_eq!(escape_delay(2_147_483_647), 2_147_483_647);
    assert_eq!(escape_delay(2_147_483_648), i32::MAX);
    assert_eq!(escape_delay(u128::MAX), i32::MAX);
    assert_eq!(MAX_ESCAPE_DELAY, i32::MAX);
}

fn press(modifiers: Modifiers, key: KeyInput) -> Option<Action> {
    Some(Action::Deliver(Ok(Event::KeyPress { modifiers, key, is_repeat: false })))
}

fn give(state: &mut InputState, reading: Reading) -> Option<Action> {
    state.on_reading(reading);
    state.poll()
}

fn drain(state: &mut InputState) -> Vec<Action> {
    let mut out = Vec::new();
    while let Some(action) = state.poll() {
        out.push(action);
    }
    out
}

fn key(modifiers: Modifiers, key: KeyInput) -> Action {
    Action::Deliver(Ok(Event::KeyPress { modifiers, key, is_repeat: false }))
}

#[test]
fn new_state_has_nothing_to_answer() {
    let mut state = InputState::new(CODES, MASKS);
    assert_eq!(state.codes, CODES);
    assert_eq!(state.masks, MASKS);
    assert_eq!(state.waiting_len(), 0);
    assert!(!state.decoder.in_paste());
    assert_eq!(state.poll(), None);
}

#[test]
fn readings_of_characters() {
    let mut state = InputState::new(CODES, MASKS);
    assert_eq!(
        give(&mut state, Reading::Char(0x61)),
        press(Modifiers::none(), KeyInput::Codepoint('a'))
    );
    assert_eq!(
        give(&mut state, Reading::Char(0x01)),
        press(Modifiers::ctrl(), KeyInput::Codepoint('a'))
    );
    assert_eq!(give(&mut state, Reading::Char(0xD800)), Some(Action::Deliver(Err(DecodeError))));
    assert_eq!(give(&mut state, Reading::Failed), Some(Action::Deliver(Err(DecodeError))));
    assert_eq!(
        give(&mut state, Reading::KeyCode(259)),
        press(Modifiers::none(), KeyInput::Special(259))
    );
    assert_eq!(state.waiting_len(), 0);
    assert_eq!(state.poll(), None);
}

#[test]
fn readings_of_a_paste() {
    let mut state = InputState::new(CODES, MASKS);
    assert_eq!(
        give(&mut state, Reading::KeyCode(2000)),
        Some(Action::Deliver(Ok(Event::PasteBegin)))
    );
    assert!(state.decoder.in_paste());
    assert_eq!(
        give(&mut state, Reading::Byte(0x01)),
        press(Modifiers::none(), KeyInput::Codepoint('\u{1}'))
    );
    assert_eq!(
        give(&mut state, Reading::KeyCode(2000)),
        Some(Action::Deliver(Err(DecodeError)))
    );
    assert_eq!(
        give(&mut state, Reading::KeyCode(2001)),
        Some(Action::Deliver(Ok(Event::PasteEnd)))
    );
    assert!(!state.decoder.in_paste());
    assert_eq!(
        give(&mut state, Reading::KeyCode(2001)),
        Some(Action::Deliver(Err(DecodeError)))
    );
    assert_eq!(
        give(&mut state, Reading::Byte(0x01)),
        press(Modifiers::ctrl(), KeyInput::Codepoint('a'))
    );
}

#[test]
fn mouse_is_fetched_then_decoded() {
    let mut state = InputState::new(CODES, MASKS);
    assert_eq!(give(&mut state, Reading::KeyCode(409)), Some(Action::FetchMouse));
    assert_eq!(state.waiting_len(), 0);
    let buttons = (1 << 25) | 0b10;
    assert_eq!(
        state.on_mouse(Some(RawMouse { id: 0, x: 4, y: 9, buttons })),
        Ok(Event::Mouse { device_id: 0, modifiers: Modifiers::ctrl(), buttons, x: 4, y: 9 })
    );
    let moving = buttons | (1 << 28);
    assert_eq!(
        state.on_mouse(Some(RawMouse { id: 0, x: 4, y: 9, buttons: moving })),
        Ok(Event::Mouse {
            device_id: 0,
            modifiers: Modifiers::none(),
            buttons: moving,
            x: 4,
            y: 9
        })
    );
    assert_eq!(state.on_mouse(None), Err(DecodeError));
    assert_eq!(state.on_mouse(Some(RawMouse { id: 0, x: -4, y: 9, buttons })), Err(DecodeError));
    assert_eq!(
        give(&mut state, Reading::Char(0x02)),
        press(Modifiers::ctrl(), KeyInput::Codepoint('b'))
    );
}

#[test]
fn size_is_fetched_then_decoded() {
    let mut state = InputState::new(CODES, MASKS);
    assert_eq!(give(&mut state, Reading::KeyCode(410)), Some(Action::FetchSize));
    assert_eq!(state.on_size(40, 120), Ok(Event::Resize { width: 120, height: 40 }));
    assert_eq!(state.on_size(-1, 120), Err(DecodeError));
    assert!(!state.decoder.in_paste());
}

#[test]
fn bytes_of_one_character() {
    let mut state = InputState::new(CODES, MASKS);
    assert_eq!(give(&mut state, Reading::Byte(b'a')), press(Modifiers::none(), KeyInput::Codepoint('a')));
    assert_eq!(give(&mut state, Reading::Byte(0xE6)), None);
    assert_eq!(give(&mut state, Reading::Byte(0x97)), None);
    assert_eq!(state.waiting_len(), 2);
    assert_eq!(
        give(&mut state, Reading::Byte(0xA5)),
        press(Modifiers::none(), KeyInput::Codepoint('日'))
    );
    assert_eq!(state.waiting_len(), 0);
    for byte in "😀".bytes().take(3) {
        assert_eq!(give(&mut state, Reading::Byte(byte)), None);
    }
    assert_eq!(
        give(&mut state, Reading::Byte(0x80)),
        press(Modifiers::none(), KeyInput::Codepoint('😀'))
    );
    assert_eq!(state.poll(), None);
}

#[test]
fn lone_continuation_byte_does_not_spoil_what_follows() {
    let mut state = InputState::new(CODES, MASKS);
    assert_eq!(
        give(&mut state, Reading::Byte(0x80)),
        press(Modifiers::none(), KeyInput::Byte(0x80))
    );
    assert_eq!(give(&mut state, Reading::Byte(0xC3)), None);
    assert_eq!(
        give(&mut state, Reading::Byte(0xA9)),
        press(Modifiers::none(), KeyInput::Codepoint('é'))
    );
    assert_eq!(
        give(&mut state, Reading::Byte(0x01)),
        press(Modifiers::ctrl(), KeyInput::Codepoint('a'))
    );
}

#[test]
fn sequence_cut_by_escape() {
    let mut state = InputState::new(CODES, MASKS);
    assert_eq!(give(&mut state, Reading::Byte(0xE6)), None);
    assert_eq!(give(&mut state, Reading::Byte(0x97)), None);
    state.on_reading(Reading::Byte(0x1B));
    assert_eq!(
        drain(&mut state),
        vec![
            key(Modifiers::none(), KeyInput::Byte(0xE6)),
            key(Modifiers::none(), KeyInput::Byte(0x97)),
            key(Modifiers::none(), KeyInput::Codepoint('\u{1b}')),
        ]
    );
    assert_eq!(state.waiting_len(), 0);
}

#[test]
fn sequence_cut_by_key_code() {
    let mut state = InputState::new(CODES, MASKS);
    assert_eq!(give(&mut state, Reading::Byte(0xF0)), None);
    assert_eq!(give(&mut state, Reading::Byte(0x9F)), None);
    state.on_reading(Reading::KeyCode(259));
    assert_eq!(
        drain(&mut state),
        vec![
            key(Modifiers::none(), KeyInput::Byte(0xF0)),
            key(Modifiers::none(), KeyInput::Byte(0x9F)),
            key(Modifiers::none(), KeyInput::Special(259)),
        ]
    );
    state.on_reading(Reading::Byte(0xC3));
    state.on_reading(Reading::KeyCode(409));
    assert_eq!(
        drain(&mut state),
        vec![key(Modifiers::none(), KeyInput::Byte(0xC3)), Action::FetchMouse]
    );
}

#[test]
fn answers_keep_the_order_of_the_readings() {
    let mut state = InputState::new(CODES, MASKS);
    for reading in [
        Reading::Byte(b'h'),
        Reading::Byte(0xC3),
        Reading::Byte(0xA9),
        Reading::KeyCode(2000),
        Reading::Byte(0x03),
        Reading::Failed,
        Reading::KeyCode(2001),
        Reading::Char(0x03),
        Reading::KeyCode(410),
        Reading::Byte(0xFF),
        Reading::Byte(0xE6),
    ] {
        state.on_reading(reading);
    }
    assert_eq!(
        drain(&mut state),
        vec![
            key(Modifiers::none(), KeyInput::Codepoint('h')),
            key(Modifiers::none(), KeyInput::Codepoint('é')),
            Action::Deliver(Ok(Event::PasteBegin)),
            key(Modifiers::none(), KeyInput::Codepoint('\u{3}')),
            Action::Deliver(Err(DecodeError)),
            Action::Deliver(Ok(Event::PasteEnd)),
            key(Modifiers::ctrl(), KeyInput::Codepoint('c')),
            Action::FetchSize,
            key(Modifiers::none(), KeyInput::Byte(0xFF)),
        ]
    );
    assert_eq!(state.waiting_len(), 1);
    assert_eq!(state.poll(), None);
}
