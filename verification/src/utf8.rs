//! Reading signals off raw bytes, for a driver that hands over bytes in place of characters.
//!
//! The bytes are taken as UTF-8. A well-formed sequence is the character that it encodes. A
//! byte that begins no well-formed sequence is handed on as a raw byte, by itself, so that
//! the bytes after it are read afresh.

use crate::signal::Signal;
use vstd::prelude::*;
use vstd::utf8::{
    char_u32_cast, decode_first_scalar, encode_scalar, encode_utf8, encode_utf8_first_scalar,
    is_continuation_byte, length_of_first_scalar, valid_first_scalar,
};

verus! {

/// The number of bytes of the sequence that `lead` begins, or 0 where no well-formed
/// sequence begins with it: a continuation byte, a byte that could only begin an overlong
/// sequence (0xC0, 0xC1), or one that could only begin a number above 0x10FFFF (0xF5 and up).
pub open spec fn width_of(lead: u8) -> int {
    if lead <= 0x7F {
        1
    } else if 0xC2 <= lead <= 0xDF {
        2
    } else if 0xE0 <= lead <= 0xEF {
        3
    } else if 0xF0 <= lead <= 0xF4 {
        4
    } else {
        0
    }
}

/// No well-formed sequence begins with a byte for which `width_of` is 0.
pub proof fn lemma_no_sequence_from_stray_byte(bytes: Seq<u8>)
    requires
        bytes.len() > 0,
        width_of(bytes[0]) == 0,
    ensures
        !valid_first_scalar(bytes),
{
    let lead = bytes[0];
    if (lead == 0xC0 || lead == 0xC1) && bytes.len() >= 2 {
        let second = bytes[1];
        assert((((lead & 0x1F) as u32) << 6) | ((second & 0x3F) as u32) < 0x80) by (bit_vector)
            requires
                lead == 0xC0 || lead == 0xC1,
        ;
    }
    if 0xF5 <= lead <= 0xF7 && bytes.len() >= 4 {
        let second = bytes[1];
        let third = bytes[2];
        let fourth = bytes[3];
        assert((((lead & 0x07) as u32) << 18) | (((second & 0x3F) as u32) << 12) | (((third
            & 0x3F) as u32) << 6) | ((fourth & 0x3F) as u32) > 0x10FFFF) by (bit_vector)
            requires
                0xF5 <= lead <= 0xF7,
        ;
    }
}

/// Whether `second` can follow `lead` in a well-formed sequence: a continuation byte, and
/// one that makes the sequence neither overlong, nor a surrogate, nor a number above 0x10FFFF.
pub open spec fn second_fits(lead: u8, second: u8) -> bool {
    if lead == 0xE0 {
        0xA0 <= second <= 0xBF
    } else if lead == 0xED {
        0x80 <= second <= 0x9F
    } else if lead == 0xF0 {
        0x90 <= second <= 0xBF
    } else if lead == 0xF4 {
        0x80 <= second <= 0x8F
    } else {
        is_continuation_byte(second)
    }
}

/// No well-formed sequence has a second byte that does not fit its first.
pub proof fn lemma_no_sequence_with_unfit_second(bytes: Seq<u8>)
    requires
        bytes.len() >= 2,
        width_of(bytes[0]) >= 2,
        !second_fits(bytes[0], bytes[1]),
    ensures
        !valid_first_scalar(bytes),
{
    let lead = bytes[0];
    let second = bytes[1];
    if is_continuation_byte(second) && bytes.len() >= 3 {
        let third = bytes[2];
        if lead == 0xE0 {
            assert((((lead & 0x0F) as u32) << 12) | (((second & 0x3F) as u32) << 6) | ((third
                & 0x3F) as u32) < 0x800) by (bit_vector)
                requires
                    lead == 0xE0,
                    0x80 <= second <= 0x9F,
            ;
        }
        if lead == 0xED {
            assert(0xD800 <= (((lead & 0x0F) as u32) << 12) | (((second & 0x3F) as u32) << 6) | ((
            third & 0x3F) as u32) <= 0xDFFF) by (bit_vector)
                requires
                    lead == 0xED,
                    0xA0 <= second <= 0xBF,
            ;
        }
        if bytes.len() >= 4 {
            let fourth = bytes[3];
            if lead == 0xF0 {
                assert((((lead & 0x07) as u32) << 18) | (((second & 0x3F) as u32) << 12) | (((
                third & 0x3F) as u32) << 6) | ((fourth & 0x3F) as u32) < 0x10000) by (bit_vector)
                    requires
                        lead == 0xF0,
                        0x80 <= second <= 0x8F,
                ;
            }
            if lead == 0xF4 {
                assert((((lead & 0x07) as u32) << 18) | (((second & 0x3F) as u32) << 12) | (((
                third & 0x3F) as u32) << 6) | ((fourth & 0x3F) as u32) > 0x10FFFF) by (bit_vector)
                    requires
                        lead == 0xF4,
                        0x90 <= second <= 0xBF,
                ;
            }
        }
    }
}

/// Whether `bytes` is the start of a sequence that is not all there yet: fewer bytes than the
/// first of them asks for, the second, where it is there, one that fits the first, and each
/// byte after that a continuation byte.
pub open spec fn unfinished(bytes: Seq<u8>) -> bool {
    &&& 0 < bytes.len() < width_of(bytes[0])
    &&& bytes.len() >= 2 ==> second_fits(bytes[0], bytes[1])
    &&& forall|i: int| 1 <= i < bytes.len() ==> is_continuation_byte(#[trigger] bytes[i])
}

/// The first signal in `bytes`, with the number of bytes that it takes up.
///
/// Where `bytes` begins with the UTF-8 encoding of a character, that character. Where it is
/// empty, or the start of a sequence that more bytes may still complete, nothing yet. In
/// every other case the first byte cannot be completed into a character, and it is handed
/// on alone, as a raw byte.
pub open spec fn front_of(bytes: Seq<u8>) -> Option<(Signal, int)> {
    if bytes.len() == 0 {
        None
    } else if valid_first_scalar(bytes) {
        Some((Signal::Codepoint(decode_first_scalar(bytes) as char), length_of_first_scalar(bytes)))
    } else if unfinished(bytes) {
        None
    } else {
        Some((Signal::Byte(bytes[0]), 1))
    }
}

/// Whether `byte` is a continuation byte of UTF-8.
fn is_continuation(byte: u8) -> (yes: bool)
    ensures
        yes == is_continuation_byte(byte),
{
    0x80 <= byte && byte <= 0xBF
}

/// Whether `second` can follow `lead` in a well-formed sequence.
fn fits_as_second(lead: u8, second: u8) -> (yes: bool)
    ensures
        yes == second_fits(lead, second),
{
    if lead == 0xE0 {
        0xA0 <= second && second <= 0xBF
    } else if lead == 0xED {
        0x80 <= second && second <= 0x9F
    } else if lead == 0xF0 {
        0x90 <= second && second <= 0xBF
    } else if lead == 0xF4 {
        0x80 <= second && second <= 0x8F
    } else {
        is_continuation(second)
    }
}

/// Reads the first signal off `bytes` and says how many bytes it takes up. Returns `None`
/// where `bytes` is empty or ends inside a sequence that may still turn out well-formed.
pub fn front(bytes: &[u8]) -> (out: Option<(Signal, usize)>)
    ensures
        match front_of(bytes@) {
            Some((signal, used)) => out == Some((signal, used as usize)) && 1 <= used
                <= bytes.len(),
            None => out.is_none(),
        },
{
    let n = bytes.len();
    if n == 0 {
        return None;
    }
    let lead = bytes[0];
    if lead < 0x80 {
        assert((lead & 0x7F) as u32 == lead as u32) by (bit_vector)
            requires
                lead < 0x80,
        ;
        return Some((Signal::Codepoint(lead as char), 1));
    }
    let width: usize = if 0xC2 <= lead && lead <= 0xDF {
        2
    } else if 0xE0 <= lead && lead <= 0xEF {
        3
    } else if 0xF0 <= lead && lead <= 0xF4 {
        4
    } else {
        proof {
            lemma_no_sequence_from_stray_byte(bytes@);
        }
        return Some((Signal::Byte(lead), 1));
    };
    if n >= 2 && !fits_as_second(lead, bytes[1]) {
        proof {
            lemma_no_sequence_with_unfit_second(bytes@);
        }
        return Some((Signal::Byte(lead), 1));
    }
    if width >= 3 && n >= 3 && !is_continuation(bytes[2]) {
        return Some((Signal::Byte(lead), 1));
    }
    if width == 4 && n >= 4 && !is_continuation(bytes[3]) {
        return Some((Signal::Byte(lead), 1));
    }
    if n < width {
        return None;
    }
    let second = bytes[1];
    let (code, least): (u32, u32) = if width == 2 {
        assert((((lead & 0x1F) as u32) << 6) | ((second & 0x3F) as u32) <= 0x7FF) by (bit_vector);
        ((((lead & 0x1F) as u32) << 6) | ((second & 0x3F) as u32), 0x80)
    } else if width == 3 {
        let third = bytes[2];
        assert((((lead & 0x0F) as u32) << 12) | (((second & 0x3F) as u32) << 6) | ((third
            & 0x3F) as u32) <= 0xFFFF) by (bit_vector);
        (
            (((lead & 0x0F) as u32) << 12) | (((second & 0x3F) as u32) << 6) | ((third
                & 0x3F) as u32),
            0x800,
        )
    } else {
        let third = bytes[2];
        let fourth = bytes[3];
        (
            (((lead & 0x07) as u32) << 18) | (((second & 0x3F) as u32) << 12) | (((third
                & 0x3F) as u32) << 6) | ((fourth & 0x3F) as u32),
            0x10000,
        )
    };
    if code < least {
        return Some((Signal::Byte(lead), 1));
    }
    match char::from_u32(code) {
        Some(c) => Some((Signal::Codepoint(c), width)),
        None => Some((Signal::Byte(lead), 1)),
    }
}

/// The signals that can be read off `bytes`, one after the other, until nothing is left or
/// what is left is the start of a sequence that is not all there yet.
pub open spec fn signals_in(bytes: Seq<u8>) -> Seq<Signal>
    decreases bytes.len(),
{
    match front_of(bytes) {
        Some((signal, used)) => if 1 <= used <= bytes.len() {
            seq![signal] + signals_in(bytes.skip(used))
        } else {
            seq![]
        },
        None => seq![],
    }
}

/// A first byte is handed on as a raw byte only where nothing that may follow could
/// complete it: whatever bytes come after, no character begins there.
pub proof fn law_raw_byte_cannot_be_completed(bytes: Seq<u8>, tail: Seq<u8>)
    requires
        bytes.len() > 0,
        front_of(bytes) == Some((Signal::Byte(bytes[0]), 1int)),
    ensures
        !valid_first_scalar(bytes + tail),
{
    let all = bytes + tail;
    assert(all[0] == bytes[0]);
    if width_of(bytes[0]) == 0 {
        lemma_no_sequence_from_stray_byte(all);
    } else if bytes.len() >= 2 && !second_fits(bytes[0], bytes[1]) {
        assert(all[1] == bytes[1]);
        lemma_no_sequence_with_unfit_second(all);
    } else if bytes.len() < width_of(bytes[0]) {
        let i = choose|i: int| 1 <= i < bytes.len() && !is_continuation_byte(#[trigger] bytes[i]);
        assert(all[i] == bytes[i]);
    } else {
        assert(bytes.len() >= 2 ==> all[1] == bytes[1]);
        assert(bytes.len() >= 3 ==> all[2] == bytes[2]);
        assert(bytes.len() >= 4 ==> all[3] == bytes[3]);
    }
}

/// The decoder waits for more bytes only where more bytes can help: the start of a
/// sequence that is not all there yet can be completed to the encoding of a character.
pub proof fn law_unfinished_can_be_completed(bytes: Seq<u8>)
    requires
        unfinished(bytes),
    ensures
        exists|tail: Seq<u8>| #[trigger] valid_first_scalar(bytes + tail),
{
    let lead = bytes[0];
    let second = if bytes.len() >= 2 {
        bytes[1]
    } else if lead == 0xE0 {
        0xA0u8
    } else if lead == 0xF0 {
        0x90u8
    } else {
        0x80u8
    };
    let third = if bytes.len() >= 3 {
        bytes[2]
    } else {
        0x80u8
    };
    let fourth = 0x80u8;
    let whole = seq![lead, second, third, fourth];
    let tail = whole.skip(bytes.len() as int);
    assert(bytes + tail =~= whole);
    assert(second_fits(lead, second));
    if width_of(lead) == 2 {
        assert((((lead & 0x1F) as u32) << 6) | ((second & 0x3F) as u32) >= 0x80) by (bit_vector)
            requires
                0xC2 <= lead <= 0xDF,
        ;
        assert((((lead & 0x1F) as u32) << 6) | ((second & 0x3F) as u32) <= 0x7FF) by (bit_vector);
    } else if width_of(lead) == 3 {
        let code = (((lead & 0x0F) as u32) << 12) | (((second & 0x3F) as u32) << 6) | ((third
            & 0x3F) as u32);
        assert(0x800 <= code && !(0xD800 <= code <= 0xDFFF)) by (bit_vector)
            requires
                0xE0 <= lead <= 0xEF,
                0x80 <= second <= 0xBF,
                lead == 0xE0 ==> 0xA0 <= second,
                lead == 0xED ==> second <= 0x9F,
                code == (((lead & 0x0F) as u32) << 12) | (((second & 0x3F) as u32) << 6) | ((
                third & 0x3F) as u32),
        ;
    } else {
        let code = (((lead & 0x07) as u32) << 18) | (((second & 0x3F) as u32) << 12) | (((third
            & 0x3F) as u32) << 6) | ((fourth & 0x3F) as u32);
        assert(0x10000 <= code <= 0x10FFFF) by (bit_vector)
            requires
                0xF0 <= lead <= 0xF4,
                0x80 <= second <= 0xBF,
                lead == 0xF0 ==> 0x90 <= second,
                lead == 0xF4 ==> second <= 0x8F,
                code == (((lead & 0x07) as u32) << 18) | (((second & 0x3F) as u32) << 12) | (((
                third & 0x3F) as u32) << 6) | ((fourth & 0x3F) as u32),
        ;
    }
    assert(valid_first_scalar(bytes + tail));
}

/// An ASCII byte is the character with that number, by itself, whatever follows.
pub proof fn law_ascii_byte_is_its_character(byte: u8, rest: Seq<u8>)
    requires
        byte <= 0x7F,
    ensures
        front_of(seq![byte] + rest) == Some((Signal::Codepoint(byte as char), 1int)),
{
    let bytes = seq![byte] + rest;
    assert(bytes[0] == byte);
    assert((byte & 0x7F) as u32 == byte as u32) by (bit_vector)
        requires
            byte <= 0x7F,
    ;
}

/// A byte that begins no sequence is a raw byte by itself, whatever follows: what follows
/// is read as if that byte had not come.
pub proof fn law_stray_byte_is_alone(byte: u8, rest: Seq<u8>)
    requires
        width_of(byte) == 0,
    ensures
        front_of(seq![byte] + rest) == Some((Signal::Byte(byte), 1int)),
        signals_in(seq![byte] + rest) == seq![Signal::Byte(byte)] + signals_in(rest),
{
    let bytes = seq![byte] + rest;
    assert(bytes[0] == byte);
    assert(bytes.skip(1) =~= rest);
    lemma_no_sequence_from_stray_byte(bytes);
}

/// The start of a sequence that is followed by a byte that cannot continue it is cut
/// short: its first byte is a raw byte by itself.
pub proof fn law_cut_sequence(bytes: Seq<u8>, next: u8, rest: Seq<u8>)
    requires
        unfinished(bytes),
        !is_continuation_byte(next),
    ensures
        front_of(bytes.push(next) + rest) == Some((Signal::Byte(bytes[0]), 1int)),
{
    let all = bytes.push(next) + rest;
    assert(all[0] == bytes[0]);
    assert(all[bytes.len() as int] == next);
    assert forall|i: int| 1 <= i < bytes.len() implies is_continuation_byte(all[i]) by {
        assert(all[i] == bytes[i]);
    }
}

/// One signal for each character of `chars`, in order.
pub open spec fn codepoints_of(chars: Seq<char>) -> Seq<Signal>
    decreases chars.len(),
{
    if chars.len() == 0 {
        seq![]
    } else {
        seq![Signal::Codepoint(chars[0])] + codepoints_of(chars.drop_first())
    }
}

/// The encoding of a text is read back as its characters, one signal for each, in order.
pub proof fn law_encoded_text_reads_back(chars: Seq<char>)
    ensures
        signals_in(encode_utf8(chars)) == codepoints_of(chars),
    decreases chars.len(),
{
    let bytes = encode_utf8(chars);
    if chars.len() == 0 {
        assert(bytes.len() == 0);
        assert(front_of(bytes).is_none());
    } else {
        let first = chars[0];
        let others = chars.drop_first();
        let code = first as u32;
        encode_utf8_first_scalar(chars);
        char_u32_cast(first, code);
        let used = encode_scalar(code).len() as int;
        assert(bytes == encode_scalar(code) + encode_utf8(others));
        assert(bytes.skip(used) =~= encode_utf8(others));
        assert(front_of(bytes) == Some((Signal::Codepoint(first), used)));
        assert(1 <= used <= bytes.len());
        law_encoded_text_reads_back(others);
    }
}

} // verus!
