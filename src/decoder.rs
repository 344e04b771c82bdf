//! Scancode decoding, done by the pc-keyboard crate: bytes from the
//! keyboard's data port in, logical key events out.

use vstd::prelude::*;
use pc_keyboard::layouts::Us104Key;
use pc_keyboard::{DecodedKey, HandleControl, KeyCode, KeyEvent, Keyboard, ScancodeSet1};

verus! {

#[verifier::external_type_specification]
#[verifier::external_body]
pub struct ExKeyEvent(KeyEvent);

/// The scancode decoder: pc-keyboard's state machine for the US 104-key
/// layout and scancode set 1, with Ctrl passed through as a key of its own.
/// Verus refuses a declaration of the generic `Keyboard` type (its bounds
/// are outside traits), so it is held here, out of the proofs' sight.
#[verifier::external_body]
pub struct Decoder {
    kb: Keyboard<Us104Key, ScancodeSet1>,
}

/// A key that carries no character.
#[derive(Clone, Copy, Debug, PartialEq, Eq, Structural)]
pub enum RawKey {
    ArrowLeft,
    ArrowRight,
    ArrowUp,
    ArrowDown,
    Other,
}

/// A decoded keystroke: a character, or a key without one.
#[derive(Clone, Copy, Debug, PartialEq, Eq, Structural)]
pub enum Key {
    Unicode(char),
    Raw(RawKey),
}

/// Relies on pc_keyboard::Keyboard::new: a decoder in its start state.
#[verifier::external_body]
pub(crate) fn new_decoder() -> (r: Decoder) {
    Decoder { kb: Keyboard::new(Us104Key, ScancodeSet1, HandleControl::Ignore) }
}

/// Relies on pc_keyboard::Keyboard::add_byte: feeds one byte to the
/// decoder's state machine, which hands back a key event once a whole
/// sequence has come; an unknown byte gives none.
#[verifier::external_body]
fn add_byte(kb: &mut Decoder, byte: u8) -> (r: Option<KeyEvent>) {
    match kb.kb.add_byte(byte) {
        Ok(ev) => ev,
        Err(_) => None,
    }
}

/// Relies on pc_keyboard::Keyboard::process_keyevent: tracks the modifier
/// keys and turns a key event into a character or a raw key, if it gives one.
#[verifier::external_body]
fn process_keyevent(kb: &mut Decoder, ev: KeyEvent) -> (r: Option<Key>) {
    match kb.kb.process_keyevent(ev) {
        Some(DecodedKey::Unicode(c)) => Some(Key::Unicode(c)),
        Some(DecodedKey::RawKey(KeyCode::ArrowLeft)) => Some(Key::Raw(RawKey::ArrowLeft)),
        Some(DecodedKey::RawKey(KeyCode::ArrowRight)) => Some(Key::Raw(RawKey::ArrowRight)),
        Some(DecodedKey::RawKey(KeyCode::ArrowUp)) => Some(Key::Raw(RawKey::ArrowUp)),
        Some(DecodedKey::RawKey(KeyCode::ArrowDown)) => Some(Key::Raw(RawKey::ArrowDown)),
        Some(DecodedKey::RawKey(_)) => Some(Key::Raw(RawKey::Other)),
        None => None,
    }
}

/// Feeds one scancode byte to the decoder; a key comes out once the byte
/// completes a keystroke, none while a sequence is still open, and none for
/// a byte that does not fit (the decoder waits for the next one).
pub fn decode(kb: &mut Decoder, byte: u8) -> (r: Option<Key>) {
    match add_byte(kb, byte) {
        Some(ev) => process_keyevent(kb, ev),
        None => None,
    }
}

} // verus!
