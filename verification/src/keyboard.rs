//! The keyboard: the port at which scan codes arrive, and the characters of a
//! US keyboard for the scan codes of set 1.
use vstd::prelude::*;

verus! {

/// The port from which a scan code is read.
pub const PORT: u16 = 0x60;

/// The character of each key, by scan code; 0 for a key without one.
pub const TABLE: [u8; 128] = [
    0, 27, 49, 50, 51, 52, 53, 54, 55, 56, 57, 48, 45, 61, 0, 9,
    113, 119, 101, 114, 116, 121, 117, 105, 111, 112, 91, 93, 10, 0, 97, 115,
    100, 102, 103, 104, 106, 107, 108, 59, 39, 96, 0, 92, 122, 120, 99, 118,
    98, 110, 109, 44, 46, 47, 0, 42, 0, 32, 0, 0, 0, 0, 0, 0,
    0, 0, 0, 0, 0, 0, 0, 0, 0, 0, 45, 0, 0, 0, 43, 0,
    0, 0, 0, 0, 0, 0, 0, 0, 0, 0, 0, 0, 0, 0, 0, 0,
    0, 0, 0, 0, 0, 0, 0, 0, 0, 0, 0, 0, 0, 0, 0, 0,
    0, 0, 0, 0, 0, 0, 0, 0, 0, 0, 0, 0, 0, 0, 0, 0,
];

/// What a scan code says: which key, whether it was let go, and the key's
/// character.
#[derive(Debug, Copy, Clone, PartialEq, Eq)]
pub struct KeyEvent {
    pub key: u8,
    pub release: bool,
    pub byte: u8,
}

/// The event that the scan code `code` stands for: the low seven bits are the
/// key, the top bit is set when the key is let go.
pub open spec fn spec_decode(code: u8) -> KeyEvent {
    KeyEvent { key: code % 128, release: code >= 128, byte: TABLE@[(code % 128) as int] }
}

#[verifier::when_used_as_spec(spec_decode)]
pub fn decode(code: u8) -> (event: KeyEvent)
    ensures
        event == spec_decode(code),
{
    assert(code & 0x7F == code % 128) by (bit_vector);
    assert((code & 0x80 != 0) <==> code >= 128) by (bit_vector);
    let key = code & 0x7F;
    KeyEvent { key, release: code & 0x80 != 0, byte: TABLE[key as usize] }
}

} // verus!
