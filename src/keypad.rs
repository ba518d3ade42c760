//! The host keyboard layout of the sixteen-key keypad.
use vstd::prelude::*;

verus! {

/// The keypad key that a host key name stands for: the four-by-four block of
/// keys from `1` to `V` on a QWERTY keyboard.
pub open spec fn key_of(name: Seq<char>) -> Option<u8> {
    if name.len() != 1 {
        None
    } else {
        match name[0] {
            '1' => Some(1u8),
            '2' => Some(2u8),
            '3' => Some(3u8),
            '4' => Some(12u8),
            'Q' => Some(4u8),
            'W' => Some(5u8),
            'E' => Some(6u8),
            'R' => Some(13u8),
            'A' => Some(7u8),
            'S' => Some(8u8),
            'D' => Some(9u8),
            'F' => Some(14u8),
            'Z' => Some(10u8),
            'X' => Some(0u8),
            'C' => Some(11u8),
            'V' => Some(15u8),
            _ => None,
        }
    }
}

/// Maps a host key name to its keypad key; keys outside the layout map to
/// nothing.
pub fn get_key(key: &str) -> (r: Option<u8>)
    ensures
        r == key_of(key@),
        r matches Some(k) ==> k < 16,
{
    if key.unicode_len() != 1 {
        return None;
    }
    let val: u8 = match key.get_char(0) {
        '1' => 1,
        '2' => 2,
        '3' => 3,
        '4' => 12,
        'Q' => 4,
        'W' => 5,
        'E' => 6,
        'R' => 13,
        'A' => 7,
        'S' => 8,
        'D' => 9,
        'F' => 14,
        'Z' => 10,
        'X' => 0,
        'C' => 11,
        'V' => 15,
        _ => return None,
    };
    Some(val)
}

} // verus!
