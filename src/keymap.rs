use vstd::prelude::*;

verus! {

/// The keypad key that a keyboard key stands for, in the usual layout:
///
/// ```text
/// 1 2 3 4      1 2 3 C
/// q w e r  ->  4 5 6 D
/// a s d f      7 8 9 E
/// z x c v      A 0 B F
/// ```
pub open spec fn key_of(symbol: char) -> Option<u8> {
    if symbol == '1' {
        Some(0x1u8)
    } else if symbol == '2' {
        Some(0x2u8)
    } else if symbol == '3' {
        Some(0x3u8)
    } else if symbol == '4' {
        Some(0xCu8)
    } else if symbol == 'q' {
        Some(0x4u8)
    } else if symbol == 'w' {
        Some(0x5u8)
    } else if symbol == 'e' {
        Some(0x6u8)
    } else if symbol == 'r' {
        Some(0xDu8)
    } else if symbol == 'a' {
        Some(0x7u8)
    } else if symbol == 's' {
        Some(0x8u8)
    } else if symbol == 'd' {
        Some(0x9u8)
    } else if symbol == 'f' {
        Some(0xEu8)
    } else if symbol == 'z' {
        Some(0xAu8)
    } else if symbol == 'x' {
        Some(0x0u8)
    } else if symbol == 'c' {
        Some(0xBu8)
    } else if symbol == 'v' {
        Some(0xFu8)
    } else {
        None
    }
}

/// The keypad key for the keyboard key that types `symbol` (lower case), if any.
pub fn keypad_key(symbol: char) -> (r: Option<u8>)
    ensures
        r == key_of(symbol),
        r matches Some(k) ==> k < 16,
{
    match symbol {
        '1' => Some(0x1),
        '2' => Some(0x2),
        '3' => Some(0x3),
        '4' => Some(0xC),
        'q' => Some(0x4),
        'w' => Some(0x5),
        'e' => Some(0x6),
        'r' => Some(0xD),
        'a' => Some(0x7),
        's' => Some(0x8),
        'd' => Some(0x9),
        'f' => Some(0xE),
        'z' => Some(0xA),
        'x' => Some(0x0),
        'c' => Some(0xB),
        'v' => Some(0xF),
        _ => None,
    }
}

} // verus!
