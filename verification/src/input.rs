use vstd::prelude::*;

verus! {

/// InputModule retrieves the keys from the hardware or software input
/// control module.
pub trait InputModule {
    /// Returns the key value of the corresponding pressed key.
    /// None if no key is pressed.
    fn get_key_pressed(&mut self) -> Option<u16>;
}

/// NoInput always returns none when queried for input.
#[derive(Clone)]
pub struct NoInput;

impl InputModule for NoInput {
    fn get_key_pressed(&mut self) -> Option<u16> {
        None
    }
}

/// The CHIP-8 key code that a lowercase keyboard character stands for: the
/// conventional QWERTY layout of the 16-key pad. Characters outside the
/// layout mean no key.
pub open spec fn key_code_of(character: char) -> Option<u16> {
    if character == '1' {
        Some(1u16)
    } else if character == '2' {
        Some(2u16)
    } else if character == '3' {
        Some(3u16)
    } else if character == '4' {
        Some(0xCu16)
    } else if character == 'q' {
        Some(4u16)
    } else if character == 'w' {
        Some(5u16)
    } else if character == 'e' {
        Some(6u16)
    } else if character == 'r' {
        Some(0xDu16)
    } else if character == 'a' {
        Some(7u16)
    } else if character == 's' {
        Some(8u16)
    } else if character == 'd' {
        Some(9u16)
    } else if character == 'f' {
        Some(0xEu16)
    } else if character == 'z' {
        Some(0xAu16)
    } else if character == 'x' {
        Some(0u16)
    } else if character == 'c' {
        Some(0xBu16)
    } else if character == 'v' {
        Some(0xFu16)
    } else {
        None
    }
}

/// Maps a lowercase keyboard character to the CHIP-8 key code it stands for.
pub fn map_key_char(character: char) -> (r: Option<u16>)
    ensures
        r == key_code_of(character),
{
    match character {
        '1' => Some(1),
        '2' => Some(2),
        '3' => Some(3),
        '4' => Some(0xC),
        'q' => Some(4),
        'w' => Some(5),
        'e' => Some(6),
        'r' => Some(0xD),
        'a' => Some(7),
        's' => Some(8),
        'd' => Some(9),
        'f' => Some(0xE),
        'z' => Some(0xA),
        'x' => Some(0),
        'c' => Some(0xB),
        'v' => Some(0xF),
        _ => None,
    }
}

} // verus!
