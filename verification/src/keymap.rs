//! Physical key-code derivation: clients consume hardware key codes, not
//! key symbols, so keysyms are mapped through a fixed US-QWERTY table to
//! evdev codes; the value routed to the client is the evdev code plus
//! eight. Unmapped keysyms yield code zero (client-visible eight).

use vstd::prelude::*;

verus! {

/// The evdev code of a printable ASCII character under a US-QWERTY
/// layout: each key carries its unshifted and shifted character.
pub open spec fn spec_ascii_evdev(c: char) -> u32 {
    match c {
        '1' | '!' => 2u32,
        '2' | '@' => 3u32,
        '3' | '#' => 4u32,
        '4' | '$' => 5u32,
        '5' | '%' => 6u32,
        '6' | '^' => 7u32,
        '7' | '&' => 8u32,
        '8' | '*' => 9u32,
        '9' | '(' => 10u32,
        '0' | ')' => 11u32,
        '-' | '_' => 12u32,
        '=' | '+' => 13u32,
        'q' | 'Q' => 16u32,
        'w' | 'W' => 17u32,
        'e' | 'E' => 18u32,
        'r' | 'R' => 19u32,
        't' | 'T' => 20u32,
        'y' | 'Y' => 21u32,
        'u' | 'U' => 22u32,
        'i' | 'I' => 23u32,
        'o' | 'O' => 24u32,
        'p' | 'P' => 25u32,
        '[' | '{' => 26u32,
        ']' | '}' => 27u32,
        'a' | 'A' => 30u32,
        's' | 'S' => 31u32,
        'd' | 'D' => 32u32,
        'f' | 'F' => 33u32,
        'g' | 'G' => 34u32,
        'h' | 'H' => 35u32,
        'j' | 'J' => 36u32,
        'k' | 'K' => 37u32,
        'l' | 'L' => 38u32,
        ';' | ':' => 39u32,
        '\'' | '"' => 40u32,
        '`' | '~' => 41u32,
        '\\' | '|' => 43u32,
        'z' | 'Z' => 44u32,
        'x' | 'X' => 45u32,
        'c' | 'C' => 46u32,
        'v' | 'V' => 47u32,
        'b' | 'B' => 48u32,
        'n' | 'N' => 49u32,
        'm' | 'M' => 50u32,
        ',' | '<' => 51u32,
        '.' | '>' => 52u32,
        '/' | '?' => 53u32,
        _ => 0u32,
    }
}

/// The evdev code of a keysym: named keys by their fixed constants,
/// ASCII keysyms through the US-QWERTY table, anything else zero.
pub open spec fn spec_evdev_code(sym: u32) -> u32 {
    if sym == 0xff1b {
        1u32  // Escape
    } else if sym == 0xff0d {
        28u32  // Return
    } else if sym == 0xff09 {
        15u32  // Tab
    } else if sym == 0xff08 {
        14u32  // BackSpace
    } else if sym == 0x20 {
        57u32  // Space
    } else if sym == 0xff51 {
        105u32  // Left
    } else if sym == 0xff53 {
        106u32  // Right
    } else if sym == 0xff52 {
        103u32  // Up
    } else if sym == 0xff54 {
        108u32  // Down
    } else if sym == 0xff50 {
        102u32  // Home
    } else if sym == 0xff57 {
        107u32  // End
    } else if sym == 0xff55 {
        104u32  // Page up
    } else if sym == 0xff56 {
        109u32  // Page down
    } else if sym == 0xff63 {
        110u32  // Insert
    } else if sym == 0xffff {
        111u32  // Delete
    } else if sym < 128 {
        spec_ascii_evdev((sym as u8) as char)
    } else {
        0u32
    }
}

/// The physical code routed to the client: evdev code plus eight.
pub open spec fn spec_keycode(sym: u32) -> u32 {
    (spec_evdev_code(sym) + 8) as u32
}

/// Maps a keysym to the physical key code the client consumes.
pub fn keysym_to_keycode(keysym: u32) -> (r: u32)
    ensures
        r == spec_keycode(keysym),
{
    let evdev: u32 = match keysym {
        0xff1b => 1,
        0xff0d => 28,
        0xff09 => 15,
        0xff08 => 14,
        0x20 => 57,
        0xff51 => 105,
        0xff53 => 106,
        0xff52 => 103,
        0xff54 => 108,
        0xff50 => 102,
        0xff57 => 107,
        0xff55 => 104,
        0xff56 => 109,
        0xff63 => 110,
        0xffff => 111,
        _ => {
            if keysym < 128 {
                ascii_evdev((keysym as u8) as char)
            } else {
                0
            }
        },
    };
    evdev + 8
}

/// The US-QWERTY table, as executable code.
fn ascii_evdev(c: char) -> (r: u32)
    ensures
        r == spec_ascii_evdev(c),
{
    match c {
        '1' | '!' => 2,
        '2' | '@' => 3,
        '3' | '#' => 4,
        '4' | '$' => 5,
        '5' | '%' => 6,
        '6' | '^' => 7,
        '7' | '&' => 8,
        '8' | '*' => 9,
        '9' | '(' => 10,
        '0' | ')' => 11,
        '-' | '_' => 12,
        '=' | '+' => 13,
        'q' | 'Q' => 16,
        'w' | 'W' => 17,
        'e' | 'E' => 18,
        'r' | 'R' => 19,
        't' | 'T' => 20,
        'y' | 'Y' => 21,
        'u' | 'U' => 22,
        'i' | 'I' => 23,
        'o' | 'O' => 24,
        'p' | 'P' => 25,
        '[' | '{' => 26,
        ']' | '}' => 27,
        'a' | 'A' => 30,
        's' | 'S' => 31,
        'd' | 'D' => 32,
        'f' | 'F' => 33,
        'g' | 'G' => 34,
        'h' | 'H' => 35,
        'j' | 'J' => 36,
        'k' | 'K' => 37,
        'l' | 'L' => 38,
        ';' | ':' => 39,
        '\'' | '"' => 40,
        '`' | '~' => 41,
        '\\' | '|' => 43,
        'z' | 'Z' => 44,
        'x' | 'X' => 45,
        'c' | 'C' => 46,
        'v' | 'V' => 47,
        'b' | 'B' => 48,
        'n' | 'N' => 49,
        'm' | 'M' => 50,
        ',' | '<' => 51,
        '.' | '>' => 52,
        '/' | '?' => 53,
        _ => 0,
    }
}

} // verus!
