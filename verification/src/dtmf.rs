//! DTMF keypad tables: which row/column tone pair each dialable digit
//! keys, in integer hertz. The oscillators that play the pair live
//! outside the verified core.

use vstd::prelude::*;

verus! {

/// Row tone of keypad row `r` (0..=3), in hertz.
pub open spec fn dtmf_row_freq(r: int) -> u32 {
    if r == 0 {
        697u32
    } else if r == 1 {
        770u32
    } else if r == 2 {
        852u32
    } else {
        941u32
    }
}

/// Column tone of keypad column `c` (0..=3), in hertz.
pub open spec fn dtmf_col_freq(c: int) -> u32 {
    if c == 0 {
        1209u32
    } else if c == 1 {
        1336u32
    } else if c == 2 {
        1477u32
    } else {
        1633u32
    }
}

/// Keypad position of a dialable character: row and column on the
/// 4x4 grid, or nothing for a character that keys no tone.
pub open spec fn spec_dtmf_indices(digit: char) -> Option<(u8, u8)> {
    if digit == '1' {
        Some((0u8, 0u8))
    } else if digit == '2' {
        Some((0u8, 1u8))
    } else if digit == '3' {
        Some((0u8, 2u8))
    } else if digit == 'A' {
        Some((0u8, 3u8))
    } else if digit == '4' {
        Some((1u8, 0u8))
    } else if digit == '5' {
        Some((1u8, 1u8))
    } else if digit == '6' {
        Some((1u8, 2u8))
    } else if digit == 'B' {
        Some((1u8, 3u8))
    } else if digit == '7' {
        Some((2u8, 0u8))
    } else if digit == '8' {
        Some((2u8, 1u8))
    } else if digit == '9' {
        Some((2u8, 2u8))
    } else if digit == 'C' {
        Some((2u8, 3u8))
    } else if digit == '*' {
        Some((3u8, 0u8))
    } else if digit == '0' {
        Some((3u8, 1u8))
    } else if digit == '#' {
        Some((3u8, 2u8))
    } else if digit == 'D' {
        Some((3u8, 3u8))
    } else {
        None
    }
}

/// Keypad position of a dialable character.
pub fn dtmf_indices(digit: char) -> (r: Option<(u8, u8)>)
    ensures
        r == spec_dtmf_indices(digit),
{
    match digit {
        '1' => Some((0, 0)),
        '2' => Some((0, 1)),
        '3' => Some((0, 2)),
        'A' => Some((0, 3)),
        '4' => Some((1, 0)),
        '5' => Some((1, 1)),
        '6' => Some((1, 2)),
        'B' => Some((1, 3)),
        '7' => Some((2, 0)),
        '8' => Some((2, 1)),
        '9' => Some((2, 2)),
        'C' => Some((2, 3)),
        '*' => Some((3, 0)),
        '0' => Some((3, 1)),
        '#' => Some((3, 2)),
        'D' => Some((3, 3)),
        _ => None,
    }
}

/// The tone pair a dialable character keys: (row, column) in hertz.
pub fn dtmf_frequencies(digit: char) -> (r: Option<(u32, u32)>)
    ensures
        r == match spec_dtmf_indices(digit) {
            Some(rc) => Some((dtmf_row_freq(rc.0 as int), dtmf_col_freq(rc.1 as int))),
            None => None::<(u32, u32)>,
        },
{
    match dtmf_indices(digit) {
        Some((row, col)) => {
            let rf = if row == 0 {
                697
            } else if row == 1 {
                770
            } else if row == 2 {
                852
            } else {
                941
            };
            let cf = if col == 0 {
                1209
            } else if col == 1 {
                1336
            } else if col == 2 {
                1477
            } else {
                1633
            };
            Some((rf, cf))
        },
        None => None,
    }
}

} // verus!
