//! Which keyboard keys stand for the sixteen hexadecimal keys.
use vstd::prelude::*;

use crate::machine::KEY_COUNT;

verus! {

/// The hexadecimal key that the keyboard key labelled `label` stands for, if any.
pub open spec fn keypad_key(label: char) -> Option<usize> {
    match label {
        '1' => Some(0x1usize),
        '2' => Some(0x2usize),
        '3' => Some(0x3usize),
        '4' => Some(0xCusize),
        'Q' => Some(0x4usize),
        'W' => Some(0x5usize),
        'R' => Some(0xDusize),
        'A' => Some(0x7usize),
        'S' => Some(0x8usize),
        'D' => Some(0x9usize),
        'F' => Some(0xEusize),
        'Z' => Some(0xAusize),
        'C' => Some(0xBusize),
        'V' => Some(0xFusize),
        _ => None,
    }
}

/// The hexadecimal key for the keyboard key labelled `label`.
pub fn keypad_index(label: char) -> (r: Option<usize>)
    ensures
        r == keypad_key(label),
        r matches Some(k) ==> k < KEY_COUNT,
{
    match label {
        '1' => Some(0x1),
        '2' => Some(0x2),
        '3' => Some(0x3),
        '4' => Some(0xC),
        'Q' => Some(0x4),
        'W' => Some(0x5),
        'R' => Some(0xD),
        'A' => Some(0x7),
        'S' => Some(0x8),
        'D' => Some(0x9),
        'F' => Some(0xE),
        'Z' => Some(0xA),
        'C' => Some(0xB),
        'V' => Some(0xF),
        _ => None,
    }
}

/// The key sample for a set of held keyboard keys: key `k` is held exactly
/// when some held label stands for it.
pub fn keypad_state(labels: &[char]) -> (r: [bool; 16])
    ensures
        forall|k: int|
            0 <= k < KEY_COUNT ==> #[trigger] r@[k] == exists|j: int|
                0 <= j < labels@.len() && keypad_key(#[trigger] labels@[j]) == Some(k as usize),
{
    let mut keys = [false; 16];
    let mut j: usize = 0;
    while j < labels.len()
        invariant
            j <= labels@.len(),
            forall|k: int|
                0 <= k < KEY_COUNT ==> #[trigger] keys@[k] == exists|i: int|
                    0 <= i < j && keypad_key(#[trigger] labels@[i]) == Some(k as usize),
        decreases labels.len() - j,
    {
        if let Some(k) = keypad_index(labels[j]) {
            keys[k] = true;
        }
        assert forall|k: int| 0 <= k < KEY_COUNT implies #[trigger] keys@[k] == exists|i: int|
            0 <= i < j + 1 && keypad_key(#[trigger] labels@[i]) == Some(k as usize) by {
            if keypad_key(labels@[j as int]) == Some(k as usize) {
                assert(0 <= j < j + 1);
            }
        }
        j = j + 1;
    }
    keys
}

} // verus!
