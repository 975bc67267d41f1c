use chip8::{keypad_index, keypad_state};

#[test]
fn keypad_labels_map_to_hex_keys() {
    assert_eq!(keypad_index('1'), Some(0x1));
    assert_eq!(keypad_index('4'), Some(0xC));
    assert_eq!(keypad_index('Q'), Some(0x4));
    assert_eq!(keypad_index('R'), Some(0xD));
    assert_eq!(keypad_index('F'), Some(0xE));
    assert_eq!(keypad_index('V'), Some(0xF));
    assert_eq!(keypad_index('P'), None);
    assert_eq!(keypad_index('q'), None);
}

#[test]
fn keypad_state_marks_each_held_key() {
    let keys = keypad_state(&['Q', 'V', 'P', '2']);
    for k in 0..16 {
        assert_eq!(keys[k], k == 0x4 || k == 0xF || k == 0x2);
    }
    assert_eq!(keypad_state(&[]), [false; 16]);
}
