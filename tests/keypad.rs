use chip8::keypad::{handle_key_events, keypad_index};

#[test]
fn keypad_layout() {
    assert_eq!(keypad_index('1'), Some(0x1));
    assert_eq!(keypad_index('4'), Some(0xC));
    assert_eq!(keypad_index('Q'), Some(0x4));
    assert_eq!(keypad_index('R'), Some(0xD));
    assert_eq!(keypad_index('X'), Some(0x0));
    assert_eq!(keypad_index('V'), Some(0xF));
    assert_eq!(keypad_index('P'), None);
}

#[test]
fn snapshot_of_held_keys() {
    let keys = handle_key_events(&vec!['X', 'P', 'F', 'X']);
    let mut expected = [false; 16];
    expected[0x0] = true;
    expected[0xE] = true;
    assert_eq!(keys, expected);
    assert_eq!(handle_key_events(&vec![]), [false; 16]);
}
