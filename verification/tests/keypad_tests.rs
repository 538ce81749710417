use chip8::keypad::{key_mask, keypad_state, HostKey};

#[test]
fn key_layout() {
    assert_eq!(key_mask(HostKey::Num1), 1);
    assert_eq!(key_mask(HostKey::Num4), 1 << 3);
    assert_eq!(key_mask(HostKey::Q), 1 << 4);
    assert_eq!(key_mask(HostKey::F), 1 << 0xB);
    assert_eq!(key_mask(HostKey::V), 1 << 0xF);
    assert_eq!(key_mask(HostKey::Other), 0);
}

#[test]
fn keypad_collects_held_keys() {
    assert_eq!(keypad_state(&vec![]), 0);
    assert_eq!(keypad_state(&vec![HostKey::Other]), 0);
    assert_eq!(keypad_state(&vec![HostKey::W, HostKey::Z, HostKey::Other]), (1 << 5) | (1 << 0xC));
    assert_eq!(keypad_state(&vec![HostKey::W, HostKey::W]), 1 << 5);
}
