use key_disclosure::errors::SessionError;
use key_disclosure::keys::{generate_key, generate_nonce, KeySlot, KEY_LEN, NONCE_LEN};

#[test]
fn key_continuity_across_sessions() {
    // The generating session writes the slot; a later session loads it and
    // must see the exact same bytes.
    let key = generate_key();
    let mut slot = KeySlot::empty();
    slot.store(key.clone());
    let loaded = slot.load().expect("a stored key must load");
    assert_eq!(loaded, key);
}

#[test]
fn empty_slot_reports_key_not_found() {
    let slot = KeySlot::empty();
    assert_eq!(slot.load(), Err(SessionError::KeyNotFound));
}

#[test]
fn wrong_length_reports_mismatch() {
    let mut slot = KeySlot::empty();
    slot.store(vec![7u8; KEY_LEN - 1]);
    assert_eq!(slot.load(), Err(SessionError::KeyLengthMismatch));
    slot.store(vec![7u8; KEY_LEN + 1]);
    assert_eq!(slot.load(), Err(SessionError::KeyLengthMismatch));
    slot.store(Vec::new());
    assert_eq!(slot.load(), Err(SessionError::KeyLengthMismatch));
}

#[test]
fn generated_material_has_fixed_lengths() {
    assert_eq!(generate_key().len(), KEY_LEN);
    assert_eq!(generate_nonce().len(), NONCE_LEN);
}

#[test]
fn generated_keys_are_fresh() {
    // Two independent generations agreeing would mean the source is not
    // random at all.
    assert_ne!(generate_key(), generate_key());
}
