use key_disclosure::codec::TimeLockedValues;
use key_disclosure::fixtures::{build_key_exchange_fixture, build_time_lock_fixture};

#[test]
fn key_exchange_fixture_renders_hex() {
    let fixture = build_key_exchange_fixture(
        &vec![0xab, 0x01],
        &vec![0xde, 0xad, 0xbe, 0xef],
        "vkey-id".to_string(),
        &vec![0x00, 0x0f, 0xf0],
        "0xpublic".to_string(),
        "0xproof".to_string(),
    );
    assert_eq!(fixture.local_sk, "ab01");
    assert_eq!(fixture.vendor_pk, "deadbeef");
    assert_eq!(fixture.key_hash, "000ff0");
    assert_eq!(fixture.vkey, "vkey-id");
    assert_eq!(fixture.public_values, "0xpublic");
    assert_eq!(fixture.proof_bytes, "0xproof");
    // The rendering agrees with the hex encoder the harness itself uses.
    assert_eq!(fixture.vendor_pk, hex::encode([0xde, 0xad, 0xbe, 0xef]));
}

#[test]
fn time_lock_fixture_carries_every_artifact() {
    let values = TimeLockedValues {
        before: b"b".to_vec(),
        after: b"a".to_vec(),
        hash_private_inputs: b"h".to_vec(),
        chacha_cipher: vec![4, 5],
        reserved: Vec::new(),
    };
    let fixture = build_time_lock_fixture(
        vec![1; 32],
        vec![2; 12],
        77,
        values,
        vec![9, 9, 9],
        "calldata".to_string(),
        "settings".to_string(),
        "vkey-id".to_string(),
    );
    assert_eq!(fixture.key, vec![1; 32]);
    assert_eq!(fixture.nonce, vec![2; 12]);
    assert_eq!(fixture.round, 77);
    assert_eq!(fixture.before, b"b".to_vec());
    assert_eq!(fixture.after, b"a".to_vec());
    assert_eq!(fixture.hash_private_inputs, b"h".to_vec());
    assert_eq!(fixture.chacha_cipher, vec![4, 5]);
    assert_eq!(fixture.tlock_cipher, vec![9, 9, 9]);
    assert_eq!(fixture.calldata, "calldata");
    assert_eq!(fixture.blockchain_settings, "settings");
    assert_eq!(fixture.vkey, "vkey-id");
}
