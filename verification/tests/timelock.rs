use key_disclosure::timelock::bind_key_to_round;

#[test]
fn binding_produces_a_ciphertext() {
    // A real beacon public key (G1, 48 bytes).
    let pk = hex::decode(
        "8200fc249deb0148eb918d6e213980c5d01acd7fc251900d9260136da3b54836ce125172399ddc69c4e3e11429b62c11",
    )
    .unwrap();
    let key = vec![8u8; 32];
    let ciphertext = bind_key_to_round(&key, &pk, 1000).expect("binding must succeed");
    // The compressed point of the key's group plus two 16-byte blocks.
    assert_eq!(ciphertext.len(), pk.len() + 32);
}

#[test]
fn binding_rejects_a_malformed_public_key() {
    let key = vec![8u8; 32];
    assert!(bind_key_to_round(&key, &vec![0u8; 5], 1).is_none());
}
