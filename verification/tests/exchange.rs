use key_disclosure::exchange::derive_exchange_keys;
use static_dh_ecdh::ecdh::ecdh::{KeyExchange, ToBytes, ECDHNISTP256};

#[test]
fn derivation_is_deterministic() {
    let (sk1, pk1) =
        derive_exchange_keys(&vec![12u8; 32], &vec![13u8; 32]).expect("the fixed seeds are accepted");
    let (sk2, pk2) =
        derive_exchange_keys(&vec![12u8; 32], &vec![13u8; 32]).expect("the fixed seeds are accepted");
    assert_eq!(sk1, sk2);
    assert_eq!(pk1, pk2);
    assert_eq!(sk1.len(), 32);
    assert_eq!(pk1.len(), 65);
    // The derivation expands the seed; it never returns the seed itself.
    assert_ne!(sk1, vec![12u8; 32]);
}

#[test]
fn derivation_matches_the_key_exchange_crate() {
    // For a seed the derivation accepts, the keys must be the ones the
    // key-exchange crate itself derives from that seed.
    let (sk, pk) =
        derive_exchange_keys(&vec![12u8; 32], &vec![13u8; 32]).expect("the fixed seeds are accepted");
    let sk_ref = ECDHNISTP256::generate_private_key([12u8; 32]);
    assert_eq!(sk, sk_ref.to_bytes().to_vec());
    let vendor_sk = ECDHNISTP256::generate_private_key([13u8; 32]);
    let pk_ref = ECDHNISTP256::generate_public_key(&vendor_sk);
    assert_eq!(pk, pk_ref.to_bytes().to_vec());
}

#[test]
fn different_seeds_give_different_keys() {
    let (sk1, pk1) =
        derive_exchange_keys(&vec![12u8; 32], &vec![13u8; 32]).expect("the fixed seeds are accepted");
    let (sk2, pk2) =
        derive_exchange_keys(&vec![14u8; 32], &vec![15u8; 32]).expect("the fixed seeds are accepted");
    assert_ne!(sk1, sk2);
    assert_ne!(pk1, pk2);
}
