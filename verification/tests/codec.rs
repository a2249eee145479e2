use key_disclosure::codec::{
    decode_key_enc, decode_time_locked, encode_key_enc, encode_time_locked, KeyEncValues,
    TimeLockedValues,
};
use alloy_sol_types::private::{Bytes, FixedBytes};
use alloy_sol_types::{sol_data, SolType};
use key_disclosure::errors::SessionError;

type AbiLayout = (sol_data::FixedBytes<32>, sol_data::Bytes);

fn sample_values() -> TimeLockedValues {
    TimeLockedValues {
        before: b"0xbefore".to_vec(),
        after: b"0xafter".to_vec(),
        hash_private_inputs: b"0xhash".to_vec(),
        chacha_cipher: vec![1, 2, 3, 4, 5],
        reserved: Vec::new(),
    }
}

#[test]
fn time_locked_round_trip() {
    let v = sample_values();
    let bytes = encode_time_locked(&v);
    let back = decode_time_locked(&bytes).expect("encoded values must decode");
    assert_eq!(back.before, v.before);
    assert_eq!(back.after, v.after);
    assert_eq!(back.hash_private_inputs, v.hash_private_inputs);
    assert_eq!(back.chacha_cipher, v.chacha_cipher);
    assert_eq!(back.reserved, v.reserved);
}

#[test]
fn time_locked_layout_matches_tuple_serializer() {
    // The proving collaborator commits the tuple through a serializer with
    // this exact layout; the decoder must agree with it byte for byte.
    let tup: (String, String, String, Vec<u8>, String) = (
        "0xaaaa".to_string(),
        "0xbbbb".to_string(),
        "0xcccc".to_string(),
        vec![9, 8, 7],
        String::new(),
    );
    let bytes = bincode::serialize(&tup).expect("serializing the tuple");
    let v = decode_time_locked(&bytes).expect("serialized tuple must decode");
    assert_eq!(v.before, tup.0.as_bytes());
    assert_eq!(v.after, tup.1.as_bytes());
    assert_eq!(v.hash_private_inputs, tup.2.as_bytes());
    assert_eq!(v.chacha_cipher, tup.3);
    assert_eq!(v.reserved, tup.4.as_bytes());

    let encoded = encode_time_locked(&v);
    assert_eq!(encoded, bytes);
}

#[test]
fn truncated_time_locked_is_a_decode_error() {
    let bytes = encode_time_locked(&sample_values());
    let truncated = bytes[..bytes.len() - 1].to_vec();
    assert_eq!(
        decode_time_locked(&truncated),
        Err(SessionError::PublicValueDecodeError)
    );
    assert_eq!(
        decode_time_locked(&Vec::new()),
        Err(SessionError::PublicValueDecodeError)
    );
    let mut extended = bytes.clone();
    extended.push(0);
    assert_eq!(
        decode_time_locked(&extended),
        Err(SessionError::PublicValueDecodeError)
    );
}

#[test]
fn non_utf8_text_field_is_a_decode_error() {
    // The three commitment fields and the reserved field are text in the
    // versioned tuple: bytes that are not well-formed UTF-8 are a shape
    // mismatch, exactly as the tuple serializer treats them.
    let mut v = sample_values();
    v.before = vec![0xff, 0xfe];
    let bytes = encode_time_locked(&v);
    assert_eq!(
        decode_time_locked(&bytes),
        Err(SessionError::PublicValueDecodeError)
    );
    let reference: Result<(String, String, String, Vec<u8>, String), _> =
        bincode::deserialize(&bytes);
    assert!(reference.is_err());

    // The ciphertext field carries arbitrary bytes.
    let mut v2 = sample_values();
    v2.chacha_cipher = vec![0xff, 0xfe, 0x80];
    assert!(decode_time_locked(&encode_time_locked(&v2)).is_ok());
}

#[test]
fn multibyte_text_round_trips() {
    let mut v = sample_values();
    v.before = "h\u{e9}llo \u{2014} \u{2603} \u{1f388}".as_bytes().to_vec();
    let bytes = encode_time_locked(&v);
    let back = decode_time_locked(&bytes).expect("well-formed text must decode");
    assert_eq!(back.before, v.before);
}

#[test]
fn key_enc_round_trip() {
    let v = KeyEncValues { key_hash: vec![0x11; 32], key_cipher: (0u8..45).collect() };
    let bytes = encode_key_enc(&v);
    let back = decode_key_enc(&bytes).expect("encoded values must decode");
    assert_eq!(back.key_hash, v.key_hash);
    assert_eq!(back.key_cipher, v.key_cipher);

    let empty = KeyEncValues { key_hash: vec![0x22; 32], key_cipher: Vec::new() };
    let bytes = encode_key_enc(&empty);
    let back = decode_key_enc(&bytes).expect("an empty ciphertext must decode");
    assert_eq!(back.key_cipher, Vec::<u8>::new());
}

#[test]
fn key_enc_layout_matches_abi_encoder() {
    let hash = [0x5au8; 32];
    let cipher: Vec<u8> = (0u8..45).collect();
    let reference = <AbiLayout as SolType>::abi_encode_params(&(
        FixedBytes::<32>::from(hash),
        Bytes::from(cipher.clone()),
    ));

    let ours = encode_key_enc(&KeyEncValues { key_hash: hash.to_vec(), key_cipher: cipher.clone() });
    assert_eq!(ours, reference);

    let decoded = decode_key_enc(&reference).expect("the reference encoding must decode");
    assert_eq!(decoded.key_hash, hash.to_vec());
    assert_eq!(decoded.key_cipher, cipher);
}

#[test]
fn malformed_key_enc_is_a_decode_error() {
    let v = KeyEncValues { key_hash: vec![0x33; 32], key_cipher: vec![1, 2, 3] };
    let good = encode_key_enc(&v);

    // Too short.
    assert_eq!(
        decode_key_enc(&good[..95].to_vec()),
        Err(SessionError::PublicValueDecodeError)
    );
    // Offset word not 64.
    let mut bad_offset = good.clone();
    bad_offset[63] = 96;
    assert_eq!(
        decode_key_enc(&bad_offset),
        Err(SessionError::PublicValueDecodeError)
    );
    // Length word announcing more than is there.
    let mut bad_len = good.clone();
    bad_len[95] = 200;
    assert_eq!(
        decode_key_enc(&bad_len),
        Err(SessionError::PublicValueDecodeError)
    );
    // Nonzero padding.
    let mut bad_pad = good.clone();
    let last = bad_pad.len() - 1;
    bad_pad[last] = 1;
    assert_eq!(
        decode_key_enc(&bad_pad),
        Err(SessionError::PublicValueDecodeError)
    );
}
