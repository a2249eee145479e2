//! Verifier-facing fixtures: one structured record per disclosure path,
//! combining the session's artifacts, written once and treated as immutable.
//! Fields meant to be portable are rendered as lowercase hex strings; only
//! fields the verifier expects raw stay raw bytes.

use vstd::prelude::*;

use crate::codec::TimeLockedValues;

verus! {

/// The lowercase hex digit of a nibble.
pub open spec fn spec_hex_digit(n: u8) -> char
    recommends
        n < 16,
{
    if n < 10 {
        ((n + 48) as u8) as char
    } else {
        ((n + 87) as u8) as char
    }
}

/// The lowercase hex rendering of bytes: two digits per byte, high nibble
/// first.
pub open spec fn spec_hex(b: Seq<u8>) -> Seq<char> {
    Seq::new(
        2 * b.len(),
        |i: int|
            if i % 2 == 0 {
                spec_hex_digit(b[i / 2] >> 4)
            } else {
                spec_hex_digit(b[i / 2] & 0xf)
            },
    )
}

/// Relies on hex::encode: each input byte becomes two lowercase hex digits,
/// high nibble first.
#[verifier::external_body]
pub(crate) fn hex_encode(b: &Vec<u8>) -> (r: String)
    ensures
        r@ == spec_hex(b@),
{
    hex::encode(b.as_slice())
}

/// The fixture of the time-delayed path: the session's key material, the
/// disclosure round, the committed public values, both ciphertexts, the
/// plaintext inputs as the caller supplied them, and the verifying-key
/// identifier.
pub struct TimeLockFixture {
    pub key: Vec<u8>,
    pub nonce: Vec<u8>,
    pub round: u64,
    pub before: Vec<u8>,
    pub after: Vec<u8>,
    pub hash_private_inputs: Vec<u8>,
    pub chacha_cipher: Vec<u8>,
    pub tlock_cipher: Vec<u8>,
    pub calldata: String,
    pub blockchain_settings: String,
    pub vkey: String,
}

/// Assemble the time-delayed fixture from the session's artifacts: the
/// committed fields come from the decoded public values unchanged, and
/// everything else from the session, unchanged.
pub fn build_time_lock_fixture(
    key: Vec<u8>,
    nonce: Vec<u8>,
    round: u64,
    values: TimeLockedValues,
    tlock_cipher: Vec<u8>,
    calldata: String,
    blockchain_settings: String,
    vkey: String,
) -> (r: TimeLockFixture)
    ensures
        r.key@ == key@,
        r.nonce@ == nonce@,
        r.round == round,
        r.before@ == values.before@,
        r.after@ == values.after@,
        r.hash_private_inputs@ == values.hash_private_inputs@,
        r.chacha_cipher@ == values.chacha_cipher@,
        r.tlock_cipher@ == tlock_cipher@,
        r.calldata@ == calldata@,
        r.blockchain_settings@ == blockchain_settings@,
        r.vkey@ == vkey@,
{
    TimeLockFixture {
        key,
        nonce,
        round,
        before: values.before,
        after: values.after,
        hash_private_inputs: values.hash_private_inputs,
        chacha_cipher: values.chacha_cipher,
        tlock_cipher,
        calldata,
        blockchain_settings,
        vkey,
    }
}

/// The fixture of the peer-targeted path: the keypair material as hex, the
/// verifying-key identifier, the committed key hash as hex, and the proof
/// artifacts as the proving collaborator rendered them.
pub struct KeyExchangeFixture {
    pub local_sk: String,
    pub vendor_pk: String,
    pub vkey: String,
    pub key_hash: String,
    pub public_values: String,
    pub proof_bytes: String,
}

/// Assemble the peer-targeted fixture: key material and the committed hash
/// are rendered as lowercase hex; the verifying-key identifier and the
/// proof artifacts pass through unchanged.
pub fn build_key_exchange_fixture(
    local_sk: &Vec<u8>,
    vendor_pk: &Vec<u8>,
    vkey: String,
    key_hash: &Vec<u8>,
    public_values: String,
    proof_bytes: String,
) -> (r: KeyExchangeFixture)
    ensures
        r.local_sk@ == spec_hex(local_sk@),
        r.vendor_pk@ == spec_hex(vendor_pk@),
        r.vkey@ == vkey@,
        r.key_hash@ == spec_hex(key_hash@),
        r.public_values@ == public_values@,
        r.proof_bytes@ == proof_bytes@,
{
    KeyExchangeFixture {
        local_sk: hex_encode(local_sk),
        vendor_pk: hex_encode(vendor_pk),
        vkey,
        key_hash: hex_encode(key_hash),
        public_values,
        proof_bytes,
    }
}

} // verus!
