//! Time-lock binding: the key bytes are bound to a beacon round so that only
//! an entity holding the beacon's signature for that round can recover them.
//! The binding algorithm is an outside collaborator; this module only hands
//! it its inputs and carries its output.

use vstd::prelude::*;

verus! {

/// Whether the time-lock scheme accepts a beacon public key: the bytes must
/// deserialize as a valid point of one of its two groups. Acceptance is a
/// function of the key bytes alone; everything else the binder does either
/// cannot fail or fails independently of the inputs.
pub uninterp spec fn tlock_accepts(pk: Seq<u8>) -> bool;

/// Relies on tlock::encrypt: writes into the buffer a ciphertext binding the
/// first 16-byte block of `plaintext` to the beacon public key and round,
/// decryptable only with the beacon's signature for that round. The call
/// fails exactly when the public key does not parse as a point of the
/// 48-byte or the 96-byte group; on success the ciphertext is that point
/// group's compressed element followed by two 16-byte blocks, its bytes
/// randomized by the binder.
#[verifier::external_body]
fn tlock_encrypt_bytes(plaintext: &Vec<u8>, beacon_pk: &Vec<u8>, round: u64) -> (r: Option<
    Vec<u8>,
>)
    ensures
        r is Some <==> tlock_accepts(beacon_pk@),
        r is Some ==> beacon_pk@.len() == 48 || beacon_pk@.len() == 96,
        r matches Some(c) ==> c@.len() == beacon_pk@.len() + 32,
{
    let mut out: Vec<u8> = Vec::new();
    match tlock::encrypt(&mut out, plaintext.as_slice(), beacon_pk.as_slice(), round) {
        Ok(()) => Some(out),
        Err(_) => None,
    }
}

/// Bind the key to the disclosure round under the beacon's public key. The
/// ciphertext bytes are randomized by the binder, so what is stated is what
/// holds of every outcome: binding succeeds exactly when the beacon public
/// key is one the scheme accepts, and a ciphertext then has the length the
/// scheme gives it — the 48- or 96-byte compressed point of the key's group
/// plus two 16-byte blocks. A failed binding yields `None` and is fatal to
/// the session, as every failure here is.
pub fn bind_key_to_round(key: &Vec<u8>, beacon_pk: &Vec<u8>, round: u64) -> (r: Option<Vec<u8>>)
    ensures
        r is Some <==> tlock_accepts(beacon_pk@),
        r matches Some(c) ==> c@.len() == beacon_pk@.len() + 32 && (beacon_pk@.len() == 48
            || beacon_pk@.len() == 96),
{
    tlock_encrypt_bytes(key, beacon_pk, round)
}

} // verus!
