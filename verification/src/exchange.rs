//! Key-exchange keypairs for the peer-targeted disclosure path.
//!
//! Both keypairs are derived deterministically from seed material, so the
//! derivations are named functions of the seed alone; the curve arithmetic
//! itself stays with the outside crate. The derivation rejects, rather than
//! aborts on, the negligible set of seeds whose expansion lands on the zero
//! scalar, so a failed derivation comes back as `None`.

use vstd::prelude::*;

verus! {

/// The P-256 private scalar bytes derived from a seed, for the seeds the
/// derivation accepts.
pub uninterp spec fn ecdh_secret_of(seed: Seq<u8>) -> Seq<u8>;

/// The uncompressed public point bytes of the scalar derived from a seed.
pub uninterp spec fn ecdh_public_of(seed: Seq<u8>) -> Seq<u8>;

/// Whether the derivation accepts a seed. Both derivations below run the
/// same seed expansion and scalar construction, so they accept exactly the
/// same seeds: all but the negligible set whose expansion reduces to the
/// zero scalar.
pub uninterp spec fn ecdh_seed_ok(seed: Seq<u8>) -> bool;

/// Relies on rand_chacha's ChaCha20Rng — the deterministic expansion the
/// key-exchange crate itself applies to a seed — and on static_dh_ecdh's
/// SkP256::from_bytes, which reduces the expanded bytes into the scalar
/// field and fails, instead of aborting, exactly when the reduced scalar is
/// zero, and on ToBytes::to_bytes (the 32-byte scalar serialization). The
/// result is a function of the seed alone.
#[verifier::external_body]
fn ecdh_secret_key_bytes(seed: &Vec<u8>) -> (r: Option<Vec<u8>>)
    requires
        seed@.len() == 32,
    ensures
        r is Some <==> ecdh_seed_ok(seed@),
        r matches Some(b) ==> b@ == ecdh_secret_of(seed@) && b@.len() == 32,
{
    let mut arr = [0u8; 32];
    arr.copy_from_slice(&seed[..]);
    let mut rng = <rand_chacha::ChaCha20Rng as rand_chacha::rand_core::SeedableRng>::from_seed(arr);
    let mut expanded = [0u8; 32];
    rand_chacha::rand_core::RngCore::fill_bytes(&mut rng, &mut expanded);
    match <static_dh_ecdh::ecdh::ecdh::SkP256 as static_dh_ecdh::ecdh::ecdh::FromBytes>::from_bytes(
        &expanded,
    ) {
        Ok(sk) => Some(static_dh_ecdh::ecdh::ecdh::ToBytes::to_bytes(&sk).to_vec()),
        Err(_) => None,
    }
}

/// Relies on the same seed expansion and scalar construction as the private
/// derivation, plus static_dh_ecdh's ECDHNISTP256::generate_public_key and
/// the point's ToBytes (the 65-byte uncompressed SEC1 form). A nonzero
/// scalar times the generator is never the point at infinity, so deriving
/// the point from an accepted seed cannot fail. The result is a function of
/// the seed alone.
#[verifier::external_body]
fn ecdh_public_key_bytes(seed: &Vec<u8>) -> (r: Option<Vec<u8>>)
    requires
        seed@.len() == 32,
    ensures
        r is Some <==> ecdh_seed_ok(seed@),
        r matches Some(b) ==> b@ == ecdh_public_of(seed@) && b@.len() == 65,
{
    let mut arr = [0u8; 32];
    arr.copy_from_slice(&seed[..]);
    let mut rng = <rand_chacha::ChaCha20Rng as rand_chacha::rand_core::SeedableRng>::from_seed(arr);
    let mut expanded = [0u8; 32];
    rand_chacha::rand_core::RngCore::fill_bytes(&mut rng, &mut expanded);
    match <static_dh_ecdh::ecdh::ecdh::SkP256 as static_dh_ecdh::ecdh::ecdh::FromBytes>::from_bytes(
        &expanded,
    ) {
        Ok(sk) => {
            let pk = <static_dh_ecdh::ecdh::ecdh::ECDHNISTP256 as
                static_dh_ecdh::ecdh::ecdh::KeyExchange>::generate_public_key(&sk);
            Some(static_dh_ecdh::ecdh::ecdh::ToBytes::to_bytes(&pk).to_vec())
        },
        Err(_) => None,
    }
}

/// Derive the two keypairs of the peer-targeted path from seed material: the
/// local party's private scalar and the counterparty's public point. Only
/// the public point crosses the trust boundary in cleartext; the
/// counterparty's private scalar never leaves the derivation. `None` comes
/// back exactly when a seed is one of the negligible set the derivation
/// rejects.
pub fn derive_exchange_keys(local_seed: &Vec<u8>, peer_seed: &Vec<u8>) -> (r: Option<
    (Vec<u8>, Vec<u8>),
>)
    requires
        local_seed@.len() == 32,
        peer_seed@.len() == 32,
    ensures
        r is Some <==> ecdh_seed_ok(local_seed@) && ecdh_seed_ok(peer_seed@),
        r matches Some(p) ==> {
            &&& p.0@ == ecdh_secret_of(local_seed@)
            &&& p.0@.len() == 32
            &&& p.1@ == ecdh_public_of(peer_seed@)
            &&& p.1@.len() == 65
        },
{
    let sk = match ecdh_secret_key_bytes(local_seed) {
        Some(b) => b,
        None => {
            return None;
        },
    };
    let pk = match ecdh_public_key_bytes(peer_seed) {
        Some(b) => b,
        None => {
            return None;
        },
    };
    Some((sk, pk))
}

} // verus!
