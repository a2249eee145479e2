//! Key lifecycle: the single shared secret key, the per-session nonce, and
//! the durable slot through which the generating session hands the key to a
//! later, independent session.
//!
//! At most one session generates the key for a logical secret; every other
//! session loads it. The slot is a single-writer/single-reader handoff by
//! convention: the generating session must have durably written the slot
//! before a loading session runs. The slot itself holds whatever bytes were
//! written; the loader validates them rather than trusting them.

use vstd::prelude::*;

use crate::errors::SessionError;

verus! {

/// Number of bytes of symmetric key material.
pub const KEY_LEN: usize = 32;

/// Number of bytes of a per-session nonce.
pub const NONCE_LEN: usize = 12;

/// The durable slot holding the shared key between sessions: either the raw
/// bytes a previous session wrote, or nothing. Callers map it to storage;
/// the slot itself is the validated view of that storage.
pub struct KeySlot {
    /// The bytes currently occupying the slot, if any session wrote some.
    pub contents: Option<Vec<u8>>,
}

impl View for KeySlot {
    type V = Option<Seq<u8>>;

    open spec fn view(&self) -> Option<Seq<u8>> {
        match self.contents {
            Some(b) => Some(b@),
            None => None,
        }
    }
}

/// What loading a slot yields: the stored bytes exactly when they exist and
/// have the key length, `KeyNotFound` when the slot is empty, and
/// `KeyLengthMismatch` when bytes of any other length occupy it.
pub open spec fn spec_load_key(contents: Option<Seq<u8>>) -> Result<Seq<u8>, SessionError> {
    match contents {
        None => Err(SessionError::KeyNotFound),
        Some(b) => if b.len() == KEY_LEN {
            Ok(b)
        } else {
            Err(SessionError::KeyLengthMismatch)
        },
    }
}

impl KeySlot {
    /// A slot no session has written yet.
    pub fn empty() -> (r: KeySlot)
        ensures
            r@ is None,
    {
        KeySlot { contents: None }
    }

    /// Write `bytes` to the slot, replacing whatever occupied it.
    pub fn store(&mut self, bytes: Vec<u8>)
        ensures
            final(self)@ == Some(bytes@),
    {
        self.contents = Some(bytes);
    }

    /// Read the key a previous session wrote: exactly the stored bytes when
    /// they have the key length, `KeyNotFound` on an empty slot, and
    /// `KeyLengthMismatch` on a stored value of any other length.
    pub fn load(&self) -> (r: Result<Vec<u8>, SessionError>)
        ensures
            r matches Ok(k) ==> spec_load_key(self@) == Ok::<Seq<u8>, SessionError>(k@),
            r matches Err(e) ==> spec_load_key(self@) == Err::<Seq<u8>, SessionError>(e),
    {
        match &self.contents {
            None => Err(SessionError::KeyNotFound),
            Some(b) => {
                if b.len() == KEY_LEN {
                    Ok(b.clone())
                } else {
                    Err(SessionError::KeyLengthMismatch)
                }
            },
        }
    }
}

/// Key continuity: a slot written with key bytes of the key length loads
/// back exactly those bytes.
pub proof fn lemma_key_continuity(k: Seq<u8>)
    requires
        k.len() == KEY_LEN,
    ensures
        spec_load_key(Some(k)) == Ok::<Seq<u8>, SessionError>(k),
{
}

/// Relies on rand::thread_rng and rand::Rng::fill: fills a buffer of the
/// requested size with bytes from the thread-local cryptographically secure
/// generator. Nothing is promised of the bytes themselves.
#[verifier::external_body]
fn random_bytes(n: usize) -> (r: Vec<u8>)
    ensures
        r@.len() == n,
{
    let mut buf = vec![0u8; n];
    rand::Rng::fill(&mut rand::thread_rng(), &mut buf[..]);
    buf
}

/// Sample fresh symmetric key material. Done exactly once per logical
/// secret, by the generating session.
pub fn generate_key() -> (r: Vec<u8>)
    ensures
        r@.len() == KEY_LEN,
{
    random_bytes(KEY_LEN)
}

/// Sample a fresh nonce. Every proving session samples its own; nonces are
/// never shared across sessions.
pub fn generate_nonce() -> (r: Vec<u8>)
    ensures
        r@.len() == NONCE_LEN,
{
    random_bytes(NONCE_LEN)
}

} // verus!
