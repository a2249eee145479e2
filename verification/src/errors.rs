use vstd::prelude::*;

verus! {

/// Every way a disclosure session can fail. Each is terminal to the session
/// that raises it: nothing is retried and there are no partial-success states.
#[derive(Debug, Clone, Copy, PartialEq, Eq, Structural)]
pub enum SessionError {
    /// A duration was required by the caller's mode but absent.
    InvalidDuration,
    /// No prior session has written the shared key slot.
    KeyNotFound,
    /// The stored key is not exactly the expected key length.
    KeyLengthMismatch,
    /// The beacon collaborator could not be reached or gave no chain info.
    BeaconUnavailable,
    /// The proving collaborator failed to produce a proof.
    ProvingFailed,
    /// The proof's public values do not match the agreed byte layout.
    PublicValueDecodeError,
    /// Durable storage refused a write.
    PersistenceError,
}

impl SessionError {
    /// A short human-readable name for the failure, for the caller to
    /// print: a fixed sentence per variant, so the failing stage can be told
    /// apart from the message alone.
    pub fn describe(&self) -> (r: &'static str)
        ensures
            (match self {
                SessionError::InvalidDuration => r@ == "duration is required but was not given"@,
                SessionError::KeyNotFound => r@ == "no key has been written to the shared slot"@,
                SessionError::KeyLengthMismatch => r@ == "the stored key has the wrong length"@,
                SessionError::BeaconUnavailable => r@ == "the randomness beacon is unavailable"@,
                SessionError::ProvingFailed => r@ == "proof generation failed"@,
                SessionError::PublicValueDecodeError => r@
                    == "the public values do not match the expected layout"@,
                SessionError::PersistenceError => r@ == "writing an artifact failed"@,
            }),
    {
        match self {
            SessionError::InvalidDuration => "duration is required but was not given",
            SessionError::KeyNotFound => "no key has been written to the shared slot",
            SessionError::KeyLengthMismatch => "the stored key has the wrong length",
            SessionError::BeaconUnavailable => "the randomness beacon is unavailable",
            SessionError::ProvingFailed => "proof generation failed",
            SessionError::PublicValueDecodeError => "the public values do not match the expected layout",
            SessionError::PersistenceError => "writing an artifact failed",
        }
    }
}

} // verus!
