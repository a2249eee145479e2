use key_disclosure::errors::SessionError;

#[test]
fn every_failure_names_its_stage() {
    let all = [
        SessionError::InvalidDuration,
        SessionError::KeyNotFound,
        SessionError::KeyLengthMismatch,
        SessionError::BeaconUnavailable,
        SessionError::ProvingFailed,
        SessionError::PublicValueDecodeError,
        SessionError::PersistenceError,
    ];
    for e in all {
        assert!(!e.describe().is_empty());
    }
    assert_ne!(
        SessionError::KeyNotFound.describe(),
        SessionError::KeyLengthMismatch.describe()
    );
}
