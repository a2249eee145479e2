use key_disclosure::errors::SessionError;
use key_disclosure::rounds::{
    current_round, disclosure_round, next_round, round_after, round_at, BeaconInfo,
};

fn beacon(period: u64, genesis: u64) -> BeaconInfo {
    BeaconInfo { period, genesis, public_key: Vec::new() }
}

#[test]
fn rounds_after_genesis() {
    let (next, time) = next_round(45, 30, 0);
    assert_eq!(next, 2);
    assert_eq!(time, 60);
    assert_eq!(current_round(45, 30, 0), 1);
}

#[test]
fn rounds_before_genesis() {
    let (next, time) = next_round(500, 30, 1000);
    assert_eq!(next, 1);
    assert_eq!(time, 1000);
    assert_eq!(round_at(&beacon(30, 1000), 500), 1);
    assert_eq!(current_round(500, 30, 1000), 1);
}

#[test]
fn round_boundaries() {
    // Exactly at genesis and exactly on a period boundary.
    assert_eq!(next_round(0, 30, 0).0, 1);
    assert_eq!(next_round(29, 30, 0).0, 1);
    assert_eq!(next_round(30, 30, 0).0, 2);
    assert_eq!(next_round(60, 30, 0), (3, 90));
}

#[test]
fn zero_duration_resolves_to_containing_round() {
    let info = beacon(30, 0);
    // At 45 s the next round to appear is 2; a zero delay must give the
    // round containing the instant, which is 1.
    assert_eq!(round_at(&info, 45), 2);
    assert_eq!(round_after(&info, 45, 0), 1);
}

#[test]
fn round_at_never_decreases() {
    let info = beacon(7, 100);
    let mut prev: u64 = 0;
    for t in 0..300u64 {
        let r = round_at(&info, t);
        assert!(r >= prev);
        prev = r;
    }
}

#[test]
fn missing_duration_is_rejected() {
    let info = beacon(30, 0);
    assert_eq!(disclosure_round(&info, 45, None), Err(SessionError::InvalidDuration));
}

#[test]
fn present_duration_resolves() {
    let info = beacon(30, 0);
    // target 75 s: next round 3, current round 2.
    assert_eq!(disclosure_round(&info, 45, Some(30)), Ok(2));
}
