//! Tests of the permutation layer.

use ck_meow::AlignedKittenState;

#[test]
fn test_permute_changes_state() {
    let data0 = AlignedKittenState::new();
    let mut data1 = data0.clone();
    data1.permute();
    assert_ne!(data0.as_bytes(), data1.as_bytes());
}

/// The permutation is deterministic: two equal states permute to equal
/// states.
#[test]
fn test_permute_deterministic() {
    let mut data0 = AlignedKittenState::new();
    let mut data1 = AlignedKittenState::new();
    data0.permute();
    data1.permute();
    assert_eq!(data0.as_bytes(), data1.as_bytes());
    data0.permute();
    data1.permute();
    assert_eq!(data0.as_bytes(), data1.as_bytes());
}

/// Clearing zeroes every byte.
#[test]
fn test_clear_zeroes_state() {
    let mut data = AlignedKittenState::new();
    data.permute();
    assert!(data.as_bytes().iter().any(|&b| b != 0));
    data.clear();
    assert!(data.as_bytes().iter().all(|&b| b == 0));
    assert_eq!(data.as_bytes().len(), ck_meow::STATE_SIZE_U8);
}
