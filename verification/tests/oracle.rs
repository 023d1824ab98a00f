use puzzle_contracts::oracle::{OracleError, Storage};

#[test]
fn config_is_refused_before_it_is_stored() {
    let mut s: Storage<u32, (i128, u64)> = Storage::new();
    assert!(!s.has_config());
    assert_eq!(s.get_config(), Err(OracleError::NotInitialized));
    s.set_config(7);
    assert!(s.has_config());
    assert_eq!(s.get_config(), Ok(7));
}

#[test]
fn signers_read_back() {
    let mut s: Storage<u32, (i128, u64)> = Storage::new();
    assert_eq!(s.get_signers(), Err(OracleError::NotInitialized));
    s.set_signers(vec![([1u8; 32], true), ([2u8; 32], false)]);
    assert_eq!(s.get_signers(), Ok(vec![([1u8; 32], true), ([2u8; 32], false)]));
}

#[test]
fn prices_and_disputes_read_back() {
    let mut s: Storage<u32, (i128, u64)> = Storage::new();
    assert_eq!(s.get_price(5), None);
    s.set_price(5, (1_000, 60));
    s.set_price(6, (2_000, 61));
    s.set_price(5, (1_500, 62));
    assert_eq!(s.get_price(5), Some((1_500, 62)));
    assert_eq!(s.get_price(6), Some((2_000, 61)));
    assert!(!s.get_dispute(5));
    s.set_dispute(5, true);
    assert!(s.get_dispute(5));
    s.set_dispute(5, false);
    assert!(!s.get_dispute(5));
}
