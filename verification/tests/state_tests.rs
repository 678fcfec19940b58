use ropds_bot::state::{storage_key, StoreKind, STATE_TTL_SECS};

#[test]
fn storage_keys() {
    assert_eq!(storage_key(StoreKind::Download, 17), "dl:17");
    assert_eq!(storage_key(StoreKind::Navigation, 0), "nav:0");
    assert_eq!(storage_key(StoreKind::Results, u64::MAX), "res:18446744073709551615");
    assert_ne!(storage_key(StoreKind::Download, 1), storage_key(StoreKind::Download, 11));
    assert_eq!(STATE_TTL_SECS, 1800);
}
