use multishiva::fingerprint::FingerprintStore;

#[test]
fn test_security_smoke() {
    // Basic smoke test
    assert!(true);
}

#[test]
fn test_store_never_repins_on_mismatch() {
    let mut store = FingerprintStore::new();
    let first = multishiva::handshake::compute_psk_hash("psk-test");
    store.verify_or_save("peer", &first);
    store.verify_or_save("peer", "another-digest");
    assert_eq!(store.get("peer").unwrap().hash(), first.as_str());
}
