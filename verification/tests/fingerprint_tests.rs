use multishiva::fingerprint::{Fingerprint, FingerprintStore, FingerprintVerification};
use multishiva::handshake::compute_psk_hash;
use sha2::Digest;

#[test]
fn test_fingerprint_creation() {
    let fp = Fingerprint::new("test-machine", "abc123def456");
    assert_eq!(fp.machine_name(), "test-machine");
    assert_eq!(fp.hash(), "abc123def456");
}

#[test]
fn test_fingerprint_from_cert_data() {
    let cert_data = b"test certificate data";
    let fp = Fingerprint::from_cert_data("machine1", cert_data);

    assert_eq!(fp.machine_name(), "machine1");
    assert!(!fp.hash().is_empty());
    assert_eq!(fp.hash().len(), 64);
}

#[test]
fn test_fingerprint_equality() {
    let fp1 = Fingerprint::new("machine", "hash123");
    let fp2 = Fingerprint::new("machine", "hash123");
    let fp3 = Fingerprint::new("machine", "hash456");

    assert_eq!(fp1, fp2);
    assert_ne!(fp1, fp3);
}

#[test]
fn test_fingerprint_verification_match() {
    let fp = Fingerprint::new("machine1", "hash123");
    let cert_hash = "hash123";

    assert!(fp.verify(cert_hash));
}

#[test]
fn test_fingerprint_verification_mismatch() {
    let fp = Fingerprint::new("machine1", "hash123");
    let cert_hash = "different_hash";

    assert!(!fp.verify(cert_hash));
}

#[test]
fn test_fingerprint_hash_consistency() {
    let cert_data = b"test certificate data";

    let fp1 = Fingerprint::from_cert_data("machine", cert_data);
    let fp2 = Fingerprint::from_cert_data("machine", cert_data);

    assert_eq!(fp1.hash(), fp2.hash());
}

#[test]
fn test_fingerprint_hash_matches_reference_digest() {
    // the pinned digest is the real hex SHA-256, not the input echoed back
    let cert_data = b"test certificate data";
    let fp = Fingerprint::from_cert_data("machine", cert_data);
    let expected = hex::encode(sha2::Sha256::digest(cert_data));
    assert_eq!(fp.hash(), expected.as_str());
}

#[test]
fn test_store_save_get_remove() {
    let mut store = FingerprintStore::new();
    assert!(store.get("machine1").is_none());

    let fp = Fingerprint::new("machine1", "hash123abc");
    store.save("machine1", fp.clone());
    assert_eq!(store.get("machine1"), Some(&fp));

    let fp2 = Fingerprint::new("machine1", "hash456");
    store.save("machine1", fp2.clone());
    assert_eq!(store.get("machine1"), Some(&fp2));
    assert_eq!(store.list_all().len(), 1);

    store.remove("machine1");
    assert!(store.get("machine1").is_none());
}

#[test]
fn test_store_first_connection_pins_digest() {
    // first contact on an empty store: the digest of the shared secret is pinned
    let mut store = FingerprintStore::new();
    let hash = compute_psk_hash("psk-test");
    let outcome = store.verify_or_save("agentA", &hash);
    assert_eq!(outcome, FingerprintVerification::FirstConnection);
    assert_eq!(store.get("agentA").unwrap().hash(), hash.as_str());

    let again = store.verify_or_save("agentA", &hash);
    assert_eq!(again, FingerprintVerification::Verified);
}

#[test]
fn test_store_mismatch_aborts_and_keeps_pin() {
    // a pre-populated wrong pin: the real digest must be reported, not accepted
    let zeros = "0".repeat(64);
    let mut store = FingerprintStore::new();
    store.save("host", Fingerprint::new("host", &zeros));

    let real = compute_psk_hash("psk-test");
    match store.verify_or_save("host", &real) {
        FingerprintVerification::Mismatch { stored, received } => {
            assert_eq!(stored, zeros);
            assert_eq!(received, real);
        }
        other => panic!("expected a mismatch, got {:?}", other),
    }
    assert_eq!(store.get("host").unwrap().hash(), zeros.as_str());
}

#[test]
fn test_fingerprint_touch_keeps_identity() {
    let mut fp = Fingerprint::new("machine", "hash");
    fp.touch();
    assert_eq!(fp.machine_name(), "machine");
    assert_eq!(fp.hash(), "hash");
}

#[test]
fn test_fingerprint_records_timestamps() {
    let fp = Fingerprint::new("machine", "hash");
    assert!(fp.first_seen().is_some_and(|t| !t.is_empty()));
    assert!(fp.last_verified().is_some_and(|t| !t.is_empty()));
}
