use multishiva::handshake::{
    ack_bytes, build_handshake, check_handshake, compute_psk_hash, is_ack, magic_bytes,
    HandshakeError,
};
use sha2::Digest;

#[test]
fn test_handshake_round_trip() {
    let msg = build_handshake("agentA", "psk-test");
    let name = check_handshake(msg.as_slice(), "psk-test").unwrap();
    assert_eq!(name, "agentA");
}

#[test]
fn test_handshake_wrong_psk_rejected() {
    let msg = build_handshake("agentA", "wrong-psk");
    assert_eq!(
        check_handshake(msg.as_slice(), "correct-psk"),
        Err(HandshakeError::WrongPsk)
    );
}

#[test]
fn test_handshake_bad_magic_rejected() {
    let mut msg = build_handshake("agentA", "psk-test");
    msg[0] = b'X';
    assert_eq!(
        check_handshake(msg.as_slice(), "psk-test"),
        Err(HandshakeError::BadMagic)
    );
    assert_eq!(
        check_handshake(&[], "psk-test"),
        Err(HandshakeError::BadMagic)
    );
}

#[test]
fn test_handshake_empty_name_rejected() {
    let msg = build_handshake("", "psk-test");
    assert_eq!(
        check_handshake(msg.as_slice(), "psk-test"),
        Err(HandshakeError::BadName)
    );
}

#[test]
fn test_handshake_without_separator_rejected() {
    let msg = magic_bytes();
    assert_eq!(
        check_handshake(msg.as_slice(), "psk-test"),
        Err(HandshakeError::Malformed)
    );
}

#[test]
fn test_psk_hash() {
    let hash1 = compute_psk_hash("test-psk");
    let hash2 = compute_psk_hash("test-psk");
    let hash3 = compute_psk_hash("different-psk");

    assert_eq!(hash1, hash2);
    assert_ne!(hash1, hash3);
}

#[test]
fn test_psk_hash_matches_reference_digest() {
    // the digest the handshake carries is the real hex SHA-256 of the key
    let hash = compute_psk_hash("psk-test");
    let expected = hex::encode(sha2::Sha256::digest(b"psk-test"));
    assert_eq!(hash, expected);
    assert_eq!(hash.len(), 64);
}

#[test]
fn test_handshake_message_shape() {
    let msg = build_handshake("m", "k");
    let magic = magic_bytes();
    assert_eq!(&msg[..magic.len()], magic.as_slice());
    assert_eq!(magic.as_slice(), b"MULTISHIVA_PSK_V1");
    assert_eq!(msg[magic.len()], b'm');
    assert_eq!(msg[magic.len() + 1], 0);
}

#[test]
fn test_ack() {
    assert_eq!(ack_bytes(), b"OK".to_vec());
    assert!(is_ack(b"OK"));
    assert!(!is_ack(b"NO"));
    assert!(!is_ack(b""));
}
