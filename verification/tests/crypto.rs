use asenix::crypto::{bytes_to_hex, compute_agent_id, compute_atom_id, generate_challenge, hex_to_bytes, verify_signature, blake3_hex, signature_owner};
use asenix::error::MoteError;

#[test]
fn hex_roundtrip_and_errors() {
    assert_eq!(bytes_to_hex(&[0x00, 0xab, 0xff, 0x10]), "00abff10");
    assert_eq!(hex_to_bytes("00ABff10").unwrap(), vec![0x00, 0xab, 0xff, 0x10]);
    assert_eq!(hex_to_bytes("").unwrap(), Vec::<u8>::new());
    match hex_to_bytes("abc") {
        Err(MoteError::Cryptography(m)) => assert_eq!(m, "Invalid hex: Odd number of digits"),
        other => panic!("unexpected {:?}", other),
    }
    match hex_to_bytes("zz") {
        Err(MoteError::Cryptography(m)) => assert!(m.starts_with("Invalid hex: ")),
        other => panic!("unexpected {:?}", other),
    }
}

#[test]
fn blake3_known_digest() {
    // BLAKE3 of the empty input.
    assert_eq!(blake3_hex(b""), "af1349b9f5f9a1a6a0404dea36dcc9499bcb25c9adc112b7cc9a93cae41f3262");
}

#[test]
fn agent_id_is_truncated_digest() {
    let id = compute_agent_id(b"");
    assert_eq!(id, "af1349b9f5f9a1a6a0404dea36dcc949");
    assert_eq!(id.len(), 32);
    assert_ne!(compute_agent_id(&[1u8; 32]), id);
}

#[test]
fn atom_id_hashes_the_concatenation() {
    let a = compute_atom_id("finding", "bio", "stmt", "{}", "{}", "2025-01-01T00:00:00+00:00");
    assert_eq!(a, blake3_hex(b"findingbiostmt{}{}2025-01-01T00:00:00+00:00"));
    let b = compute_atom_id("finding", "bio", "stmt", "{}", "{}", "2025-01-01T00:00:01+00:00");
    assert_ne!(a, b);
    assert_eq!(a.len(), 64);
}

#[test]
fn signature_checks() {
    let sk = ed25519_dalek::SigningKey::from_bytes(&[7u8; 32]);
    let pk = sk.verifying_key().to_bytes();
    let sig = ed25519_dalek::Signer::sign(&sk, b"msg").to_bytes();
    assert_eq!(verify_signature(&pk, b"msg", &sig), Ok(true));
    match verify_signature(&pk, b"other", &sig) {
        Err(MoteError::Cryptography(m)) => assert!(m.starts_with("Signature verification failed: ")),
        other => panic!("unexpected {:?}", other),
    }
    match verify_signature(&pk, b"msg", &sig[..10]) {
        Err(MoteError::Cryptography(m)) => assert_eq!(m, "Invalid signature length"),
        other => panic!("unexpected {:?}", other),
    }
    // A 32-byte string that is not the encoding of a curve point.
    let mut bad = [0u8; 32];
    let mut found = false;
    for y in 2u8..=255 {
        bad[0] = y;
        if ed25519_dalek::VerifyingKey::from_bytes(&bad).is_err() {
            found = true;
            break;
        }
    }
    assert!(found);
    match verify_signature(&bad, b"msg", &sig) {
        Err(MoteError::Cryptography(m)) => assert!(m.starts_with("Invalid public key: ")),
        other => panic!("unexpected {:?}", other),
    }
}

#[test]
fn challenges_are_32_random_bytes() {
    let a = generate_challenge();
    let b = generate_challenge();
    assert_eq!(a.len(), 32);
    assert_eq!(b.len(), 32);
    assert_ne!(a, b);
}

#[test]
fn signature_owner_finds_first_signer() {
    let sk_a = ed25519_dalek::SigningKey::from_bytes(&[1u8; 32]);
    let sk_b = ed25519_dalek::SigningKey::from_bytes(&[2u8; 32]);
    let hash = [9u8; 32];
    let sig = ed25519_dalek::Signer::sign(&sk_b, &hash).to_bytes();
    let agents = vec![
        ("a".to_string(), sk_a.verifying_key().to_bytes().to_vec()),
        ("b".to_string(), sk_b.verifying_key().to_bytes().to_vec()),
        ("b2".to_string(), sk_b.verifying_key().to_bytes().to_vec()),
    ];
    assert_eq!(signature_owner(&agents, &hash, &sig), Ok("b".to_string()));
    assert_eq!(
        signature_owner(&agents[..1], &hash, &sig),
        Err(MoteError::Authentication("Invalid signature".to_string()))
    );
    assert_eq!(
        signature_owner(&agents, &hash, &sig[..63]),
        Err(MoteError::Authentication("Invalid signature".to_string()))
    );
}

#[test]
fn session_ids_are_fresh_hex_digests() {
    let a = asenix::crypto::generate_session_id();
    let b = asenix::crypto::generate_session_id();
    assert_eq!(a.len(), 64);
    assert!(a.chars().all(|c| c.is_ascii_hexdigit() && !c.is_ascii_uppercase()));
    assert_ne!(a, b);
}
