use murmur::crypto::e2e::{CryptoError, E2ECrypto};

fn fresh() -> E2ECrypto {
    let (c, secret) = E2ECrypto::new(None, Vec::new()).unwrap();
    assert!(secret.is_some());
    c
}

#[test]
fn new_refuses_short_stored_key() {
    match E2ECrypto::new(Some(vec![1u8; 31]), Vec::new()) {
        Err(CryptoError::InvalidStoredKey) => {}
        _ => panic!("a 31-byte key must be refused"),
    }
}

#[test]
fn stored_key_is_kept() {
    let (a, secret) = E2ECrypto::new(None, Vec::new()).unwrap();
    let secret = secret.unwrap();
    let (b, fresh) = E2ECrypto::new(Some(secret.to_vec()), Vec::new()).unwrap();
    assert!(fresh.is_none());
    assert_eq!(a.public_key_bytes(), b.public_key_bytes());
}

#[test]
fn group_roundtrip() {
    let alice = fresh();
    let bob = fresh();
    let topic = "murmur/server/abcd/channel/general";
    let env = alice.encrypt_for_group(topic, b"hello group").unwrap();
    assert_eq!(env.ephemeral_pubkey, [0u8; 32]);
    assert_eq!(env.sender_pubkey, alice.public_key_bytes());
    assert_eq!(bob.decrypt_group(topic, &env).unwrap(), b"hello group".to_vec());
    assert_eq!(alice.decrypt_group(topic, &env).unwrap(), b"hello group".to_vec());
}

#[test]
fn group_key_is_per_topic() {
    let alice = fresh();
    let env = alice.encrypt_for_group("topic-a", b"secret").unwrap();
    match alice.decrypt_group("topic-b", &env) {
        Err(CryptoError::Decryption) => {}
        _ => panic!("another topic's key must not open the message"),
    }
    assert_eq!(alice.derive_group_key("t").unwrap(), fresh().derive_group_key("t").unwrap());
    assert_ne!(alice.derive_group_key("t").unwrap(), alice.derive_group_key("u").unwrap());
}

#[test]
fn direct_message_roundtrip() {
    let mut alice = fresh();
    let bob = fresh();
    alice.register_peer_key("bob", bob.public_key_bytes()).unwrap();
    let env = alice.encrypt_for_peer("bob", b"hi bob").unwrap();
    assert_eq!(env.sender_pubkey, alice.public_key_bytes());
    assert_eq!(bob.decrypt_envelope(&env).unwrap(), b"hi bob".to_vec());
    // Alice cannot read what she sealed for Bob.
    match alice.decrypt_envelope(&env) {
        Err(CryptoError::Decryption) => {}
        _ => panic!("only the recipient opens a direct message"),
    }
}

#[test]
fn unknown_peer_is_an_error() {
    let alice = fresh();
    match alice.encrypt_for_peer("nobody", b"x") {
        Err(CryptoError::UnknownPeer(p)) => assert_eq!(p, "nobody"),
        _ => panic!("encrypting for an unknown peer must fail"),
    }
}

#[test]
fn stored_peer_keys_are_loaded() {
    let bob = fresh();
    let keys = vec![
        ("bob".to_string(), vec![7u8; 5]),
        ("bob".to_string(), bob.public_key_bytes().to_vec()),
    ];
    let (alice, _) = E2ECrypto::new(None, keys).unwrap();
    let env = alice.encrypt_for_peer("bob", b"loaded").unwrap();
    assert_eq!(bob.decrypt_envelope(&env).unwrap(), b"loaded".to_vec());
}

#[test]
fn tampered_ciphertext_is_refused() {
    let alice = fresh();
    let mut env = alice.encrypt_for_group("t", b"data").unwrap();
    env.ciphertext[0] ^= 1;
    match alice.decrypt_group("t", &env) {
        Err(CryptoError::Decryption) => {}
        _ => panic!("a tampered message must not open"),
    }
}

#[test]
fn changed_sender_key_is_refused() {
    let mut alice = fresh();
    let bob = fresh();
    let mallory = fresh();
    alice.register_peer_key("bob", bob.public_key_bytes()).unwrap();
    let env = alice.encrypt_for_peer("bob", b"from alice").unwrap();
    assert_eq!(env.ciphertext.len(), b"from alice".len() + 16);
    let mut forged = env.clone();
    forged.sender_pubkey = mallory.public_key_bytes();
    match bob.decrypt_envelope(&forged) {
        Err(CryptoError::Decryption) => {}
        _ => panic!("an envelope naming another sender must not open"),
    }
    assert_eq!(bob.decrypt_envelope(&env).unwrap(), b"from alice".to_vec());
}
