use msgrelay::crypto::{CryptoManager, CryptoError, pairwise_round_trip};
use ed25519_dalek::Verifier;

#[test]
fn shared_secret_symmetry_and_round_trip() {
    let alice = CryptoManager::new();
    let bob = CryptoManager::new();
    let key_ab = alice.derive_shared_key(&bob.get_x25519_public_key());
    let key_ba = bob.derive_shared_key(&alice.get_x25519_public_key());
    assert_eq!(key_ab, key_ba);
    assert_eq!(key_ab.len(), 32);

    let plaintext = "attack at dawn — ключ";
    let out = pairwise_round_trip(&alice, &bob, plaintext).unwrap();
    assert_eq!(out, plaintext);

    let ciphertext = alice.encrypt_message(&bob.get_x25519_public_key(), plaintext);
    let back = bob.decrypt_message(&alice.get_x25519_public_key(), &ciphertext).unwrap();
    assert_eq!(back, plaintext);
}

#[test]
fn every_single_bit_flip_fails_authentication() {
    let alice = CryptoManager::new();
    let bob = CryptoManager::new();
    let ciphertext = alice.encrypt_message(&bob.get_x25519_public_key(), "short secret");
    for byte in 0..ciphertext.len() {
        for bit in 0..8u8 {
            let mut tampered = ciphertext.clone();
            tampered[byte] ^= 1 << bit;
            let r = bob.decrypt_message(&alice.get_x25519_public_key(), &tampered);
            match r {
                Err(CryptoError::AuthenticationFailure) => {}
                Err(other) => panic!("byte {} bit {}: wrong error {:?}", byte, bit, other),
                Ok(_) => panic!("byte {} bit {}: tampering went unnoticed", byte, bit),
            }
        }
    }
}

#[test]
fn truncated_ciphertext_is_a_distinct_failure() {
    let alice = CryptoManager::new();
    let bob = CryptoManager::new();
    let short: Vec<u8> = vec![1, 2, 3, 4, 5];
    assert_eq!(
        bob.decrypt_message(&alice.get_x25519_public_key(), &short),
        Err(CryptoError::TooShort)
    );
}

#[test]
fn signatures_verify_and_tampering_is_caught() {
    let alice = CryptoManager::new();
    let mallory = CryptoManager::new();
    let message = b"signed payload".to_vec();
    let signature = alice.sign(&message);
    assert_eq!(signature.len(), 64);

    let alice_pub = alice.get_ed25519_public_key();
    assert!(alice.verify(&message, &signature, &alice_pub).is_ok());

    // Any changed message byte fails verification.
    for i in 0..message.len() {
        let mut other = message.clone();
        other[i] ^= 0x40;
        assert_eq!(
            alice.verify(&other, &signature, &alice_pub),
            Err(CryptoError::SignatureInvalid)
        );
    }
    // A non-corresponding public key fails verification.
    assert_eq!(
        alice.verify(&message, &signature, &mallory.get_ed25519_public_key()),
        Err(CryptoError::SignatureInvalid)
    );
    // Signing is deterministic for a given key and message.
    assert_eq!(alice.sign(&message), signature);
    // Cross-check against the ed25519 crate used directly.
    let vk = ed25519_dalek::VerifyingKey::from_bytes(
        &<[u8; 32]>::try_from(alice_pub.as_slice()).unwrap(),
    )
    .unwrap();
    let sig = ed25519_dalek::Signature::from_slice(&signature).unwrap();
    assert!(vk.verify(&message, &sig).is_ok());
}

#[test]
fn nonces_differ_between_encryptions() {
    let alice = CryptoManager::new();
    let bob = CryptoManager::new();
    let a = alice.encrypt_message(&bob.get_x25519_public_key(), "same text");
    let b = alice.encrypt_message(&bob.get_x25519_public_key(), "same text");
    assert_ne!(a[..12], b[..12]);
    assert_eq!(a.len(), "same text".len() + 28);
}
