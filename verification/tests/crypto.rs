use contextsend::crypto::{bytes_gt, pin_from_sas_bytes, KeyExchange};

#[test]
fn both_sides_derive_same_key_and_pin() {
    let alice = KeyExchange::generate();
    let bob = KeyExchange::generate();
    let a_pub = alice.public_bytes();
    let b_pub = bob.public_bytes();

    let a_keys = alice.complete(b_pub);
    let b_keys = bob.complete(a_pub);

    assert_eq!(a_keys.pin(), b_keys.pin());
    assert_eq!(a_keys.pin().len(), 6);
    assert!(a_keys.pin().chars().all(|c| c.is_ascii_digit()));

    let ct = a_keys.cipher().encrypt(b"hello").unwrap();
    let pt = b_keys.cipher().decrypt(&ct).unwrap();
    assert_eq!(pt, b"hello");
}

#[test]
fn mitm_produces_mismatched_pin() {
    let alice = KeyExchange::generate();
    let bob = KeyExchange::generate();
    let mallory_a = KeyExchange::generate();
    let mallory_b = KeyExchange::generate();

    let a_keys = alice.complete(mallory_a.public_bytes());
    let b_keys = bob.complete(mallory_b.public_bytes());

    assert_ne!(a_keys.pin(), b_keys.pin());
}

#[test]
fn tampered_ciphertext_fails_to_decrypt() {
    let alice = KeyExchange::generate();
    let bob = KeyExchange::generate();
    let keys = alice.complete(bob.public_bytes());

    let cipher = keys.cipher();
    let mut ct = cipher.encrypt(b"secret").unwrap();
    let last = ct.len() - 1;
    ct[last] ^= 0xff;
    assert!(cipher.decrypt(&ct).is_err());
}

#[test]
fn ciphertext_carries_nonce_and_tag() {
    let alice = KeyExchange::generate();
    let bob = KeyExchange::generate();
    let keys = alice.complete(bob.public_bytes());
    let ct = keys.cipher().encrypt(b"abc").unwrap();
    assert_eq!(ct.len(), 12 + 3 + 16);
}

#[test]
fn short_ciphertext_is_refused() {
    let alice = KeyExchange::generate();
    let bob = KeyExchange::generate();
    let keys = alice.complete(bob.public_bytes());
    assert!(keys.cipher().decrypt(&[0u8; 5]).is_err());
}

#[test]
fn pin_is_code_mod_million_zero_padded() {
    assert_eq!(pin_from_sas_bytes(&[0, 0, 0, 42]), "000042");
    // 0x00 0x0F 0x42 0x40 = 1_000_000 -> 0
    assert_eq!(pin_from_sas_bytes(&[0x00, 0x0F, 0x42, 0x40]), "000000");
    // 0xFFFFFFFF = 4294967295 -> 967295
    assert_eq!(pin_from_sas_bytes(&[0xFF, 0xFF, 0xFF, 0xFF]), "967295");
}

#[test]
fn bytes_order_is_lexicographic() {
    assert!(bytes_gt(&[2, 0], &[1, 9]));
    assert!(!bytes_gt(&[1, 9], &[2, 0]));
    assert!(!bytes_gt(&[1, 2], &[1, 2]));
    assert!(bytes_gt(&[1, 2, 3], &[1, 2]));
}

#[test]
fn every_tag_byte_is_checked_by_the_peer() {
    let alice = KeyExchange::generate();
    let bob = KeyExchange::generate();
    let a_pub = alice.public_bytes();
    let a = alice.complete(bob.public_bytes());
    let b = bob.complete(a_pub);
    let ct = a.cipher().encrypt(b"push").unwrap();
    assert_eq!(b.cipher().decrypt(&ct).unwrap(), b"push");
    for i in ct.len() - 16..ct.len() {
        let mut bad = ct.clone();
        bad[i] ^= 0x01;
        assert!(b.cipher().decrypt(&bad).is_err());
    }
}
