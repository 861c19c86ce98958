use radiochat::crypto::{decrypt, encrypt, generate_key, key_from_hex};

#[test]
fn key_from_hex_accepts_exactly_32_bytes() {
    let good = "00112233445566778899aabbccddeeff00112233445566778899AABBCCDDEEFF";
    assert!(key_from_hex(good).is_some());
    // 31 bytes
    assert!(key_from_hex(&good[..62]).is_none());
    // odd length
    assert!(key_from_hex(&good[..63]).is_none());
    // not hex
    let bad = "zz112233445566778899aabbccddeeff00112233445566778899aabbccddeeff";
    assert!(key_from_hex(bad).is_none());
    assert!(key_from_hex("").is_none());
}

#[test]
fn generated_key_hex_round_trips() {
    let key = generate_key();
    let hex = key.to_hex();
    assert_eq!(hex.len(), 64);
    assert!(key_from_hex(&hex).is_some());
}

#[test]
fn encrypt_then_decrypt_returns_plaintext() {
    let key = generate_key();
    let ct = encrypt(&key, &b"attack at dawn \xc3\xa9".to_vec()).unwrap();
    // nonce (12 bytes) + tag (16 bytes) + plaintext, hex-encoded
    assert_eq!(ct.len(), 2 * (12 + 16 + 17));
    let pt = decrypt(&key, &ct).unwrap();
    assert_eq!(pt, "attack at dawn \u{e9}");
}

#[test]
fn decrypt_rejects_short_input() {
    let key = generate_key();
    let err = decrypt(&key, "0011").unwrap_err();
    assert_eq!(err, "Ciphertext is too short to contain a nonce");
}

#[test]
fn decrypt_rejects_bad_hex() {
    let key = generate_key();
    let err = decrypt(&key, "not-hex!").unwrap_err();
    assert!(err.starts_with("Hex decode error: "));
}

#[test]
fn decrypt_rejects_tampering() {
    let key = generate_key();
    let ct = encrypt(&key, &b"hello".to_vec()).unwrap();
    // flip the final hex digit (inside the authentication tag)
    let mut tampered: Vec<char> = ct.chars().collect();
    let last = *tampered.last().unwrap();
    *tampered.last_mut().unwrap() = if last == '0' { '1' } else { '0' };
    let tampered: String = tampered.into_iter().collect();
    let err = decrypt(&key, &tampered).unwrap_err();
    assert!(err.starts_with("Decryption error: "));
}

#[test]
fn decrypt_rejects_wrong_key() {
    let k1 = generate_key();
    let k2 = generate_key();
    let ct = encrypt(&k1, &b"secret".to_vec()).unwrap();
    assert!(decrypt(&k2, &ct).is_err());
}
