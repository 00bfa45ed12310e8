use sanctum::crypto::{
    b64_decode, b64_encode, decrypt_data, derive_key, encrypt_data, generate_key, generate_salt,
    utf8_bytes, utf8_decode, wipe, KEY_LEN, MIN_BLOB_LEN, NONCE_LEN, SALT_LEN, TAG_LEN,
};
use sanctum::error::Error;

#[test]
fn derive_key_is_32_bytes_and_deterministic() {
    let salt = [7u8; 16];
    let a = derive_key("password", &salt).unwrap();
    let b = derive_key("password", &salt).unwrap();
    assert_eq!(a.len(), 32);
    assert_eq!(a, b);
}

#[test]
fn derive_key_depends_on_salt_and_passphrase() {
    let a = derive_key("password", &[1u8; 16]).unwrap();
    let b = derive_key("password", &[2u8; 16]).unwrap();
    let c = derive_key("passw0rd", &[1u8; 16]).unwrap();
    assert_ne!(a, b);
    assert_ne!(a, c);
}

#[test]
fn derive_key_rejects_short_salt() {
    assert_eq!(derive_key("password", &[0u8; 7]), Err(Error::DeriveKey));
    assert!(derive_key("password", &[0u8; 8]).is_ok());
}

#[test]
fn encrypt_then_decrypt_round_trips() {
    let key = generate_key();
    assert_eq!(key.len(), KEY_LEN);
    let blob = encrypt_data(b"attack at dawn", &key).unwrap();
    assert_eq!(blob.len(), NONCE_LEN + 14 + TAG_LEN);
    assert_eq!(decrypt_data(&blob, &key).unwrap(), b"attack at dawn".to_vec());
}

#[test]
fn encrypt_empty_plaintext() {
    let key = generate_key();
    let blob = encrypt_data(b"", &key).unwrap();
    assert_eq!(blob.len(), MIN_BLOB_LEN);
    assert_eq!(decrypt_data(&blob, &key).unwrap(), Vec::<u8>::new());
}

#[test]
fn encryption_uses_fresh_nonces() {
    let key = generate_key();
    let a = encrypt_data(b"same", &key).unwrap();
    let b = encrypt_data(b"same", &key).unwrap();
    assert_ne!(a, b);
    assert_ne!(&a[..NONCE_LEN], &b[..NONCE_LEN]);
}

#[test]
fn decrypt_with_other_key_fails() {
    let k1 = generate_key();
    let mut k2 = k1.clone();
    k2[0] ^= 1;
    let blob = encrypt_data(b"secret", &k1).unwrap();
    assert_eq!(decrypt_data(&blob, &k2), Err(Error::CryptoError));
}

#[test]
fn wrong_key_length_is_a_cipher_error() {
    assert_eq!(encrypt_data(b"x", &[0u8; 31]), Err(Error::CryptoError));
    let key = generate_key();
    let blob = encrypt_data(b"x", &key).unwrap();
    assert_eq!(decrypt_data(&blob, &key[..16]), Err(Error::CryptoError));
}

#[test]
fn short_blob_is_a_cipher_error() {
    let key = generate_key();
    assert_eq!(decrypt_data(&[0u8; 27], &key), Err(Error::CryptoError));
    assert_eq!(decrypt_data(&[], &key), Err(Error::CryptoError));
}

#[test]
fn flipping_any_bit_is_detected() {
    let key = generate_key();
    let blob = encrypt_data(b"payload", &key).unwrap();
    for i in 0..blob.len() {
        for bit in 0..8 {
            let mut tampered = blob.clone();
            tampered[i] ^= 1 << bit;
            assert_eq!(decrypt_data(&tampered, &key), Err(Error::CryptoError));
        }
    }
}

#[test]
fn base64_is_standard_and_padded() {
    assert_eq!(b64_encode(b"hi"), "aGk=");
    assert_eq!(b64_encode(b""), "");
    assert_eq!(b64_decode("aGk=").unwrap(), b"hi".to_vec());
    assert_eq!(b64_decode("not base64!"), Err(Error::CryptoError));
}

#[test]
fn utf8_round_trip_and_rejection() {
    let bytes = utf8_bytes("héllo");
    assert_eq!(bytes, "héllo".as_bytes().to_vec());
    assert_eq!(utf8_decode(bytes).unwrap(), "héllo");
    assert_eq!(utf8_decode(vec![0xff, 0xfe]), Err(Error::CryptoError));
}

#[test]
fn salt_is_sixteen_random_bytes() {
    let a = generate_salt();
    let b = generate_salt();
    assert_eq!(a.len(), SALT_LEN);
    assert_ne!(a, b);
}

#[test]
fn wipe_zeroes_in_place() {
    let mut secret = vec![1u8, 2, 3, 4];
    wipe(&mut secret);
    assert_eq!(secret, vec![0u8; 4]);
}
