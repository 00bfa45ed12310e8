use sanctum::codec::{decrypt_record, decrypt_vault, encrypt_record, encrypt_vault};
use sanctum::crypto::{b64_decode, b64_encode, generate_key};
use sanctum::error::Error;
use sanctum::model::{PlainRecord, PlainVault};

fn vault(name: &str, key: Vec<u8>) -> PlainVault {
    PlainVault { id: 42, name: name.to_string(), key, created_at: 10, updated_at: 20 }
}

#[test]
fn vault_round_trip_keeps_name_and_key() {
    let mk = generate_key();
    let plain = vault("Personal", generate_key());
    let enc = encrypt_vault(&plain, &mk).unwrap();
    assert_eq!(enc.id, 42);
    assert_eq!(enc.created_at, 10);
    assert_eq!(enc.updated_at, 20);
    let back = decrypt_vault(&enc, &mk).unwrap();
    assert_eq!(back.name, "Personal");
    assert_eq!(back.key, plain.key);
    assert_eq!(back.id, 42);
}

#[test]
fn vault_without_key_gets_a_fresh_one() {
    let mk = generate_key();
    let enc = encrypt_vault(&vault("n", Vec::new()), &mk).unwrap();
    let back = decrypt_vault(&enc, &mk).unwrap();
    assert_eq!(back.key.len(), 32);
    assert_eq!(back.name, "n");
}

#[test]
fn vault_with_bad_key_length_is_refused() {
    let mk = generate_key();
    assert_eq!(encrypt_vault(&vault("n", vec![1, 2, 3]), &mk).unwrap_err(), Error::CryptoError);
}

#[test]
fn vault_under_wrong_master_key_fails() {
    let mk = generate_key();
    let other = generate_key();
    let enc = encrypt_vault(&vault("n", generate_key()), &mk).unwrap();
    assert_eq!(decrypt_vault(&enc, &other).unwrap_err(), Error::CryptoError);
}

fn flip_bit(field: &str, byte: usize) -> String {
    let mut raw = b64_decode(field).unwrap();
    raw[byte] ^= 0x01;
    b64_encode(&raw)
}

#[test]
fn tampered_vault_fields_fail() {
    let mk = generate_key();
    let enc = encrypt_vault(&vault("Tamper", generate_key()), &mk).unwrap();
    for byte in [0usize, 12, 20] {
        let mut bad = enc.clone();
        bad.encrypted_name = flip_bit(&enc.encrypted_name, byte);
        assert_eq!(decrypt_vault(&bad, &mk).unwrap_err(), Error::CryptoError);
        let mut bad = enc.clone();
        bad.encrypted_vault_key = flip_bit(&enc.encrypted_vault_key, byte);
        assert_eq!(decrypt_vault(&bad, &mk).unwrap_err(), Error::CryptoError);
    }
    let mut bad = enc.clone();
    bad.encrypted_name = "%%%".to_string();
    assert_eq!(decrypt_vault(&bad, &mk).unwrap_err(), Error::CryptoError);
}

#[test]
fn record_round_trip_and_tampering() {
    let vk = generate_key();
    let plain = PlainRecord {
        id: 7,
        vault_id: 42,
        data: "{\"key\": \"value\"}".to_string(),
        key: generate_key(),
        created_at: 1,
        updated_at: 2,
    };
    let enc = encrypt_record(&plain, &vk).unwrap();
    assert_eq!(enc.vault_id, 42);
    let back = decrypt_record(&enc, &vk).unwrap();
    assert_eq!(back.data, plain.data);
    assert_eq!(back.key, plain.key);
    let mut bad = enc.clone();
    bad.encrypted_data_blob = flip_bit(&enc.encrypted_data_blob, 15);
    assert_eq!(decrypt_record(&bad, &vk).unwrap_err(), Error::CryptoError);
    let mut bad = enc.clone();
    bad.encrypted_record_key = flip_bit(&enc.encrypted_record_key, 3);
    assert_eq!(decrypt_record(&bad, &vk).unwrap_err(), Error::CryptoError);
    assert_eq!(decrypt_record(&enc, &generate_key()).unwrap_err(), Error::CryptoError);
}
