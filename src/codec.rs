//! The key hierarchy's envelope codec: master key → vault key → record key.
//!
//! A vault's key is wrapped under the master key and its name sealed under the vault key;
//! a record's key is wrapped under its vault's key and its payload sealed under the record key.
use vstd::prelude::*;
use vstd::utf8::*;

use crate::crypto::{
    b64_decode, b64_encode, base64_bytes, decrypt_data, encrypt_data, generate_key, is_sealed_blob,
    opened_blob, utf8_bytes, utf8_decode, KEY_LEN, MAX_MESSAGE_LEN,
};
use crate::error::Error;
use crate::model::{EncryptedRecord, EncryptedVault, PlainRecord, PlainVault};

verus! {

broadcast use vstd::utf8::group_utf8_lib;

/// The bytes that a base64 field holds once decoded and opened under `key`.
pub open spec fn unwrap_field(key: Seq<u8>, field: Seq<char>) -> Option<Seq<u8>> {
    match base64_bytes(field) {
        Some(blob) => opened_blob(key, blob),
        None => None,
    }
}

/// `field` is the base64 of a blob that seals `message` under `key`.
pub open spec fn seals_field(key: Seq<u8>, message: Seq<u8>, field: Seq<char>) -> bool {
    match base64_bytes(field) {
        Some(blob) => is_sealed_blob(key, message, blob),
        None => false,
    }
}

/// The text that sealed bytes stand for, when they are UTF-8.
pub open spec fn as_text(bytes: Option<Seq<u8>>) -> Option<Seq<char>> {
    match bytes {
        Some(b) => if valid_utf8(b) { Some(decode_utf8(b)) } else { None },
        None => None,
    }
}

/// Name and vault key that an encrypted vault holds under `master`, if both open.
pub open spec fn opened_vault(v: EncryptedVault, master: Seq<u8>) -> Option<(Seq<char>, Seq<u8>)> {
    match unwrap_field(master, v.encrypted_vault_key@) {
        Some(vault_key) => match as_text(unwrap_field(vault_key, v.encrypted_name@)) {
            Some(name) => Some((name, vault_key)),
            None => None,
        },
        None => None,
    }
}

/// Payload and record key that an encrypted record holds under `vault_key`, if both open.
pub open spec fn opened_record(r: EncryptedRecord, vault_key: Seq<u8>) -> Option<(Seq<char>, Seq<u8>)> {
    match unwrap_field(vault_key, r.encrypted_record_key@) {
        Some(record_key) => match as_text(unwrap_field(record_key, r.encrypted_data_blob@)) {
            Some(data) => Some((data, record_key)),
            None => None,
        },
        None => None,
    }
}

/// `v` wraps `vault_key` under `master` and seals `name` under `vault_key`.
pub open spec fn vault_sealed(v: EncryptedVault, master: Seq<u8>, name: Seq<char>, vault_key: Seq<u8>) -> bool {
    &&& master.len() == KEY_LEN
    &&& vault_key.len() == KEY_LEN
    &&& seals_field(master, vault_key, v.encrypted_vault_key@)
    &&& seals_field(vault_key, encode_utf8(name), v.encrypted_name@)
}

/// `r` wraps `record_key` under `vault_key` and seals `data` under `record_key`.
pub open spec fn record_sealed(r: EncryptedRecord, vault_key: Seq<u8>, data: Seq<char>, record_key: Seq<u8>) -> bool {
    &&& vault_key.len() == KEY_LEN
    &&& record_key.len() == KEY_LEN
    &&& seals_field(vault_key, record_key, r.encrypted_record_key@)
    &&& seals_field(record_key, encode_utf8(data), r.encrypted_data_blob@)
}

/// A key that encryption accepts from an entity: none yet (empty), or 32 bytes.
pub open spec fn usable_key(key: Seq<u8>) -> bool {
    key.len() == 0 || key.len() == KEY_LEN
}

/// A vault sealed under `master` opens under `master` to the same name and key.
pub proof fn lemma_vault_round_trip(v: EncryptedVault, master: Seq<u8>, name: Seq<char>, vault_key: Seq<u8>)
    requires
        vault_sealed(v, master, name, vault_key),
    ensures
        opened_vault(v, master) == Some((name, vault_key)),
{
}

/// A record sealed under `vault_key` opens under `vault_key` to the same payload and key.
pub proof fn lemma_record_round_trip(r: EncryptedRecord, vault_key: Seq<u8>, data: Seq<char>, record_key: Seq<u8>)
    requires
        record_sealed(r, vault_key, data, record_key),
    ensures
        opened_record(r, vault_key) == Some((data, record_key)),
{
}

/// Seals `message` under `key` and base64-encodes the blob.
pub fn seal_field(message: &[u8], key: &[u8]) -> (r: Result<String, Error>)
    ensures
        r is Ok <==> (key@.len() == KEY_LEN && message@.len() < MAX_MESSAGE_LEN),
        r matches Ok(s) ==> seals_field(key@, message@, s@),
        r matches Err(e) ==> e == Error::CryptoError,
{
    let blob = encrypt_data(message, key)?;
    Ok(b64_encode(blob.as_slice()))
}

/// Decodes a base64 field and opens it under `key`.
pub fn open_field(field: &str, key: &[u8]) -> (r: Result<Vec<u8>, Error>)
    ensures
        match r {
            Ok(b) => unwrap_field(key@, field@) == Some(b@),
            Err(e) => e == Error::CryptoError && unwrap_field(key@, field@) == None::<Seq<u8>>,
        },
{
    let blob = b64_decode(field)?;
    decrypt_data(blob.as_slice(), key)
}

/// Decodes a base64 field, opens it under `key` and reads it as UTF-8 text.
pub fn open_text_field(field: &str, key: &[u8]) -> (r: Result<String, Error>)
    ensures
        match r {
            Ok(s) => as_text(unwrap_field(key@, field@)) == Some(s@),
            Err(e) => e == Error::CryptoError && as_text(unwrap_field(key@, field@)) == None::<Seq<char>>,
        },
{
    let bytes = open_field(field, key)?;
    utf8_decode(bytes)
}

/// Encrypts a vault under the master key. The vault's own key is reused when it has one;
/// an empty key is replaced by a fresh random one.
pub fn encrypt_vault(plain: &PlainVault, master_key: &[u8]) -> (r: Result<EncryptedVault, Error>)
    ensures
        r is Ok <==> (master_key@.len() == KEY_LEN && usable_key(plain.key@)
            && encode_utf8(plain.name@).len() < MAX_MESSAGE_LEN),
        r matches Ok(v) ==> v.id == plain.id && v.created_at == plain.created_at && v.updated_at == plain.updated_at,
        r matches Ok(v) ==> (plain.key@.len() > 0 ==> vault_sealed(v, master_key@, plain.name@, plain.key@)),
        r matches Ok(v) ==> (plain.key@.len() == 0 ==> (opened_vault(v, master_key@) matches Some(opened)
            && vault_sealed(v, master_key@, plain.name@, opened.1))),
        r matches Err(e) ==> e == Error::CryptoError,
{
    if master_key.len() != KEY_LEN || !(plain.key.len() == 0 || plain.key.len() == KEY_LEN) {
        return Err(Error::CryptoError);
    }
    let vault_key = if plain.key.len() == 0 {
        generate_key()
    } else {
        plain.key.clone()
    };
    let name = utf8_bytes(plain.name.as_str());
    let encrypted_vault_key = seal_field(vault_key.as_slice(), master_key)?;
    let encrypted_name = seal_field(name.as_slice(), vault_key.as_slice())?;
    let v = EncryptedVault {
        id: plain.id,
        encrypted_vault_key,
        encrypted_name,
        created_at: plain.created_at,
        updated_at: plain.updated_at,
    };
    proof {
        lemma_vault_round_trip(v, master_key@, plain.name@, vault_key@);
    }
    Ok(v)
}

/// Decrypts a vault: unwraps its key under the master key, then opens its name with that key.
pub fn decrypt_vault(encrypted: &EncryptedVault, master_key: &[u8]) -> (r: Result<PlainVault, Error>)
    ensures
        match r {
            Ok(p) => {
                &&& opened_vault(*encrypted, master_key@) == Some((p.name@, p.key@))
                &&& p.id == encrypted.id
                &&& p.created_at == encrypted.created_at
                &&& p.updated_at == encrypted.updated_at
            },
            Err(e) => e == Error::CryptoError && opened_vault(*encrypted, master_key@) is None,
        },
{
    let vault_key = open_field(encrypted.encrypted_vault_key.as_str(), master_key)?;
    let name = open_text_field(encrypted.encrypted_name.as_str(), vault_key.as_slice())?;
    Ok(PlainVault {
        id: encrypted.id,
        name,
        key: vault_key,
        created_at: encrypted.created_at,
        updated_at: encrypted.updated_at,
    })
}

/// Encrypts a record under its vault's key. The record's own key is reused when it has
/// one; an empty key is replaced by a fresh random one.
pub fn encrypt_record(plain: &PlainRecord, vault_key: &[u8]) -> (r: Result<EncryptedRecord, Error>)
    ensures
        r is Ok <==> (vault_key@.len() == KEY_LEN && usable_key(plain.key@)
            && encode_utf8(plain.data@).len() < MAX_MESSAGE_LEN),
        r matches Ok(e) ==> e.id == plain.id && e.vault_id == plain.vault_id
            && e.created_at == plain.created_at && e.updated_at == plain.updated_at,
        r matches Ok(e) ==> (plain.key@.len() > 0 ==> record_sealed(e, vault_key@, plain.data@, plain.key@)),
        r matches Ok(e) ==> (plain.key@.len() == 0 ==> (opened_record(e, vault_key@) matches Some(opened)
            && record_sealed(e, vault_key@, plain.data@, opened.1))),
        r matches Err(e) ==> e == Error::CryptoError,
{
    if vault_key.len() != KEY_LEN || !(plain.key.len() == 0 || plain.key.len() == KEY_LEN) {
        return Err(Error::CryptoError);
    }
    let record_key = if plain.key.len() == 0 {
        generate_key()
    } else {
        plain.key.clone()
    };
    let data = utf8_bytes(plain.data.as_str());
    let encrypted_record_key = seal_field(record_key.as_slice(), vault_key)?;
    let encrypted_data_blob = seal_field(data.as_slice(), record_key.as_slice())?;
    let e = EncryptedRecord {
        id: plain.id,
        vault_id: plain.vault_id,
        encrypted_record_key,
        encrypted_data_blob,
        created_at: plain.created_at,
        updated_at: plain.updated_at,
    };
    proof {
        lemma_record_round_trip(e, vault_key@, plain.data@, record_key@);
    }
    Ok(e)
}

/// Decrypts a record: unwraps its key under the vault key, then opens its payload with that key.
pub fn decrypt_record(encrypted: &EncryptedRecord, vault_key: &[u8]) -> (r: Result<PlainRecord, Error>)
    ensures
        match r {
            Ok(p) => {
                &&& opened_record(*encrypted, vault_key@) == Some((p.data@, p.key@))
                &&& p.id == encrypted.id
                &&& p.vault_id == encrypted.vault_id
                &&& p.created_at == encrypted.created_at
                &&& p.updated_at == encrypted.updated_at
            },
            Err(e) => e == Error::CryptoError && opened_record(*encrypted, vault_key@) is None,
        },
{
    let record_key = open_field(encrypted.encrypted_record_key.as_str(), vault_key)?;
    let data = open_text_field(encrypted.encrypted_data_blob.as_str(), record_key.as_slice())?;
    Ok(PlainRecord {
        id: encrypted.id,
        vault_id: encrypted.vault_id,
        data,
        key: record_key,
        created_at: encrypted.created_at,
        updated_at: encrypted.updated_at,
    })
}

/// Decrypting an encrypted vault under the master key it was encrypted with gives back
/// the vault's name and key.
pub proof fn lemma_decrypt_vault_inverts_encrypt_vault(plain: PlainVault, master: Seq<u8>, v: EncryptedVault)
    requires
        plain.key@.len() > 0,
        vault_sealed(v, master, plain.name@, plain.key@),
    ensures
        opened_vault(v, master) == Some((plain.name@, plain.key@)),
{
    lemma_vault_round_trip(v, master, plain.name@, plain.key@);
}

} // verus!
