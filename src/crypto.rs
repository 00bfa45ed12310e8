//! Key derivation, authenticated encryption and the byte encodings that the key
//! hierarchy stores: Argon2id, ChaCha20-Poly1305 with a random nonce, standard base64
//! and UTF-8.
use vstd::prelude::*;
use vstd::utf8::*;

use argon2::{Algorithm, Argon2, Params, Version};
use base64::engine::general_purpose::STANDARD;
use base64::Engine;
use chacha20poly1305::aead::rand_core::RngCore;
use chacha20poly1305::aead::{Aead, AeadCore, KeyInit, OsRng};
use chacha20poly1305::{ChaCha20Poly1305, Key, Nonce};
use zeroize::Zeroize;
use argon2::Error as Argon2Failure;
use chacha20poly1305::aead::Error as AeadFailure;

use crate::error::Error;

verus! {

broadcast use vstd::utf8::group_utf8_lib;

/// Length of every symmetric key in the hierarchy.
pub const KEY_LEN: usize = 32;

/// Length of the random nonce put in front of each ciphertext.
pub const NONCE_LEN: usize = 12;

/// Length of the authentication tag that ends each ciphertext.
pub const TAG_LEN: usize = 16;

/// Shortest blob that can hold a nonce and a tag.
pub const MIN_BLOB_LEN: usize = 28;

/// Length of the salt drawn at registration.
pub const SALT_LEN: usize = 16;

/// The cipher refuses a message of this many bytes or more (2^32 - 1 blocks of 64 bytes).
pub const MAX_MESSAGE_LEN: u64 = 64 * 0xFFFF_FFFF;

#[verifier::external_type_specification]
#[verifier::external_body]
pub struct ExArgon2Failure(Argon2Failure);

#[verifier::external_type_specification]
#[verifier::external_body]
pub struct ExAeadFailure(AeadFailure);

#[verifier::external_type_specification]
#[verifier::external_body]
pub struct ExDecodeError(base64::DecodeError);

/// Memory cost of the key derivation, in KiB (64 MiB).
pub const KDF_MEMORY_KIB: u32 = 65536;

/// Number of passes of the key derivation.
pub const KDF_ITERATIONS: u32 = 3;

/// Degree of parallelism of the key derivation.
pub const KDF_PARALLELISM: u32 = 1;

/// The 32-byte Argon2id (version 0x13) output for a memory cost in KiB, a number of
/// passes, a degree of parallelism, a password and a salt.
pub uninterp spec fn argon2id_hash(m_cost: u32, t_cost: u32, p_cost: u32, password: Seq<u8>, salt: Seq<u8>) -> Seq<u8>;

/// ChaCha20-Poly1305 ciphertext followed by its tag, with empty associated data.
pub uninterp spec fn chacha20poly1305_seal(key: Seq<u8>, nonce: Seq<u8>, message: Seq<u8>) -> Seq<u8>;

/// ChaCha20-Poly1305 decryption with empty associated data; `None` when the tag does not verify.
pub uninterp spec fn chacha20poly1305_open(key: Seq<u8>, nonce: Seq<u8>, ciphertext: Seq<u8>) -> Option<Seq<u8>>;

/// Standard, padded base64 text of a byte string.
pub uninterp spec fn base64_text(bytes: Seq<u8>) -> Seq<char>;

/// Bytes that a standard, padded base64 text stands for; `None` when the text is not valid base64.
pub uninterp spec fn base64_bytes(text: Seq<char>) -> Option<Seq<u8>>;

/// Relies on `argon2::Params::new` and `argon2::Argon2::hash_password_into` under
/// `Argon2::new(Algorithm::Argon2id, Version::V0x13, params)` with a 32-byte output: the
/// parameters that `requires` admits pass `Params::new`'s checks, and hashing fails exactly
/// when the password is longer than 2^32 - 1 bytes or the salt is shorter than 8 or longer
/// than 2^32 - 1 bytes; otherwise the 32-byte output depends on parameters, password and
/// salt alone.
#[verifier::external_body]
fn argon2_hash_32(m_cost: u32, t_cost: u32, p_cost: u32, password: &[u8], salt: &[u8]) -> (r: Result<Vec<u8>, Argon2Failure>)
    requires
        1 <= p_cost <= 0xFF_FFFF,
        m_cost >= 8 * p_cost,
        t_cost >= 1,
    ensures
        r is Ok <==> (password@.len() <= 0xFFFF_FFFF && 8 <= salt@.len() <= 0xFFFF_FFFF),
        r matches Ok(k) ==> k@ == argon2id_hash(m_cost, t_cost, p_cost, password@, salt@) && k@.len() == KEY_LEN,
{
    let params = match Params::new(m_cost, t_cost, p_cost, Some(32)) {
        Ok(params) => params,
        Err(e) => return Err(e),
    };
    let mut out = [0u8; 32];
    Argon2::new(Algorithm::Argon2id, Version::V0x13, params).hash_password_into(password, salt, &mut out).map(|_| out.to_vec())
}

/// Relies on `ChaCha20Poly1305`'s `Aead::encrypt`: it fails exactly on a message of
/// `MAX_MESSAGE_LEN` bytes or more, returns the ciphertext followed by a 16-byte tag, and
/// `Aead::decrypt` under the same key and nonce gives the message back.
#[verifier::external_body]
fn aead_seal(key: &[u8], nonce: &[u8], message: &[u8]) -> (r: Result<Vec<u8>, AeadFailure>)
    requires
        key@.len() == KEY_LEN,
        nonce@.len() == NONCE_LEN,
    ensures
        r is Ok <==> message@.len() < MAX_MESSAGE_LEN,
        r matches Ok(c) ==> c@ == chacha20poly1305_seal(key@, nonce@, message@),
        r matches Ok(c) ==> c@.len() == message@.len() + TAG_LEN,
        r matches Ok(c) ==> chacha20poly1305_open(key@, nonce@, c@) == Some(message@),
{
    ChaCha20Poly1305::new(Key::from_slice(key)).encrypt(Nonce::from_slice(nonce), message)
}

/// Relies on `ChaCha20Poly1305`'s `Aead::decrypt`: it returns the plaintext when the tag
/// verifies and an error otherwise; a ciphertext shorter than the tag never verifies, and a
/// verified ciphertext is the plaintext's encryption followed by the 16-byte tag, so
/// encrypting the plaintext again under the same key and nonce reproduces it.
#[verifier::external_body]
fn aead_open(key: &[u8], nonce: &[u8], ciphertext: &[u8]) -> (r: Result<Vec<u8>, AeadFailure>)
    requires
        key@.len() == KEY_LEN,
        nonce@.len() == NONCE_LEN,
    ensures
        r matches Ok(p) ==> chacha20poly1305_open(key@, nonce@, ciphertext@) == Some(p@),
        r matches Ok(p) ==> ciphertext@.len() == p@.len() + TAG_LEN,
        r matches Ok(p) ==> chacha20poly1305_seal(key@, nonce@, p@) == ciphertext@,
        r is Err ==> chacha20poly1305_open(key@, nonce@, ciphertext@) == None::<Seq<u8>>,
        ciphertext@.len() < TAG_LEN ==> r is Err,
{
    ChaCha20Poly1305::new(Key::from_slice(key)).decrypt(Nonce::from_slice(nonce), ciphertext)
}

/// Relies on `AeadCore::generate_nonce` over the operating system's RNG: 12 fresh random bytes.
#[verifier::external_body]
fn random_nonce() -> (r: Vec<u8>)
    ensures
        r@.len() == NONCE_LEN,
{
    ChaCha20Poly1305::generate_nonce(&mut OsRng).to_vec()
}

/// Relies on `KeyInit::generate_key` over the operating system's RNG: 32 fresh random bytes.
#[verifier::external_body]
fn random_key_bytes() -> (r: Vec<u8>)
    ensures
        r@.len() == KEY_LEN,
{
    ChaCha20Poly1305::generate_key(&mut OsRng).to_vec()
}

/// Relies on `RngCore::fill_bytes` of the operating system's RNG: fills the buffer in
/// place and keeps its length.
#[verifier::external_body]
fn fill_random(buf: &mut Vec<u8>)
    ensures
        final(buf)@.len() == old(buf)@.len(),
{
    OsRng.fill_bytes(buf.as_mut_slice())
}

/// Relies on `base64`'s `STANDARD` engine `encode`: padded standard base64, which its
/// `decode` turns back into the same bytes.
#[verifier::external_body]
fn base64_encode(bytes: &[u8]) -> (r: String)
    ensures
        r@ == base64_text(bytes@),
        base64_bytes(r@) == Some(bytes@),
{
    STANDARD.encode(bytes)
}

/// Relies on `base64`'s `STANDARD` engine `decode`: the bytes that the text stands for, or
/// an error when it is not valid padded standard base64.
#[verifier::external_body]
fn base64_decode(text: &str) -> (r: Result<Vec<u8>, base64::DecodeError>)
    ensures
        r matches Ok(b) ==> base64_bytes(text@) == Some(b@),
        r is Err ==> base64_bytes(text@) == None::<Seq<u8>>,
{
    STANDARD.decode(text)
}

/// Relies on `String::from_utf8`: it succeeds exactly on valid UTF-8, with the decoded characters.
#[verifier::external_body]
fn string_from_utf8(bytes: Vec<u8>) -> (r: Option<String>)
    ensures
        r is Some <==> valid_utf8(bytes@),
        r matches Some(s) ==> s@ == decode_utf8(bytes@),
{
    String::from_utf8(bytes).ok()
}

/// Relies on `zeroize`'s `Zeroize` for byte slices: every byte is overwritten with zero in place.
#[verifier::external_body]
fn zeroize_bytes(bytes: &mut Vec<u8>)
    ensures
        final(bytes)@ == Seq::new(old(bytes)@.len(), |i: int| 0u8),
{
    bytes.as_mut_slice().zeroize()
}

// ---------------------------------------------------------------------------------------
// Key derivation

/// What `derive_key` returns for a password (as characters) and a salt.
pub open spec fn derived_key(password: Seq<char>, salt: Seq<u8>) -> Result<Seq<u8>, Error> {
    let pw = encode_utf8(password);
    if pw.len() <= 0xFFFF_FFFF && 8 <= salt.len() <= 0xFFFF_FFFF {
        Ok(argon2id_hash(KDF_MEMORY_KIB, KDF_ITERATIONS, KDF_PARALLELISM, pw, salt))
    } else {
        Err(Error::DeriveKey)
    }
}

/// Derives the 32-byte master key from a passphrase and a salt with Argon2id (64 MiB,
/// three passes, parallelism one).
pub fn derive_key(password: &str, salt: &[u8]) -> (r: Result<Vec<u8>, Error>)
    ensures
        match r {
            Ok(k) => derived_key(password@, salt@) == Ok::<Seq<u8>, Error>(k@) && k@.len() == KEY_LEN,
            Err(e) => derived_key(password@, salt@) == Err::<Seq<u8>, Error>(e),
        },
{
    match argon2_hash_32(KDF_MEMORY_KIB, KDF_ITERATIONS, KDF_PARALLELISM, password.as_bytes(), salt) {
        Ok(k) => Ok(k),
        Err(_) => Err(Error::DeriveKey),
    }
}

/// Derivation depends on passphrase and salt alone: equal inputs give equal outcomes.
pub proof fn lemma_derive_key_deterministic(pw1: Seq<char>, salt1: Seq<u8>, pw2: Seq<char>, salt2: Seq<u8>)
    requires
        pw1 == pw2,
        salt1 == salt2,
    ensures
        derived_key(pw1, salt1) == derived_key(pw2, salt2),
{
}

// ---------------------------------------------------------------------------------------
// Authenticated encryption

/// `blob` is `nonce ‖ ciphertext ‖ tag` for `message` under `key`, for the nonce it starts with.
pub open spec fn is_sealed_blob(key: Seq<u8>, message: Seq<u8>, blob: Seq<u8>) -> bool {
    &&& blob.len() == NONCE_LEN + message.len() + TAG_LEN
    &&& blob.subrange(NONCE_LEN as int, blob.len() as int) == chacha20poly1305_seal(
        key,
        blob.subrange(0, NONCE_LEN as int),
        message,
    )
    &&& chacha20poly1305_open(key, blob.subrange(0, NONCE_LEN as int), blob.subrange(NONCE_LEN as int, blob.len() as int))
        == Some(message)
}

/// What `decrypt_data` returns for a blob under a key: `None` for a key that is not 32
/// bytes, a blob too short for nonce and tag, or a tag that does not verify.
pub open spec fn opened_blob(key: Seq<u8>, blob: Seq<u8>) -> Option<Seq<u8>> {
    if key.len() != KEY_LEN || blob.len() < MIN_BLOB_LEN {
        None
    } else {
        chacha20poly1305_open(key, blob.subrange(0, NONCE_LEN as int), blob.subrange(NONCE_LEN as int, blob.len() as int))
    }
}

/// Encrypts `data` under a 32-byte key with a fresh random nonce; returns `nonce ‖ ciphertext ‖ tag`.
pub fn encrypt_data(data: &[u8], key: &[u8]) -> (r: Result<Vec<u8>, Error>)
    ensures
        r is Ok <==> (key@.len() == KEY_LEN && data@.len() < MAX_MESSAGE_LEN),
        r matches Ok(b) ==> is_sealed_blob(key@, data@, b@),
        r matches Err(e) ==> e == Error::CryptoError,
{
    if key.len() != KEY_LEN || data.len() as u64 >= MAX_MESSAGE_LEN {
        return Err(Error::CryptoError);
    }
    let nonce = random_nonce();
    let sealed = match aead_seal(key, nonce.as_slice(), data) {
        Ok(c) => c,
        Err(_) => return Err(Error::CryptoError),
    };
    let mut out = nonce.clone();
    out.extend_from_slice(sealed.as_slice());
    proof {
        assert(out@.subrange(0, NONCE_LEN as int) =~= nonce@);
        assert(out@.subrange(NONCE_LEN as int, out@.len() as int) =~= sealed@);
    }
    Ok(out)
}

/// Decrypts `nonce ‖ ciphertext ‖ tag` under a key; never returns partial plaintext.
pub fn decrypt_data(data: &[u8], key: &[u8]) -> (r: Result<Vec<u8>, Error>)
    ensures
        match r {
            Ok(p) => opened_blob(key@, data@) == Some(p@),
            Err(e) => e == Error::CryptoError && opened_blob(key@, data@) == None::<Seq<u8>>,
        },
{
    if key.len() != KEY_LEN || data.len() < MIN_BLOB_LEN {
        return Err(Error::CryptoError);
    }
    let nonce = &data[0..NONCE_LEN];
    let body = &data[NONCE_LEN..data.len()];
    proof {
        assert(nonce@ =~= data@.subrange(0, NONCE_LEN as int));
        assert(body@ =~= data@.subrange(NONCE_LEN as int, data@.len() as int));
    }
    match aead_open(key, nonce, body) {
        Ok(p) => Ok(p),
        Err(_) => Err(Error::CryptoError),
    }
}

/// Decrypting what `encrypt_data` produced, under the same key, gives the plaintext back.
pub proof fn lemma_decrypt_inverts_encrypt(key: Seq<u8>, message: Seq<u8>, blob: Seq<u8>)
    requires
        key.len() == KEY_LEN,
        is_sealed_blob(key, message, blob),
    ensures
        opened_blob(key, blob) == Some(message),
{
}

/// A fresh random 32-byte key.
pub fn generate_key() -> (r: Vec<u8>)
    ensures
        r@.len() == KEY_LEN,
{
    random_key_bytes()
}

/// A fresh random 16-byte salt, as drawn at registration.
pub fn generate_salt() -> (r: Vec<u8>)
    ensures
        r@.len() == SALT_LEN,
{
    let mut salt = vec![0u8; SALT_LEN];
    fill_random(&mut salt);
    salt
}

/// Overwrites every byte of a secret buffer with zero, keeping its length.
pub fn wipe(bytes: &mut Vec<u8>)
    ensures
        final(bytes)@.len() == old(bytes)@.len(),
        forall|i: int| 0 <= i < final(bytes)@.len() ==> final(bytes)@[i] == 0u8,
{
    zeroize_bytes(bytes);
}

// ---------------------------------------------------------------------------------------
// Text encodings

/// Standard padded base64 of a byte string.
pub fn b64_encode(data: &[u8]) -> (r: String)
    ensures
        r@ == base64_text(data@),
        base64_bytes(r@) == Some(data@),
{
    base64_encode(data)
}

/// The bytes a base64 text stands for; invalid base64 is a cipher error.
pub fn b64_decode(encoded: &str) -> (r: Result<Vec<u8>, Error>)
    ensures
        match r {
            Ok(b) => base64_bytes(encoded@) == Some(b@),
            Err(e) => e == Error::CryptoError && base64_bytes(encoded@) == None::<Seq<u8>>,
        },
{
    match base64_decode(encoded) {
        Ok(b) => Ok(b),
        Err(_) => Err(Error::CryptoError),
    }
}

/// The UTF-8 bytes of a string.
pub fn utf8_bytes(s: &str) -> (r: Vec<u8>)
    ensures
        r@ == encode_utf8(s@),
{
    vstd::slice::slice_to_vec(s.as_bytes())
}

/// The string that a byte string encodes; non-UTF-8 bytes are a cipher error.
pub fn utf8_decode(bytes: Vec<u8>) -> (r: Result<String, Error>)
    ensures
        match r {
            Ok(s) => valid_utf8(bytes@) && s@ == decode_utf8(bytes@),
            Err(e) => e == Error::CryptoError && !valid_utf8(bytes@),
        },
{
    match string_from_utf8(bytes) {
        Some(s) => Ok(s),
        None => Err(Error::CryptoError),
    }
}

} // verus!
