//! The shapes exchanged with the server, and the handshake driver's encoding of the
//! password-authenticated key exchange messages (base64 in JSON envelopes).
use vstd::prelude::*;

use crate::crypto::{b64_decode, b64_encode, base64_bytes, base64_text};
use crate::error::Error;
use crate::model::{EncryptedRecord, EncryptedVault};

verus! {

/// `POST /auth/register/start`.
#[derive(Debug, Clone)]
pub struct RegistrationStartRequest {
    pub email: String,
    pub client_start: String,
}

/// Answer to `POST /auth/register/start`.
#[derive(Debug, Clone)]
pub struct RegistrationStartResponse {
    pub server_start: String,
}

/// `POST /auth/register/finish`; the email is the one of the start request.
#[derive(Debug, Clone)]
pub struct RegistrationFinishRequest {
    pub email: String,
    pub salt: String,
    pub client_finish: String,
}

/// `POST /auth/login/start`.
#[derive(Debug, Clone)]
pub struct LoginStartRequest {
    pub email: String,
    pub client_start: String,
}

/// Answer to `POST /auth/login/start`.
#[derive(Debug, Clone)]
pub struct LoginStartResponse {
    pub message: String,
}

/// `POST /auth/login/finish`.
#[derive(Debug, Clone)]
pub struct LoginFinishRequest {
    pub email: String,
    pub client_finish: String,
}

/// Answer to `POST /auth/login/finish`: the bearer token and the salt issued at registration.
#[derive(Debug, Clone)]
pub struct LoginFinishResponse {
    pub access_token: String,
    pub salt: String,
}

/// A vault row as the server returns it.
#[derive(Debug, Clone)]
pub struct Vault {
    pub id: u128,
    pub user_id: u128,
    pub encrypted_vault_key: String,
    pub encrypted_name: String,
    pub created_at: i64,
    pub updated_at: i64,
}

/// A record row as the server returns it.
#[derive(Debug, Clone)]
pub struct Record {
    pub id: u128,
    pub vault_id: u128,
    pub encrypted_record_key: String,
    pub encrypted_data_blob: String,
    pub created_at: i64,
    pub updated_at: i64,
}

/// Body of `POST /vaults` and `PUT /vaults/{id}`.
#[derive(Debug, Clone, PartialEq, Eq)]
pub struct CreateVaultRequest {
    pub encrypted_vault_key: String,
    pub encrypted_name: String,
}

/// Body of `POST /vaults/{vid}/records` and `PUT /vaults/{vid}/records/{id}`.
#[derive(Debug, Clone, PartialEq, Eq)]
pub struct CreateRecordRequest {
    pub encrypted_record_key: String,
    pub encrypted_data_blob: String,
}

impl From<Vault> for EncryptedVault {
    fn from(value: Vault) -> EncryptedVault {
        EncryptedVault {
            id: value.id,
            encrypted_vault_key: value.encrypted_vault_key,
            encrypted_name: value.encrypted_name,
            created_at: value.created_at,
            updated_at: value.updated_at,
        }
    }
}

impl vstd::std_specs::convert::FromSpecImpl<Vault> for EncryptedVault {
    open spec fn obeys_from_spec() -> bool {
        true
    }

    open spec fn from_spec(value: Vault) -> EncryptedVault {
        EncryptedVault {
            id: value.id,
            encrypted_vault_key: value.encrypted_vault_key,
            encrypted_name: value.encrypted_name,
            created_at: value.created_at,
            updated_at: value.updated_at,
        }
    }
}

impl From<Record> for EncryptedRecord {
    fn from(value: Record) -> EncryptedRecord {
        EncryptedRecord {
            id: value.id,
            vault_id: value.vault_id,
            encrypted_record_key: value.encrypted_record_key,
            encrypted_data_blob: value.encrypted_data_blob,
            created_at: value.created_at,
            updated_at: value.updated_at,
        }
    }
}

impl vstd::std_specs::convert::FromSpecImpl<Record> for EncryptedRecord {
    open spec fn obeys_from_spec() -> bool {
        true
    }

    open spec fn from_spec(value: Record) -> EncryptedRecord {
        EncryptedRecord {
            id: value.id,
            vault_id: value.vault_id,
            encrypted_record_key: value.encrypted_record_key,
            encrypted_data_blob: value.encrypted_data_blob,
            created_at: value.created_at,
            updated_at: value.updated_at,
        }
    }
}

fn copy_text(s: &str) -> (r: String)
    ensures
        r@ == s@,
{
    s.to_owned()
}

/// Registration start: the email and the first client message, base64-encoded.
pub fn registration_start_request(email: &str, client_message: &[u8]) -> (r: RegistrationStartRequest)
    ensures
        r.email@ == email@,
        r.client_start@ == base64_text(client_message@),
{
    RegistrationStartRequest { email: copy_text(email), client_start: b64_encode(client_message) }
}

/// Registration finish: the email, the fresh salt and the second client message, base64-encoded.
pub fn registration_finish_request(email: &str, salt: &[u8], client_message: &[u8]) -> (r: RegistrationFinishRequest)
    ensures
        r.email@ == email@,
        r.salt@ == base64_text(salt@),
        r.client_finish@ == base64_text(client_message@),
{
    RegistrationFinishRequest {
        email: copy_text(email),
        salt: b64_encode(salt),
        client_finish: b64_encode(client_message),
    }
}

/// Login start: the email and the first client message, base64-encoded.
pub fn login_start_request(email: &str, client_message: &[u8]) -> (r: LoginStartRequest)
    ensures
        r.email@ == email@,
        r.client_start@ == base64_text(client_message@),
{
    LoginStartRequest { email: copy_text(email), client_start: b64_encode(client_message) }
}

/// Login finish: the email and the second client message, base64-encoded.
pub fn login_finish_request(email: &str, client_message: &[u8]) -> (r: LoginFinishRequest)
    ensures
        r.email@ == email@,
        r.client_finish@ == base64_text(client_message@),
{
    LoginFinishRequest { email: copy_text(email), client_finish: b64_encode(client_message) }
}

/// Decodes a base64 field of a server answer; a malformed one is an authentication error.
pub fn decode_server_field(text: &str) -> (r: Result<Vec<u8>, Error>)
    ensures
        match r {
            Ok(b) => base64_bytes(text@) == Some(b@),
            Err(e) => e == Error::AuthError && base64_bytes(text@) is None,
        },
{
    match b64_decode(text) {
        Ok(b) => Ok(b),
        Err(_) => Err(Error::AuthError),
    }
}

/// The server's first handshake message of a registration.
pub fn registration_server_message(resp: &RegistrationStartResponse) -> (r: Result<Vec<u8>, Error>)
    ensures
        match r {
            Ok(b) => base64_bytes(resp.server_start@) == Some(b@),
            Err(e) => e == Error::AuthError && base64_bytes(resp.server_start@) is None,
        },
{
    decode_server_field(resp.server_start.as_str())
}

/// The server's first handshake message of a login.
pub fn login_server_message(resp: &LoginStartResponse) -> (r: Result<Vec<u8>, Error>)
    ensures
        match r {
            Ok(b) => base64_bytes(resp.message@) == Some(b@),
            Err(e) => e == Error::AuthError && base64_bytes(resp.message@) is None,
        },
{
    decode_server_field(resp.message.as_str())
}

/// Body of a create or update of a vault: its two ciphertexts.
pub fn vault_body(v: &EncryptedVault) -> (r: CreateVaultRequest)
    ensures
        r.encrypted_vault_key == v.encrypted_vault_key,
        r.encrypted_name == v.encrypted_name,
{
    CreateVaultRequest {
        encrypted_vault_key: v.encrypted_vault_key.clone(),
        encrypted_name: v.encrypted_name.clone(),
    }
}

/// Body of a create or update of a record: its two ciphertexts.
pub fn record_body(r: &EncryptedRecord) -> (b: CreateRecordRequest)
    ensures
        b.encrypted_record_key == r.encrypted_record_key,
        b.encrypted_data_blob == r.encrypted_data_blob,
{
    CreateRecordRequest {
        encrypted_record_key: r.encrypted_record_key.clone(),
        encrypted_data_blob: r.encrypted_data_blob.clone(),
    }
}

} // verus!
