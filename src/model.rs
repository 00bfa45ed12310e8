//! Vaults and records, in their decrypted (in-memory) and encrypted (stored, sent) forms.
//!
//! Ids are 128-bit UUIDs held as `u128`; instants are microseconds since the Unix epoch, UTC.
use vstd::prelude::*;

verus! {

/// A vault as the caller sees it: its name and its key in the clear.
#[derive(Debug, Clone)]
pub struct PlainVault {
    pub id: u128,
    pub name: String,
    pub key: Vec<u8>,
    pub created_at: i64,
    pub updated_at: i64,
}

/// A record as the caller sees it: its payload and its key in the clear.
#[derive(Debug, Clone)]
pub struct PlainRecord {
    pub id: u128,
    pub vault_id: u128,
    pub data: String,
    pub key: Vec<u8>,
    pub created_at: i64,
    pub updated_at: i64,
}

/// The stored and transmitted form of a vault: the vault key wrapped under the master key
/// and the name sealed under the vault key, both as base64 of `nonce ‖ ciphertext ‖ tag`.
#[derive(Debug, Clone, PartialEq, Eq)]
pub struct EncryptedVault {
    pub id: u128,
    pub encrypted_vault_key: String,
    pub encrypted_name: String,
    pub created_at: i64,
    pub updated_at: i64,
}

/// The stored and transmitted form of a record: the record key wrapped under its vault's
/// key and the payload sealed under the record key.
#[derive(Debug, Clone, PartialEq, Eq)]
pub struct EncryptedRecord {
    pub id: u128,
    pub vault_id: u128,
    pub encrypted_record_key: String,
    pub encrypted_data_blob: String,
    pub created_at: i64,
    pub updated_at: i64,
}

impl EncryptedVault {
    /// A field-for-field copy.
    pub fn duplicate(&self) -> (r: EncryptedVault)
        ensures
            r == *self,
    {
        EncryptedVault {
            id: self.id,
            encrypted_vault_key: self.encrypted_vault_key.clone(),
            encrypted_name: self.encrypted_name.clone(),
            created_at: self.created_at,
            updated_at: self.updated_at,
        }
    }
}

impl EncryptedRecord {
    /// A field-for-field copy.
    pub fn duplicate(&self) -> (r: EncryptedRecord)
        ensures
            r == *self,
    {
        EncryptedRecord {
            id: self.id,
            vault_id: self.vault_id,
            encrypted_record_key: self.encrypted_record_key.clone(),
            encrypted_data_blob: self.encrypted_data_blob.clone(),
            created_at: self.created_at,
            updated_at: self.updated_at,
        }
    }
}

/// Session configuration: where the server is and the salt it issued at registration.
#[derive(Debug, Clone)]
pub struct Config {
    pub api_base_url: String,
    pub salt: Vec<u8>,
}

} // verus!
