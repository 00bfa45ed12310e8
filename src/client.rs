//! The session: a `LockedClient` holds only configuration; unlocking derives the master
//! key and yields an `UnlockedClient`, which exposes CRUD over vaults and records and the
//! sync engine's steps. Locking overwrites the master key with zeros.
use vstd::prelude::*;
use vstd::utf8::*;

use crate::codec::{
    decrypt_record, decrypt_vault, encrypt_record, encrypt_vault, lemma_record_round_trip,
    lemma_vault_round_trip, open_field, opened_record, opened_vault, seal_field, unwrap_field,
};
use crate::crypto::{
    base64_bytes, derive_key, derived_key, generate_key, utf8_bytes, wipe, KEY_LEN, MAX_MESSAGE_LEN,
};
use crate::error::Error;
use crate::model::{Config, EncryptedRecord, EncryptedVault, PlainRecord, PlainVault};
use crate::outbox::{Action, DrainStep, EntityType, OutboxEntry, OutboxStatus, Payload, SendOutcome, enqueued};
use crate::stamp::{new_id, now_micros};
use crate::store::{
    LocalStore, lemma_records_put_finds, lemma_vaults_put_finds, lemma_vault_pos_found,
    lemma_record_pos_found, record_pos, records_in, records_outside, records_put, records_removed, vault_pos, vaults_put,
    vaults_removed,
};
use crate::sync::{request_for, request_of, ApiRequest};
use crate::wire::{decode_server_field, LoginFinishResponse};

verus! {

broadcast use vstd::utf8::group_utf8_lib;

/// How many random ids a create draws before giving up on finding an unused one.
pub const ID_DRAWS: u32 = 8;

/// `e` is a pending mutation `action` of vault `v`.
pub open spec fn vault_mutation(e: OutboxEntry, action: Action, v: EncryptedVault) -> bool {
    &&& e.action == action
    &&& e.entity_type == EntityType::Vault
    &&& e.status == OutboxStatus::Pending
    &&& e.attempts == 0
    &&& e.payload == Payload::Vault(v)
}

/// `e` is a pending mutation `action` of record `r`.
pub open spec fn record_mutation(e: OutboxEntry, action: Action, r: EncryptedRecord) -> bool {
    &&& e.action == action
    &&& e.entity_type == EntityType::Record
    &&& e.status == OutboxStatus::Pending
    &&& e.attempts == 0
    &&& e.payload == Payload::Record(r)
}

/// `p` is what `v` decrypts to under `master`.
pub open spec fn vault_listed(v: EncryptedVault, master: Seq<u8>, p: PlainVault) -> bool {
    &&& opened_vault(v, master) == Some((p.name@, p.key@))
    &&& p.id == v.id
    &&& p.created_at == v.created_at
    &&& p.updated_at == v.updated_at
}

/// `p` is what `r` decrypts to under `vault_key`.
pub open spec fn record_listed(r: EncryptedRecord, vault_key: Seq<u8>, p: PlainRecord) -> bool {
    &&& opened_record(r, vault_key) == Some((p.data@, p.key@))
    &&& p.id == r.id
    &&& p.vault_id == r.vault_id
    &&& p.created_at == r.created_at
    &&& p.updated_at == r.updated_at
}

/// The vault stored under `id`.
pub open spec fn stored_vault(s: Seq<EncryptedVault>, id: u128) -> EncryptedVault {
    s[vault_pos(s, id)->Some_0]
}

/// The record stored under its key.
pub open spec fn stored_record(s: Seq<EncryptedRecord>, vault_id: u128, id: u128) -> EncryptedRecord {
    s[record_pos(s, vault_id, id)->Some_0]
}

/// The key of vault `vault_id` as the master key unwraps it, if it is stored and opens.
pub open spec fn vault_key_of(s: Seq<EncryptedVault>, master: Seq<u8>, vault_id: u128) -> Option<Seq<u8>> {
    match vault_pos(s, vault_id) {
        Some(i) => unwrap_field(master, s[i].encrypted_vault_key@),
        None => None,
    }
}

/// A session with no key material: its configuration only.
pub struct LockedClient {
    config: Config,
}

impl LockedClient {
    pub closed spec fn spec_config(&self) -> Config {
        self.config
    }

    /// A locked session over a configuration.
    pub fn from_config(config: Config) -> (r: Result<LockedClient, Error>)
        ensures
            r matches Ok(c) && c.spec_config() == config,
    {
        Ok(LockedClient { config })
    }

    /// The session's configuration.
    pub fn config(&self) -> (r: &Config)
        ensures
            *r == self.spec_config(),
    {
        &self.config
    }

    /// Unlocks without a server: derives the master key from the passphrase and the salt
    /// already in the configuration, over the local store that was opened for it.
    pub fn unlock_offline(self, password: &str, store: LocalStore) -> (r: Result<UnlockedClient, Error>)
        ensures
            match r {
                Ok(c) => {
                    &&& derived_key(password@, self.spec_config().salt@) == Ok::<Seq<u8>, Error>(c.spec_master_key())
                    &&& c.spec_master_key().len() == KEY_LEN
                    &&& c.spec_config() == self.spec_config()
                    &&& c.spec_access_token() is None
                    &&& c.spec_store() == store
                    &&& !c.spec_syncing()
                },
                Err(e) => derived_key(password@, self.spec_config().salt@) == Err::<Seq<u8>, Error>(e),
            },
    {
        let master_key = derive_key(password, self.config.salt.as_slice())?;
        Ok(UnlockedClient {
            config: self.config,
            access_token: None,
            master_key,
            store,
            syncing: false,
            background: false,
        })
    }

    /// Completes a login: stores the salt that the server returned, derives the master key
    /// from it and keeps the access token. A salt that is not base64 is an authentication error.
    pub fn login(self, password: &str, response: LoginFinishResponse, store: LocalStore) -> (r: Result<UnlockedClient, Error>)
        ensures
            match base64_bytes(response.salt@) {
                None => r == Err::<UnlockedClient, Error>(Error::AuthError),
                Some(salt) => match r {
                    Ok(c) => {
                        &&& derived_key(password@, salt) == Ok::<Seq<u8>, Error>(c.spec_master_key())
                        &&& c.spec_master_key().len() == KEY_LEN
                        &&& c.spec_config().salt@ == salt
                        &&& c.spec_config().api_base_url == self.spec_config().api_base_url
                        &&& c.spec_access_token() == Some(response.access_token)
                        &&& c.spec_store() == store
                        &&& !c.spec_syncing()
                    },
                    Err(e) => derived_key(password@, salt) == Err::<Seq<u8>, Error>(e),
                },
            },
    {
        let salt = decode_server_field(response.salt.as_str())?;
        let master_key = derive_key(password, salt.as_slice())?;
        let config = Config { api_base_url: self.config.api_base_url, salt };
        Ok(UnlockedClient {
            config,
            access_token: Some(response.access_token),
            master_key,
            store,
            syncing: false,
            background: false,
        })
    }
}

/// An unlocked session: the master key, the local store and, when online, the access token.
pub struct UnlockedClient {
    config: Config,
    access_token: Option<String>,
    master_key: Vec<u8>,
    store: LocalStore,
    syncing: bool,
    background: bool,
}

impl UnlockedClient {
    pub closed spec fn spec_config(&self) -> Config {
        self.config
    }

    pub closed spec fn spec_access_token(&self) -> Option<String> {
        self.access_token
    }

    pub closed spec fn spec_master_key(&self) -> Seq<u8> {
        self.master_key@
    }

    pub closed spec fn spec_store(&self) -> LocalStore {
        self.store
    }

    pub closed spec fn spec_syncing(&self) -> bool {
        self.syncing
    }

    pub closed spec fn spec_background(&self) -> bool {
        self.background
    }

    /// Nothing but the store changed.
    pub open spec fn same_session(&self, other: &UnlockedClient) -> bool {
        &&& self.spec_config() == other.spec_config()
        &&& self.spec_access_token() == other.spec_access_token()
        &&& self.spec_master_key() == other.spec_master_key()
        &&& self.spec_syncing() == other.spec_syncing()
        &&& self.spec_background() == other.spec_background()
    }

    /// Locks the session: the master key is overwritten with zeros before it is dropped,
    /// and the store handle and access token are dropped.
    pub fn lock(self) -> (r: LockedClient)
        ensures
            r.spec_config() == self.spec_config(),
    {
        let (locked, _residue) = self.lock_and_expose_key_buffer();
        locked
    }

    /// Locks the session and hands out the buffer that held the master key, for inspection:
    /// it has the key's length and every byte is zero.
    pub fn lock_and_expose_key_buffer(self) -> (r: (LockedClient, Vec<u8>))
        ensures
            r.0.spec_config() == self.spec_config(),
            r.1@.len() == self.spec_master_key().len(),
            forall|i: int| 0 <= i < r.1@.len() ==> r.1@[i] == 0u8,
    {
        let mut key = self.master_key;
        wipe(&mut key);
        (LockedClient { config: self.config }, key)
    }

    /// Whether the session was unlocked against the server.
    pub fn is_online(&self) -> (r: bool)
        ensures
            r == self.spec_access_token() is Some,
    {
        self.access_token.is_some()
    }

    /// The session's configuration (with the salt that login stored).
    pub fn config(&self) -> (r: &Config)
        ensures
            *r == self.spec_config(),
    {
        &self.config
    }

    /// The local store.
    pub fn store(&self) -> (r: &LocalStore)
        ensures
            *r == self.spec_store(),
    {
        &self.store
    }

    /// The access token, when online.
    pub fn access_token(&self) -> (r: Option<&String>)
        ensures
            match r {
                Some(t) => self.spec_access_token() == Some(*t),
                None => self.spec_access_token() is None,
            },
    {
        match &self.access_token {
            Some(t) => Some(t),
            None => None,
        }
    }

    // ------------------------------------------------------------------------------------
    // Vaults

    /// Decrypts every stored vault, in insertion order. A vault that does not open under the
    /// master key fails the whole listing with `CryptoError`.
    pub fn list_vaults(&self) -> (r: Result<Vec<PlainVault>, Error>)
        ensures
            match r {
                Ok(vs) => {
                    &&& vs@.len() == self.spec_store().spec_vaults().len()
                    &&& forall|j: int| 0 <= j < vs@.len() ==> vault_listed(
                        #[trigger] self.spec_store().spec_vaults()[j],
                        self.spec_master_key(),
                        vs@[j],
                    )
                },
                Err(e) => {
                    &&& e == Error::CryptoError
                    &&& exists|j: int| 0 <= j < self.spec_store().spec_vaults().len()
                        && opened_vault(#[trigger] self.spec_store().spec_vaults()[j], self.spec_master_key()) is None
                },
            },
    {
        let vaults = self.store.vaults();
        let mut out: Vec<PlainVault> = Vec::new();
        let mut i: usize = 0;
        while i < vaults.len()
            invariant
                i <= vaults@.len(),
                vaults@ == self.spec_store().spec_vaults(),
                out@.len() == i,
                forall|j: int| 0 <= j < i ==> vault_listed(#[trigger] vaults@[j], self.master_key@, out@[j]),
            decreases vaults@.len() - i,
        {
            match decrypt_vault(&vaults[i], self.master_key.as_slice()) {
                Ok(p) => out.push(p),
                Err(e) => {
                    proof {
                        assert(opened_vault(vaults@[i as int], self.master_key@) is None);
                    }
                    return Err(e);
                },
            }
            i += 1;
        }
        Ok(out)
    }

    /// Stores a new vault under `id` with a fresh key and records its creation in the outbox.
    fn insert_new_vault(&mut self, id: u128, name: &str) -> (r: Result<PlainVault, Error>)
        requires
            old(self).spec_store().wf(),
        ensures
            final(self).spec_store().wf(),
            final(self).same_session(old(self)),
            final(self).spec_store().spec_records() == old(self).spec_store().spec_records(),
            final(self).spec_store().spec_watermark() == old(self).spec_store().spec_watermark(),
            r is Ok <==> (old(self).spec_master_key().len() == KEY_LEN && encode_utf8(name@).len() < MAX_MESSAGE_LEN),
            match r {
                Ok(p) => {
                    let vs = final(self).spec_store().spec_vaults();
                    let v = stored_vault(vs, id);
                    &&& p.id == id
                    &&& p.name@ == name@
                    &&& p.key@.len() == KEY_LEN
                    &&& p.created_at == p.updated_at
                    &&& vault_pos(vs, id) is Some
                    &&& vault_listed(v, old(self).spec_master_key(), p)
                    &&& vs == vaults_put(old(self).spec_store().spec_vaults(), v)
                    &&& exists|e: OutboxEntry| vault_mutation(e, Action::Create, v)
                        && final(self).spec_store().spec_outbox() == #[trigger] enqueued(old(self).spec_store().spec_outbox(), e)
                },
                Err(e) => e == Error::CryptoError && final(self).spec_store() == old(self).spec_store(),
            },
    {
        let now = now_micros();
        let plain = PlainVault { id, name: name.to_owned(), key: generate_key(), created_at: now, updated_at: now };
        let encrypted = encrypt_vault(&plain, self.master_key.as_slice())?;
        let ghost v = encrypted;
        proof {
            lemma_vault_round_trip(v, self.master_key@, plain.name@, plain.key@);
        }
        let entry = OutboxEntry::new(Action::Create, EntityType::Vault, Payload::Vault(encrypted.duplicate()));
        let ghost e = entry;
        self.store.enqueue(entry);
        self.store.put_vault(encrypted);
        proof {
            lemma_vaults_put_finds(old(self).spec_store().spec_vaults(), v);
            assert(vault_mutation(e, Action::Create, v));
        }
        Ok(plain)
    }

    /// A random id that no stored vault has; `None` only if every one of a few draws collided.
    fn fresh_vault_id(&self) -> (r: Option<u128>)
        ensures
            r matches Some(id) ==> vault_pos(self.spec_store().spec_vaults(), id) is None,
    {
        let mut tries: u32 = 0;
        while tries < ID_DRAWS
            decreases ID_DRAWS - tries,
        {
            let id = new_id();
            if self.store.find_vault(id).is_none() {
                return Some(id);
            }
            tries += 1;
        }
        None
    }

    /// Creates a vault with a fresh id (one that no stored vault has) and a fresh 32-byte
    /// key; the encrypted vault and a `Create` outbox entry are written together. Only when
    /// every drawn id is already taken does it fail with `StoreError`.
    pub fn create_vault(&mut self, name: &str) -> (r: Result<PlainVault, Error>)
        requires
            old(self).spec_store().wf(),
        ensures
            final(self).spec_store().wf(),
            final(self).same_session(old(self)),
            final(self).spec_store().spec_records() == old(self).spec_store().spec_records(),
            final(self).spec_store().spec_watermark() == old(self).spec_store().spec_watermark(),
            r is Ok ==> (old(self).spec_master_key().len() == KEY_LEN && encode_utf8(name@).len() < MAX_MESSAGE_LEN),
            (old(self).spec_master_key().len() == KEY_LEN && encode_utf8(name@).len() < MAX_MESSAGE_LEN) ==> (r is Ok
                || r == Err::<PlainVault, Error>(Error::StoreError)),
            match r {
                Ok(p) => {
                    let old_vs = old(self).spec_store().spec_vaults();
                    let vs = final(self).spec_store().spec_vaults();
                    let v = stored_vault(vs, p.id);
                    &&& p.name@ == name@
                    &&& p.key@.len() == KEY_LEN
                    &&& p.created_at == p.updated_at
                    &&& vault_pos(old_vs, p.id) is None
                    &&& vault_pos(vs, p.id) is Some
                    &&& vault_listed(v, old(self).spec_master_key(), p)
                    &&& vs == old_vs.push(v)
                    &&& exists|e: OutboxEntry| vault_mutation(e, Action::Create, v)
                        && final(self).spec_store().spec_outbox() == #[trigger] enqueued(old(self).spec_store().spec_outbox(), e)
                },
                Err(e) => {
                    &&& e == Error::StoreError || e == Error::CryptoError
                    &&& final(self).spec_store() == old(self).spec_store()
                },
            },
    {
        let id = match self.fresh_vault_id() {
            Some(id) => id,
            None => return Err(Error::StoreError),
        };
        self.insert_new_vault(id, name)
    }

    /// Renames a vault: its name is sealed again under its existing key and an `Update`
    /// is recorded. A vault that is not stored is created under `vault_id` (an upsert).
    pub fn update_vault(&mut self, vault_id: u128, name: &str) -> (r: Result<PlainVault, Error>)
        requires
            old(self).spec_store().wf(),
        ensures
            final(self).spec_store().wf(),
            final(self).same_session(old(self)),
            final(self).spec_store().spec_records() == old(self).spec_store().spec_records(),
            final(self).spec_store().spec_watermark() == old(self).spec_store().spec_watermark(),
            r is Ok <==> (old(self).spec_master_key().len() == KEY_LEN && encode_utf8(name@).len() < MAX_MESSAGE_LEN
                && (vault_pos(old(self).spec_store().spec_vaults(), vault_id) is Some ==> (vault_key_of(
                old(self).spec_store().spec_vaults(),
                old(self).spec_master_key(),
                vault_id,
            ) matches Some(k) && k.len() == KEY_LEN))),
            match r {
                Ok(p) => {
                    let old_vs = old(self).spec_store().spec_vaults();
                    let vs = final(self).spec_store().spec_vaults();
                    let v = stored_vault(vs, vault_id);
                    let action = if vault_pos(old_vs, vault_id) is Some { Action::Update } else { Action::Create };
                    &&& p.id == vault_id
                    &&& p.name@ == name@
                    &&& vault_pos(vs, vault_id) is Some
                    &&& vault_listed(v, old(self).spec_master_key(), p)
                    &&& p.created_at <= p.updated_at
                    &&& vs == vaults_put(old_vs, v)
                    &&& vault_pos(old_vs, vault_id) is Some ==> {
                        &&& Some(p.key@) == vault_key_of(old_vs, old(self).spec_master_key(), vault_id)
                        &&& v.encrypted_vault_key == stored_vault(old_vs, vault_id).encrypted_vault_key
                        &&& p.created_at == stored_vault(old_vs, vault_id).created_at
                        &&& p.updated_at >= stored_vault(old_vs, vault_id).updated_at
                    }
                    &&& exists|e: OutboxEntry| vault_mutation(e, action, v)
                        && final(self).spec_store().spec_outbox() == #[trigger] enqueued(old(self).spec_store().spec_outbox(), e)
                },
                Err(e) => e == Error::CryptoError && final(self).spec_store() == old(self).spec_store(),
            },
    {
        let existing = match self.store.get_vault(vault_id) {
            Some(v) => v,
            None => {
                return self.insert_new_vault(vault_id, name);
            },
        };
        proof {
            lemma_vault_pos_found(self.store.spec_vaults(), vault_id);
        }
        if self.master_key.len() != KEY_LEN {
            return Err(Error::CryptoError);
        }
        let vault_key = open_field(existing.encrypted_vault_key.as_str(), self.master_key.as_slice())?;
        let name_bytes = utf8_bytes(name);
        let encrypted_name = seal_field(name_bytes.as_slice(), vault_key.as_slice())?;
        let now = now_micros();
        let created_at = existing.created_at;
        let floor = if existing.updated_at < created_at { created_at } else { existing.updated_at };
        let updated_at = if now < floor { floor } else { now };
        let updated = EncryptedVault {
            id: vault_id,
            encrypted_vault_key: existing.encrypted_vault_key,
            encrypted_name,
            created_at: existing.created_at,
            updated_at,
        };
        let ghost v = updated;
        let entry = OutboxEntry::new(Action::Update, EntityType::Vault, Payload::Vault(updated.duplicate()));
        let ghost e = entry;
        self.store.enqueue(entry);
        self.store.put_vault(updated);
        proof {
            lemma_vaults_put_finds(old(self).spec_store().spec_vaults(), v);
            assert(vault_mutation(e, Action::Update, v));
        }
        Ok(PlainVault { id: vault_id, name: name.to_owned(), key: vault_key, created_at, updated_at })
    }

    /// Deletes a vault and its records from the store and records a `Delete` carrying the
    /// vault's last encrypted form (the server drops the vault's records with it).
    pub fn delete_vault(&mut self, vault_id: u128) -> (r: Result<(), Error>)
        requires
            old(self).spec_store().wf(),
        ensures
            final(self).spec_store().wf(),
            final(self).same_session(old(self)),
            final(self).spec_store().spec_watermark() == old(self).spec_store().spec_watermark(),
            match vault_pos(old(self).spec_store().spec_vaults(), vault_id) {
                Some(i) => {
                    &&& r is Ok
                    &&& final(self).spec_store().spec_vaults() == vaults_removed(old(self).spec_store().spec_vaults(), vault_id)
                    &&& final(self).spec_store().spec_records() == records_outside(old(self).spec_store().spec_records(), vault_id)
                    &&& exists|e: OutboxEntry| vault_mutation(e, Action::Delete, old(self).spec_store().spec_vaults()[i])
                        && final(self).spec_store().spec_outbox() == #[trigger] enqueued(old(self).spec_store().spec_outbox(), e)
                },
                None => r == Err::<(), Error>(Error::NotFound) && final(self).spec_store() == old(self).spec_store(),
            },
    {
        let removed = match self.store.remove_vault(vault_id) {
            Some(v) => v,
            None => return Err(Error::NotFound),
        };
        let ghost v = removed;
        self.store.remove_records_of(vault_id);
        let entry = OutboxEntry::new(Action::Delete, EntityType::Vault, Payload::Vault(removed));
        let ghost e = entry;
        self.store.enqueue(entry);
        proof {
            assert(vault_mutation(e, Action::Delete, v));
        }
        Ok(())
    }

    // ------------------------------------------------------------------------------------
    // Records

    /// Decrypts the records of a vault, in insertion order. A vault that is not stored has
    /// no records; a vault key or a record that does not open is a `CryptoError`.
    pub fn list_records(&self, vault_id: u128) -> (r: Result<Vec<PlainRecord>, Error>)
        ensures
            vault_pos(self.spec_store().spec_vaults(), vault_id) is None ==> (r matches Ok(rs) && rs@.len() == 0),
            vault_pos(self.spec_store().spec_vaults(), vault_id) is Some ==> match r {
                Ok(rs) => {
                    let rec = records_in(self.spec_store().spec_records(), vault_id);
                    &&& vault_key_of(self.spec_store().spec_vaults(), self.spec_master_key(), vault_id) matches Some(vk)
                    &&& rs@.len() == rec.len()
                    &&& forall|j: int| 0 <= j < rs@.len() ==> record_listed(#[trigger] rec[j], vk, rs@[j])
                },
                Err(e) => {
                    let rec = records_in(self.spec_store().spec_records(), vault_id);
                    &&& e == Error::CryptoError
                    &&& match vault_key_of(self.spec_store().spec_vaults(), self.spec_master_key(), vault_id) {
                        Some(vk) => exists|j: int| 0 <= j < rec.len() && opened_record(#[trigger] rec[j], vk) is None,
                        None => true,
                    }
                },
            },
    {
        let ev = match self.store.get_vault(vault_id) {
            Some(v) => v,
            None => return Ok(Vec::new()),
        };
        let vault_key = open_field(ev.encrypted_vault_key.as_str(), self.master_key.as_slice())?;
        let records = self.store.records_of(vault_id);
        let mut out: Vec<PlainRecord> = Vec::new();
        let mut i: usize = 0;
        while i < records.len()
            invariant
                i <= records@.len(),
                records@ == records_in(self.spec_store().spec_records(), vault_id),
                vault_pos(self.spec_store().spec_vaults(), vault_id) is Some,
                vault_key_of(self.spec_store().spec_vaults(), self.spec_master_key(), vault_id) == Some(vault_key@),
                out@.len() == i,
                forall|j: int| 0 <= j < i ==> record_listed(#[trigger] records@[j], vault_key@, out@[j]),
            decreases records@.len() - i,
        {
            match decrypt_record(&records[i], vault_key.as_slice()) {
                Ok(p) => out.push(p),
                Err(e) => {
                    proof {
                        assert(opened_record(records@[i as int], vault_key@) is None);
                    }
                    return Err(e);
                },
            }
            i += 1;
        }
        Ok(out)
    }

    /// Seals a record under a fresh or an existing key, stores it and records the mutation.
    fn store_record(
        &mut self,
        vault_key: &Vec<u8>,
        plain: PlainRecord,
        action: Action,
    ) -> (r: Result<PlainRecord, Error>)
        requires
            vault_key@.len() == KEY_LEN,
            plain.key@.len() == KEY_LEN,
            old(self).spec_store().wf(),
        ensures
            final(self).spec_store().wf(),
            final(self).same_session(old(self)),
            final(self).spec_store().spec_vaults() == old(self).spec_store().spec_vaults(),
            final(self).spec_store().spec_watermark() == old(self).spec_store().spec_watermark(),
            r is Ok <==> encode_utf8(plain.data@).len() < MAX_MESSAGE_LEN,
            match r {
                Ok(p) => {
                    let rs = final(self).spec_store().spec_records();
                    let rec = stored_record(rs, plain.vault_id, plain.id);
                    &&& p == plain
                    &&& record_pos(rs, plain.vault_id, plain.id) is Some
                    &&& record_listed(rec, vault_key@, p)
                    &&& rs == records_put(old(self).spec_store().spec_records(), rec)
                    &&& exists|e: OutboxEntry| record_mutation(e, action, rec)
                        && final(self).spec_store().spec_outbox() == #[trigger] enqueued(old(self).spec_store().spec_outbox(), e)
                },
                Err(e) => e == Error::CryptoError && final(self).spec_store() == old(self).spec_store(),
            },
    {
        let encrypted = encrypt_record(&plain, vault_key.as_slice())?;
        let ghost rec = encrypted;
        proof {
            lemma_record_round_trip(rec, vault_key@, plain.data@, plain.key@);
        }
        let entry = OutboxEntry::new(action, EntityType::Record, Payload::Record(encrypted.duplicate()));
        let ghost e = entry;
        self.store.enqueue(entry);
        self.store.put_record(encrypted);
        proof {
            lemma_records_put_finds(old(self).spec_store().spec_records(), rec);
            assert(record_mutation(e, action, rec));
        }
        Ok(plain)
    }

    /// The key of a stored vault, unwrapped under the master key.
    fn vault_key(&self, vault_id: u128) -> (r: Result<Vec<u8>, Error>)
        ensures
            match r {
                Ok(k) => vault_key_of(self.spec_store().spec_vaults(), self.spec_master_key(), vault_id) == Some(k@),
                Err(e) => match vault_pos(self.spec_store().spec_vaults(), vault_id) {
                    None => e == Error::NotFound,
                    Some(_) => e == Error::CryptoError && vault_key_of(
                        self.spec_store().spec_vaults(),
                        self.spec_master_key(),
                        vault_id,
                    ) is None,
                },
            },
    {
        let ev = match self.store.get_vault(vault_id) {
            Some(v) => v,
            None => return Err(Error::NotFound),
        };
        open_field(ev.encrypted_vault_key.as_str(), self.master_key.as_slice())
    }

    /// Creates a record in a stored vault with a fresh id and key, and records a `Create`.
    pub fn create_record(&mut self, vault_id: u128, data: &str) -> (r: Result<PlainRecord, Error>)
        requires
            old(self).spec_store().wf(),
        ensures
            final(self).spec_store().wf(),
            final(self).same_session(old(self)),
            final(self).spec_store().spec_vaults() == old(self).spec_store().spec_vaults(),
            final(self).spec_store().spec_watermark() == old(self).spec_store().spec_watermark(),
            r is Err ==> final(self).spec_store() == old(self).spec_store(),
            match vault_key_of(old(self).spec_store().spec_vaults(), old(self).spec_master_key(), vault_id) {
                None => r is Err && (vault_pos(old(self).spec_store().spec_vaults(), vault_id) is None
                    ==> r == Err::<PlainRecord, Error>(Error::NotFound)),
                Some(vk) => {
                    &&& r is Ok ==> (vk.len() == KEY_LEN && encode_utf8(data@).len() < MAX_MESSAGE_LEN)
                    &&& (vk.len() == KEY_LEN && encode_utf8(data@).len() < MAX_MESSAGE_LEN) ==> (r is Ok
                        || r == Err::<PlainRecord, Error>(Error::StoreError))
                    &&& r matches Err(e) ==> (e == Error::CryptoError || e == Error::StoreError)
                    &&& r matches Ok(p) ==> {
                        let old_rs = old(self).spec_store().spec_records();
                        let rs = final(self).spec_store().spec_records();
                        let rec = stored_record(rs, vault_id, p.id);
                        &&& p.vault_id == vault_id
                        &&& p.data@ == data@
                        &&& p.key@.len() == KEY_LEN
                        &&& p.created_at == p.updated_at
                        &&& record_pos(old_rs, vault_id, p.id) is None
                        &&& record_pos(rs, vault_id, p.id) is Some
                        &&& record_listed(rec, vk, p)
                        &&& rs == old_rs.push(rec)
                        &&& exists|e: OutboxEntry| record_mutation(e, Action::Create, rec)
                            && final(self).spec_store().spec_outbox() == #[trigger] enqueued(old(self).spec_store().spec_outbox(), e)
                    }
                },
            },
    {
        let vault_key = self.vault_key(vault_id)?;
        if vault_key.len() != KEY_LEN {
            return Err(Error::CryptoError);
        }
        let id = match self.fresh_record_id(vault_id) {
            Some(id) => id,
            None => return Err(Error::StoreError),
        };
        let now = now_micros();
        let plain = PlainRecord {
            id,
            vault_id,
            data: data.to_owned(),
            key: generate_key(),
            created_at: now,
            updated_at: now,
        };
        self.store_record(&vault_key, plain, Action::Create)
    }

    /// A random record id that no stored record of the vault has; `None` only if every one
    /// of a few draws collided.
    fn fresh_record_id(&self, vault_id: u128) -> (r: Option<u128>)
        ensures
            r matches Some(id) ==> record_pos(self.spec_store().spec_records(), vault_id, id) is None,
    {
        let mut tries: u32 = 0;
        while tries < ID_DRAWS
            decreases ID_DRAWS - tries,
        {
            let id = new_id();
            if self.store.find_record(vault_id, id).is_none() {
                return Some(id);
            }
            tries += 1;
        }
        None
    }

    /// Replaces a record's payload, keeping its key and creation instant; a record that is
    /// not stored is created under `record_id` with a fresh key.
    pub fn update_record(&mut self, vault_id: u128, record_id: u128, data: &str) -> (r: Result<PlainRecord, Error>)
        requires
            old(self).spec_store().wf(),
        ensures
            final(self).spec_store().wf(),
            final(self).same_session(old(self)),
            final(self).spec_store().spec_vaults() == old(self).spec_store().spec_vaults(),
            final(self).spec_store().spec_watermark() == old(self).spec_store().spec_watermark(),
            r is Err ==> final(self).spec_store() == old(self).spec_store(),
            match vault_key_of(old(self).spec_store().spec_vaults(), old(self).spec_master_key(), vault_id) {
                None => r is Err && (vault_pos(old(self).spec_store().spec_vaults(), vault_id) is None
                    ==> r == Err::<PlainRecord, Error>(Error::NotFound)),
                Some(vk) => {
                    let old_rs = old(self).spec_store().spec_records();
                    let existed = record_pos(old_rs, vault_id, record_id) is Some;
                    let action = if existed { Action::Update } else { Action::Create };
                    &&& r matches Err(e) ==> e == Error::CryptoError
                    &&& r matches Ok(p) ==> {
                        let rs = final(self).spec_store().spec_records();
                        let rec = stored_record(rs, vault_id, record_id);
                        &&& p.id == record_id
                        &&& p.vault_id == vault_id
                        &&& p.data@ == data@
                        &&& p.created_at <= p.updated_at
                        &&& record_pos(rs, vault_id, record_id) is Some
                        &&& record_listed(rec, vk, p)
                        &&& rs == records_put(old_rs, rec)
                        &&& existed ==> {
                            &&& Some(p.key@) == unwrap_field(vk, stored_record(old_rs, vault_id, record_id).encrypted_record_key@)
                            &&& p.created_at == stored_record(old_rs, vault_id, record_id).created_at
                            &&& p.updated_at >= stored_record(old_rs, vault_id, record_id).updated_at
                        }
                        &&& exists|e: OutboxEntry| record_mutation(e, action, rec)
                            && final(self).spec_store().spec_outbox() == #[trigger] enqueued(old(self).spec_store().spec_outbox(), e)
                    }
                    &&& !existed ==> (r is Ok <==> (vk.len() == KEY_LEN && encode_utf8(data@).len() < MAX_MESSAGE_LEN))
                    &&& existed ==> (r is Ok <==> (vk.len() == KEY_LEN && (unwrap_field(
                        vk,
                        stored_record(old_rs, vault_id, record_id).encrypted_record_key@,
                    ) matches Some(k) && k.len() == KEY_LEN) && encode_utf8(data@).len() < MAX_MESSAGE_LEN))
                },
            },
    {
        let vault_key = self.vault_key(vault_id)?;
        if vault_key.len() != KEY_LEN {
            return Err(Error::CryptoError);
        }
        let now = now_micros();
        let (record_key, created_at, floor, action) = match self.store.get_record(vault_id, record_id) {
            Some(existing) => {
                proof {
                    lemma_record_pos_found(self.store.spec_records(), vault_id, record_id);
                }
                let k = open_field(existing.encrypted_record_key.as_str(), vault_key.as_slice())?;
                if k.len() != KEY_LEN {
                    return Err(Error::CryptoError);
                }
                let floor = if existing.updated_at < existing.created_at {
                    existing.created_at
                } else {
                    existing.updated_at
                };
                (k, existing.created_at, floor, Action::Update)
            },
            None => (generate_key(), now, now, Action::Create),
        };
        let updated_at = if now < floor { floor } else { now };
        let plain = PlainRecord { id: record_id, vault_id, data: data.to_owned(), key: record_key, created_at, updated_at };
        self.store_record(&vault_key, plain, action)
    }

    /// Deletes a record from the store and records a `Delete` carrying its last encrypted form.
    pub fn delete_record(&mut self, vault_id: u128, record_id: u128) -> (r: Result<(), Error>)
        requires
            old(self).spec_store().wf(),
        ensures
            final(self).spec_store().wf(),
            final(self).same_session(old(self)),
            final(self).spec_store().spec_vaults() == old(self).spec_store().spec_vaults(),
            final(self).spec_store().spec_watermark() == old(self).spec_store().spec_watermark(),
            match record_pos(old(self).spec_store().spec_records(), vault_id, record_id) {
                Some(i) => {
                    &&& r is Ok
                    &&& final(self).spec_store().spec_records() == records_removed(
                        old(self).spec_store().spec_records(),
                        vault_id,
                        record_id,
                    )
                    &&& exists|e: OutboxEntry| record_mutation(e, Action::Delete, old(self).spec_store().spec_records()[i])
                        && final(self).spec_store().spec_outbox() == #[trigger] enqueued(old(self).spec_store().spec_outbox(), e)
                },
                None => r == Err::<(), Error>(Error::NotFound) && final(self).spec_store() == old(self).spec_store(),
            },
    {
        let removed = match self.store.remove_record(vault_id, record_id) {
            Some(r) => r,
            None => return Err(Error::NotFound),
        };
        let ghost rec = removed;
        let entry = OutboxEntry::new(Action::Delete, EntityType::Record, Payload::Record(removed));
        let ghost e = entry;
        self.store.enqueue(entry);
        proof {
            assert(record_mutation(e, Action::Delete, rec));
        }
        Ok(())
    }

    // ------------------------------------------------------------------------------------
    // Sync

    /// Takes the sync lock for one cycle. Offline sessions cannot sync; a second cycle while
    /// one runs is refused.
    pub fn begin_sync(&mut self) -> (r: Result<(), Error>)
        ensures
            old(self).spec_access_token() is None ==> r == Err::<(), Error>(Error::SyncInOfflineMode),
            old(self).spec_access_token() is Some && old(self).spec_syncing() ==> r == Err::<(), Error>(Error::SyncBusy),
            old(self).spec_access_token() is Some && !old(self).spec_syncing() ==> r is Ok,
            final(self).spec_syncing() == (old(self).spec_syncing() || r is Ok),
            final(self).spec_store() == old(self).spec_store(),
            final(self).spec_master_key() == old(self).spec_master_key(),
            final(self).spec_access_token() == old(self).spec_access_token(),
            final(self).spec_config() == old(self).spec_config(),
            final(self).spec_background() == old(self).spec_background(),
    {
        if self.access_token.is_none() {
            return Err(Error::SyncInOfflineMode);
        }
        if self.syncing {
            return Err(Error::SyncBusy);
        }
        self.syncing = true;
        Ok(())
    }

    /// Releases the sync lock and drops the outbox entries that the server acknowledged.
    pub fn end_sync(&mut self)
        ensures
            !final(self).spec_syncing(),
            final(self).spec_store().spec_outbox() == crate::outbox::unsent(old(self).spec_store().spec_outbox()),
            final(self).spec_store().spec_vaults() == old(self).spec_store().spec_vaults(),
            final(self).spec_store().spec_records() == old(self).spec_store().spec_records(),
            final(self).spec_store().spec_watermark() == old(self).spec_store().spec_watermark(),
            final(self).spec_master_key() == old(self).spec_master_key(),
            final(self).spec_access_token() == old(self).spec_access_token(),
            final(self).spec_config() == old(self).spec_config(),
            final(self).spec_background() == old(self).spec_background(),
    {
        self.store.remove_sent();
        self.syncing = false;
    }

    /// Drain phase, one step: the first entry at or after `from` still to be sent, marked
    /// `InFlight`, with the server call that replays it.
    pub fn next_request(&mut self, from: usize) -> (r: Option<(usize, ApiRequest)>)
        ensures
            final(self).same_session(old(self)),
            final(self).spec_store().spec_vaults() == old(self).spec_store().spec_vaults(),
            final(self).spec_store().spec_records() == old(self).spec_store().spec_records(),
            final(self).spec_store().spec_watermark() == old(self).spec_store().spec_watermark(),
            match r {
                Some((i, req)) => {
                    let ob = old(self).spec_store().spec_outbox();
                    &&& from <= i < ob.len()
                    &&& crate::outbox::sendable(ob[i as int])
                    &&& forall|j: int| from <= j < i ==> !crate::outbox::sendable(#[trigger] ob[j])
                    &&& req == request_of(ob[i as int])
                    &&& final(self).spec_store().spec_outbox() == ob.update(
                        i as int,
                        crate::outbox::with_status(ob[i as int], OutboxStatus::InFlight),
                    )
                },
                None => {
                    &&& forall|j: int| from <= j < old(self).spec_store().spec_outbox().len()
                        ==> !crate::outbox::sendable(#[trigger] old(self).spec_store().spec_outbox()[j])
                    &&& final(self).spec_store() == old(self).spec_store()
                },
            },
    {
        match self.store.next_sendable(from) {
            Some(i) => {
                let req = request_for(self.store.outbox_entry(i));
                self.store.mark_in_flight(i);
                Some((i, req))
            },
            None => None,
        }
    }

    /// Drain phase: records what the server answered for outbox entry `i`.
    pub fn record_outcome(&mut self, i: usize, outcome: SendOutcome) -> (r: DrainStep)
        requires
            i < old(self).spec_store().spec_outbox().len(),
        ensures
            final(self).same_session(old(self)),
            r == crate::outbox::outcome_step(outcome),
            final(self).spec_store().spec_outbox() == old(self).spec_store().spec_outbox().update(
                i as int,
                crate::outbox::after_outcome(old(self).spec_store().spec_outbox()[i as int], outcome),
            ),
            final(self).spec_store().spec_vaults() == old(self).spec_store().spec_vaults(),
            final(self).spec_store().spec_records() == old(self).spec_store().spec_records(),
            final(self).spec_store().spec_watermark() == old(self).spec_store().spec_watermark(),
    {
        self.store.record_outcome(i, outcome)
    }

    /// Pull phase for vaults: merges what the server returned since the watermark.
    pub fn pull_vaults(&mut self, remote: Vec<EncryptedVault>)
        requires
            old(self).spec_store().wf(),
        ensures
            final(self).spec_store().wf(),
            final(self).same_session(old(self)),
            final(self).spec_store().spec_vaults() == crate::sync::vaults_merged(old(self).spec_store().spec_vaults(), remote@),
            final(self).spec_store().spec_watermark() == crate::sync::watermark_after(
                old(self).spec_store().spec_watermark(),
                crate::sync::vault_instants(remote@),
            ),
            final(self).spec_store().spec_records() == old(self).spec_store().spec_records(),
            final(self).spec_store().spec_outbox() == old(self).spec_store().spec_outbox(),
    {
        crate::sync::pull_vaults(&mut self.store, remote);
    }

    /// Pull phase for records: merges what the server returned since the watermark.
    pub fn pull_records(&mut self, remote: Vec<EncryptedRecord>)
        requires
            old(self).spec_store().wf(),
        ensures
            final(self).spec_store().wf(),
            final(self).same_session(old(self)),
            final(self).spec_store().spec_records() == crate::sync::records_merged(old(self).spec_store().spec_records(), remote@),
            final(self).spec_store().spec_watermark() == crate::sync::watermark_after(
                old(self).spec_store().spec_watermark(),
                crate::sync::record_instants(remote@),
            ),
            final(self).spec_store().spec_vaults() == old(self).spec_store().spec_vaults(),
            final(self).spec_store().spec_outbox() == old(self).spec_store().spec_outbox(),
    {
        crate::sync::pull_records(&mut self.store, remote);
    }

    /// After the server stored a created vault, the local copy takes the server's timestamps.
    pub fn adopt_server_timestamps(&mut self, id: u128, created_at: i64, updated_at: i64) -> (r: bool)
        requires
            old(self).spec_store().wf(),
        ensures
            final(self).spec_store().wf(),
            final(self).same_session(old(self)),
            r == vault_pos(old(self).spec_store().spec_vaults(), id) is Some,
            final(self).spec_store().spec_vaults() == match vault_pos(old(self).spec_store().spec_vaults(), id) {
                Some(i) => old(self).spec_store().spec_vaults().update(
                    i,
                    EncryptedVault {
                        id: old(self).spec_store().spec_vaults()[i].id,
                        encrypted_vault_key: old(self).spec_store().spec_vaults()[i].encrypted_vault_key,
                        encrypted_name: old(self).spec_store().spec_vaults()[i].encrypted_name,
                        created_at: created_at,
                        updated_at: updated_at,
                    },
                ),
                None => old(self).spec_store().spec_vaults(),
            },
            final(self).spec_store().spec_records() == old(self).spec_store().spec_records(),
            final(self).spec_store().spec_outbox() == old(self).spec_store().spec_outbox(),
            final(self).spec_store().spec_watermark() == old(self).spec_store().spec_watermark(),
    {
        crate::sync::adopt_server_timestamps(&mut self.store, id, created_at, updated_at)
    }

    /// Marks background sync as started; offline sessions cannot sync.
    pub fn start_background_sync(&mut self) -> (r: Result<(), Error>)
        ensures
            old(self).spec_access_token() is None ==> r == Err::<(), Error>(Error::SyncInOfflineMode),
            old(self).spec_access_token() is Some ==> r is Ok,
            final(self).spec_background() == (old(self).spec_background() || r is Ok),
            final(self).spec_store() == old(self).spec_store(),
            final(self).spec_master_key() == old(self).spec_master_key(),
            final(self).spec_access_token() == old(self).spec_access_token(),
            final(self).spec_syncing() == old(self).spec_syncing(),
            final(self).spec_config() == old(self).spec_config(),
    {
        if self.access_token.is_none() {
            return Err(Error::SyncInOfflineMode);
        }
        self.background = true;
        Ok(())
    }

    /// Marks background sync as stopped.
    pub fn stop_background_sync(&mut self) -> (r: Result<(), Error>)
        ensures
            r is Ok,
            !final(self).spec_background(),
            final(self).spec_store() == old(self).spec_store(),
            final(self).spec_master_key() == old(self).spec_master_key(),
            final(self).spec_access_token() == old(self).spec_access_token(),
            final(self).spec_syncing() == old(self).spec_syncing(),
            final(self).spec_config() == old(self).spec_config(),
    {
        self.background = false;
        Ok(())
    }

    /// Whether background sync is running.
    pub fn background_sync_running(&self) -> (r: bool)
        ensures
            r == self.spec_background(),
    {
        self.background
    }
}

/// A vault that `create_vault` stored is listed by `list_vaults` exactly once, under its
/// id, with the name it was created with.
pub proof fn lemma_created_vault_is_listed(
    before: Seq<EncryptedVault>,
    after: Seq<EncryptedVault>,
    master: Seq<u8>,
    p: PlainVault,
    listed: Seq<PlainVault>,
)
    requires
        crate::store::unique_vault_ids(after),
        vault_pos(after, p.id) is Some,
        vault_listed(stored_vault(after, p.id), master, p),
        listed.len() == after.len(),
        forall|j: int| 0 <= j < listed.len() ==> vault_listed(#[trigger] after[j], master, listed[j]),
    ensures
        exists|j: int| 0 <= j < listed.len() && #[trigger] listed[j].id == p.id && listed[j].name@ == p.name@
            && listed[j].key@ == p.key@,
        forall|j: int, k: int| 0 <= j < listed.len() && 0 <= k < listed.len() && #[trigger] listed[j].id == p.id
            && #[trigger] listed[k].id == p.id ==> j == k,
{
    lemma_vault_pos_found(after, p.id);
    let j = vault_pos(after, p.id)->Some_0;
    assert(vault_listed(after[j], master, listed[j]));
    assert(listed[j].id == p.id && listed[j].name@ == p.name@ && listed[j].key@ == p.key@);
    assert forall|a: int, b: int| 0 <= a < listed.len() && 0 <= b < listed.len() && #[trigger] listed[a].id == p.id
        && #[trigger] listed[b].id == p.id implies a == b by {
        assert(vault_listed(after[a], master, listed[a]));
        assert(vault_listed(after[b], master, listed[b]));
    }
}

/// After `delete_record`, no stored record has the deleted key any more.
pub proof fn lemma_deleted_record_is_gone(s: Seq<EncryptedRecord>, vault_id: u128, record_id: u128)
    requires
        crate::store::unique_record_keys(s),
    ensures
        forall|j: int| 0 <= j < records_removed(s, vault_id, record_id).len() ==> !(
        #[trigger] records_removed(s, vault_id, record_id)[j].vault_id == vault_id
            && records_removed(s, vault_id, record_id)[j].id == record_id),
{
    lemma_record_pos_found(s, vault_id, record_id);
    crate::store::lemma_record_pos_none(s, vault_id, record_id);
    let t = records_removed(s, vault_id, record_id);
    match record_pos(s, vault_id, record_id) {
        Some(i) => {
            assert forall|j: int| 0 <= j < t.len() implies !(#[trigger] t[j].vault_id == vault_id && t[j].id
                == record_id) by {
                let j0 = if j < i { j } else { j + 1 };
                assert(t[j] == s[j0]);
            }
        },
        None => {},
    }
}

} // verus!
