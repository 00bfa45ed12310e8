use sanctum::client::{LockedClient, UnlockedClient};
use sanctum::codec::{decrypt_vault, encrypt_vault};
use sanctum::crypto::b64_encode;
use sanctum::error::Error;
use sanctum::model::{Config, EncryptedVault, PlainVault};
use sanctum::outbox::{Action, DrainStep, EntityType, OutboxStatus, Payload, SendOutcome};
use sanctum::store::LocalStore;
use sanctum::sync::ApiRequest;
use sanctum::wire::LoginFinishResponse;

fn config() -> Config {
    Config { api_base_url: "http://localhost:3000".to_string(), salt: vec![9u8; 16] }
}

fn offline(password: &str, store: LocalStore) -> UnlockedClient {
    LockedClient::from_config(config()).unwrap().unlock_offline(password, store).unwrap()
}

fn online(password: &str, store: LocalStore) -> UnlockedClient {
    let response = LoginFinishResponse { access_token: "token".to_string(), salt: b64_encode(&[9u8; 16]) };
    LockedClient::from_config(config()).unwrap().login(password, response, store).unwrap()
}

fn reopen(client: &UnlockedClient) -> LocalStore {
    let s = client.store();
    LocalStore::from_parts(s.vaults().clone(), s.records().clone(), s.get_outbox(), s.watermark()).unwrap()
}

#[test]
fn create_vault_and_record_roundtrip() {
    let mut client = offline("password", LocalStore::new());
    client.create_vault("My Vault").unwrap();
    let vaults = client.list_vaults().unwrap();
    assert_eq!(vaults.len(), 1);
    assert_eq!(vaults[0].name, "My Vault");

    client.create_record(vaults[0].id, "secret-data").unwrap();
    let records = client.list_records(vaults[0].id).unwrap();
    assert_eq!(records.len(), 1);
    assert_eq!(records[0].data, "secret-data");
}

#[test]
fn wrong_password_fails_decryption() {
    let mut a = offline("right-password", LocalStore::new());
    a.create_vault("Locked Vault").unwrap();
    let b = offline("wrong-password", reopen(&a));
    assert_eq!(b.list_vaults().unwrap_err(), Error::CryptoError);
}

#[test]
fn unlock_needs_a_long_enough_salt() {
    let cfg = Config { api_base_url: String::new(), salt: vec![1u8; 4] };
    let locked = LockedClient::from_config(cfg).unwrap();
    assert_eq!(locked.unlock_offline("pw", LocalStore::new()).err(), Some(Error::DeriveKey));
}

#[test]
fn lock_zeroes_the_master_key() {
    let client = offline("password", LocalStore::new());
    let (locked, residue) = client.lock_and_expose_key_buffer();
    assert_eq!(residue.len(), 32);
    assert!(residue.iter().all(|b| *b == 0));
    assert_eq!(locked.config().api_base_url, "http://localhost:3000");
    let relocked = offline("password", LocalStore::new()).lock();
    assert_eq!(relocked.config().salt, vec![9u8; 16]);
}

#[test]
fn created_vault_is_listed_with_its_name() {
    let mut client = offline("password", LocalStore::new());
    let v = client.create_vault("Personal").unwrap();
    let listed = client.list_vaults().unwrap();
    assert!(listed.iter().any(|p| p.id == v.id && p.name == "Personal" && p.key == v.key));
}

#[test]
fn create_then_update_coalesces_into_one_create() {
    let mut client = offline("password", LocalStore::new());
    let v = client.create_vault("n1").unwrap();
    let updated = client.update_vault(v.id, "n2").unwrap();
    assert_eq!(updated.key, v.key);
    assert_eq!(updated.created_at, v.created_at);
    let outbox = client.store().get_outbox();
    assert_eq!(outbox.len(), 1);
    assert_eq!(outbox[0].action, Action::Create);
    assert_eq!(outbox[0].entity_type, EntityType::Vault);
    assert_eq!(outbox[0].status, OutboxStatus::Pending);
    let mk_client_vaults = client.list_vaults().unwrap();
    assert_eq!(mk_client_vaults[0].name, "n2");
    match &outbox[0].payload {
        Payload::Vault(ev) => {
            assert_eq!(ev, &client.store().vaults()[0]);
        }
        Payload::Record(_) => panic!("vault payload expected"),
    }
}

#[test]
fn create_update_delete_leaves_empty_outbox() {
    let mut client = offline("password", LocalStore::new());
    let v = client.create_vault("a").unwrap();
    client.update_vault(v.id, "b").unwrap();
    client.delete_vault(v.id).unwrap();
    assert!(client.store().get_outbox().is_empty());
    assert!(client.list_vaults().unwrap().is_empty());
}

#[test]
fn update_of_missing_vault_creates_it_under_that_id() {
    let mut client = offline("password", LocalStore::new());
    let v = client.update_vault(77, "fresh").unwrap();
    assert_eq!(v.id, 77);
    let listed = client.list_vaults().unwrap();
    assert_eq!(listed.len(), 1);
    assert_eq!(listed[0].id, 77);
    assert_eq!(client.store().get_outbox()[0].action, Action::Create);
}

#[test]
fn delete_of_missing_entities_is_not_found() {
    let mut client = offline("password", LocalStore::new());
    assert_eq!(client.delete_vault(5), Err(Error::NotFound));
    assert_eq!(client.delete_record(5, 6), Err(Error::NotFound));
    assert_eq!(client.create_record(5, "x").unwrap_err(), Error::NotFound);
    assert_eq!(client.update_record(5, 6, "x").unwrap_err(), Error::NotFound);
    assert!(client.list_records(5).unwrap().is_empty());
}

#[test]
fn records_update_keep_key_and_delete() {
    let mut client = offline("password", LocalStore::new());
    let v = client.create_vault("V").unwrap();
    let r = client.create_record(v.id, "one").unwrap();
    let r2 = client.update_record(v.id, r.id, "two").unwrap();
    assert_eq!(r2.key, r.key);
    assert_eq!(r2.created_at, r.created_at);
    let listed = client.list_records(v.id).unwrap();
    assert_eq!(listed.len(), 1);
    assert_eq!(listed[0].data, "two");
    let outbox = client.store().get_outbox();
    assert_eq!(outbox.len(), 2);
    assert_eq!(outbox[1].action, Action::Create);
    assert_eq!(outbox[1].entity_type, EntityType::Record);
    client.delete_record(v.id, r.id).unwrap();
    assert!(client.list_records(v.id).unwrap().is_empty());
    assert_eq!(client.store().get_outbox().len(), 1);
}

#[test]
fn offline_session_cannot_sync() {
    let mut client = offline("password", LocalStore::new());
    assert_eq!(client.begin_sync(), Err(Error::SyncInOfflineMode));
    assert_eq!(client.start_background_sync(), Err(Error::SyncInOfflineMode));
    assert!(!client.is_online());
}

#[test]
fn second_sync_cycle_is_busy() {
    let mut client = online("password", LocalStore::new());
    assert!(client.is_online());
    assert_eq!(client.access_token().map(|t| t.as_str()), Some("token"));
    assert_eq!(client.begin_sync(), Ok(()));
    assert_eq!(client.begin_sync(), Err(Error::SyncBusy));
    client.end_sync();
    assert_eq!(client.begin_sync(), Ok(()));
    assert_eq!(client.start_background_sync(), Ok(()));
    assert!(client.background_sync_running());
    assert_eq!(client.stop_background_sync(), Ok(()));
    assert!(!client.background_sync_running());
}

#[test]
fn login_with_malformed_salt_is_an_auth_error() {
    let response = LoginFinishResponse { access_token: "t".to_string(), salt: "***".to_string() };
    let locked = LockedClient::from_config(config()).unwrap();
    assert_eq!(locked.login("pw", response, LocalStore::new()).err(), Some(Error::AuthError));
}

/// Drives one drain phase against `answer`, returning the requests sent.
fn drain(client: &mut UnlockedClient, mut answer: impl FnMut(&ApiRequest) -> SendOutcome) -> (Vec<ApiRequest>, DrainStep) {
    let mut sent = Vec::new();
    let mut from = 0;
    let mut last = DrainStep::Advance;
    while let Some((i, req)) = client.next_request(from) {
        let outcome = answer(&req);
        sent.push(req);
        last = client.record_outcome(i, outcome);
        if last != DrainStep::Advance {
            break;
        }
        from = i + 1;
    }
    (sent, last)
}

#[test]
fn offline_mutation_then_sync_posts_the_stored_ciphertexts() {
    let mut offline_client = offline("password", LocalStore::new());
    offline_client.create_vault("V1").unwrap();
    let outbox = offline_client.store().get_outbox();
    assert_eq!(outbox.len(), 1);
    assert_eq!(outbox[0].status, OutboxStatus::Pending);
    assert_eq!(outbox[0].action, Action::Create);

    let mut client = online("password", reopen(&offline_client));
    client.begin_sync().unwrap();
    let (sent, step) = drain(&mut client, |_| SendOutcome::Status(201));
    assert_eq!(step, DrainStep::Advance);
    assert_eq!(sent.len(), 1);
    let stored = client.store().vaults()[0].clone();
    match &sent[0] {
        ApiRequest::CreateVault(body) => {
            assert_eq!(body.encrypted_name, stored.encrypted_name);
            assert_eq!(body.encrypted_vault_key, stored.encrypted_vault_key);
        }
        other => panic!("unexpected request {:?}", other),
    }
    assert_eq!(client.store().get_outbox()[0].status, OutboxStatus::Sent);
    client.end_sync();
    assert!(client.store().get_outbox().is_empty());
}

#[test]
fn server_error_is_retried_once_without_duplicates() {
    let mut client = online("password", LocalStore::new());
    client.create_vault("V").unwrap();
    client.begin_sync().unwrap();
    let (sent, step) = drain(&mut client, |_| SendOutcome::Status(503));
    assert_eq!(sent.len(), 1);
    assert_eq!(step, DrainStep::Retry);
    let entry = &client.store().get_outbox()[0];
    assert_eq!(entry.status, OutboxStatus::Pending);
    assert_eq!(entry.attempts, 1);
    client.end_sync();

    client.begin_sync().unwrap();
    let (sent, step) = drain(&mut client, |_| SendOutcome::Status(201));
    assert_eq!(sent.len(), 1);
    assert_eq!(step, DrainStep::Advance);
    let outbox = client.store().get_outbox();
    assert_eq!(outbox.len(), 1);
    assert_eq!(outbox[0].attempts, 1);
    assert_eq!(outbox[0].status, OutboxStatus::Sent);
    client.end_sync();
    assert_eq!(client.list_vaults().unwrap().len(), 1);
}

#[test]
fn client_errors_are_terminal_and_conflicts_surface() {
    let mut client = online("password", LocalStore::new());
    let a = client.create_vault("a").unwrap();
    client.create_vault("b").unwrap();
    client.begin_sync().unwrap();
    let (sent, step) = drain(&mut client, |_| SendOutcome::Status(400));
    assert_eq!(sent.len(), 2);
    assert_eq!(step, DrainStep::Advance);
    assert!(client.store().get_outbox().iter().all(|e| e.status == OutboxStatus::Failed));
    client.end_sync();
    client.delete_vault(a.id).unwrap();
    client.begin_sync().unwrap();
    let (_, step) = drain(&mut client, |_| SendOutcome::Status(409));
    assert_eq!(step, DrainStep::Conflict);
    let (_, step) = drain(&mut client, |_| SendOutcome::Transport);
    assert_eq!(step, DrainStep::Retry);
}

#[test]
fn pull_merges_newer_server_state() {
    let mut client = online("password", LocalStore::new());
    let v = client.create_vault("old name").unwrap();
    let local = client.store().vaults()[0].clone();
    let newer = PlainVault {
        id: v.id,
        name: "server name".to_string(),
        key: v.key.clone(),
        created_at: v.created_at,
        updated_at: local.updated_at + 1_000_000,
    };
    let mk_check = client.list_vaults().unwrap();
    assert_eq!(mk_check[0].name, "old name");
    let remote = reencrypt_like_another_device(&client, &newer, &local);
    client.pull_vaults(vec![remote.clone()]);
    assert_eq!(client.store().vaults()[0], remote);
    assert_eq!(client.store().watermark(), Some(remote.updated_at));
    assert_eq!(client.list_vaults().unwrap()[0].name, "server name");

    let mut stale = remote.clone();
    stale.updated_at -= 5;
    stale.encrypted_name = local.encrypted_name.clone();
    client.pull_vaults(vec![stale]);
    assert_eq!(client.store().vaults()[0], remote);
    assert_eq!(client.store().watermark(), Some(remote.updated_at));
}

/// The server's copy as another device would have written it: the vault key stays wrapped
/// as before (under the same master key) and the new name is sealed under the vault key.
fn reencrypt_like_another_device(client: &UnlockedClient, newer: &PlainVault, local: &EncryptedVault) -> EncryptedVault {
    assert_eq!(client.list_vaults().unwrap()[0].key, newer.key);
    let other_master = vec![3u8; 32];
    let mut sealed = encrypt_vault(newer, &other_master).unwrap();
    assert_eq!(decrypt_vault(&sealed, &other_master).unwrap().name, newer.name);
    sealed.encrypted_vault_key = local.encrypted_vault_key.clone();
    sealed
}

#[test]
fn updating_an_existing_record_succeeds_and_keeps_time_moving_forward() {
    let mut client = offline("password", LocalStore::new());
    let v = client.create_vault("V").unwrap();
    let r = client.create_record(v.id, "one").unwrap();
    let stored = client.store().records()[0].clone();
    let r2 = client.update_record(v.id, r.id, "two").unwrap();
    assert_eq!(r2.id, r.id);
    assert_eq!(r2.key, r.key);
    assert!(r2.updated_at >= stored.updated_at);
    let renamed = client.update_vault(v.id, "W").unwrap();
    assert!(renamed.updated_at >= v.updated_at);
    assert_eq!(renamed.created_at, v.created_at);
}

#[test]
fn new_outbox_entries_start_without_attempts() {
    let mut client = offline("password", LocalStore::new());
    let v = client.create_vault("V").unwrap();
    client.create_record(v.id, "d").unwrap();
    assert!(client.store().get_outbox().iter().all(|e| e.attempts == 0 && e.status == OutboxStatus::Pending));
}
