use sanctum::error::Error;
use sanctum::model::{EncryptedRecord, EncryptedVault};
use sanctum::outbox::{Action, DrainStep, EntityType, Outbox, OutboxEntry, OutboxStatus, Payload, SendOutcome};
use sanctum::server::{Claims, ListVaultsQuery, VaultTable, STATUS_CONFLICT, STATUS_CREATED, STATUS_NO_CONTENT, STATUS_OK};
use sanctum::store::LocalStore;
use sanctum::sync::{backoff_delay, jitter, request_for, ApiRequest};
use sanctum::wire::CreateVaultRequest;

fn ev(id: u128, name: &str, updated_at: i64) -> EncryptedVault {
    EncryptedVault {
        id,
        encrypted_vault_key: format!("key-{}", id),
        encrypted_name: name.to_string(),
        created_at: 0,
        updated_at,
    }
}

fn entry(action: Action, v: EncryptedVault) -> OutboxEntry {
    OutboxEntry::new(action, EntityType::Vault, Payload::Vault(v))
}

#[test]
fn backoff_doubles_up_to_the_cap() {
    assert_eq!(backoff_delay(100, 10_000, 0), 100);
    assert_eq!(backoff_delay(100, 10_000, 1), 200);
    assert_eq!(backoff_delay(100, 10_000, 3), 800);
    assert_eq!(backoff_delay(100, 10_000, 7), 10_000);
    assert_eq!(backoff_delay(100, 10_000, u32::MAX), 10_000);
    assert_eq!(backoff_delay(u64::MAX, u64::MAX, 5), u64::MAX);
    assert_eq!(backoff_delay(500, 300, 0), 300);
    assert_eq!(backoff_delay(0, 300, 9), 0);
}

#[test]
fn jitter_stays_in_the_upper_half() {
    assert_eq!(jitter(1000, 0), 1000);
    assert_eq!(jitter(1000, 501), 1000);
    assert_eq!(jitter(1000, 500), 500);
    assert_eq!(jitter(1000, 7), 993);
    assert_eq!(jitter(0, 12345), 0);
}

#[test]
fn requests_follow_action_and_kind() {
    let v = ev(5, "n", 1);
    let body = CreateVaultRequest { encrypted_vault_key: "key-5".to_string(), encrypted_name: "n".to_string() };
    assert_eq!(request_for(&entry(Action::Create, v.clone())), ApiRequest::CreateVault(body.clone()));
    assert_eq!(request_for(&entry(Action::Update, v.clone())), ApiRequest::PutVault(5, body));
    assert_eq!(request_for(&entry(Action::Delete, v)), ApiRequest::DeleteVault(5));
    let r = EncryptedRecord {
        id: 8,
        vault_id: 5,
        encrypted_record_key: "rk".to_string(),
        encrypted_data_blob: "blob".to_string(),
        created_at: 0,
        updated_at: 0,
    };
    let e = OutboxEntry::new(Action::Update, EntityType::Record, Payload::Record(r));
    match request_for(&e) {
        ApiRequest::PutRecord(vid, id, body) => {
            assert_eq!((vid, id), (5, 8));
            assert_eq!(body.encrypted_data_blob, "blob");
            assert_eq!(body.encrypted_record_key, "rk");
        }
        other => panic!("unexpected {:?}", other),
    }
}

#[test]
fn coalescing_rules() {
    let mut ob = Outbox::new();
    ob.enqueue(entry(Action::Update, ev(1, "a", 1)));
    ob.enqueue(entry(Action::Update, ev(1, "b", 2)));
    assert_eq!(ob.len(), 1);
    assert_eq!(ob.get(0).payload, Payload::Vault(ev(1, "b", 2)));
    ob.enqueue(entry(Action::Delete, ev(1, "b", 2)));
    assert_eq!(ob.len(), 1);
    assert_eq!(ob.get(0).action, Action::Delete);
    ob.enqueue(entry(Action::Create, ev(2, "c", 3)));
    ob.enqueue(entry(Action::Update, ev(3, "d", 3)));
    assert_eq!(ob.len(), 3);
}

#[test]
fn non_pending_entries_are_not_coalesced() {
    let mut store = LocalStore::new();
    store.enqueue(entry(Action::Create, ev(1, "a", 1)));
    store.mark_in_flight(0);
    store.enqueue(entry(Action::Update, ev(1, "b", 2)));
    let ob = store.get_outbox();
    assert_eq!(ob.len(), 2);
    assert_eq!(ob[0].status, OutboxStatus::InFlight);
    assert_eq!(ob[1].action, Action::Update);
}

#[test]
fn drain_sends_in_insertion_order() {
    let mut store = LocalStore::new();
    for id in [30u128, 10, 20] {
        store.enqueue(entry(Action::Create, ev(id, "x", 0)));
    }
    let mut order = Vec::new();
    let mut from = 0;
    while let Some(i) = store.next_sendable(from) {
        if let Payload::Vault(v) = &store.outbox_entry(i).payload {
            order.push(v.id);
        }
        store.mark_in_flight(i);
        assert_eq!(store.record_outcome(i, SendOutcome::Status(200)), DrainStep::Advance);
        from = i + 1;
    }
    assert_eq!(order, vec![30, 10, 20]);
    store.remove_sent();
    assert_eq!(store.outbox_len(), 0);
}

#[test]
fn attempts_saturate() {
    let mut e = entry(Action::Create, ev(1, "a", 0));
    e.attempts = u32::MAX;
    let mut store = LocalStore::from_parts(Vec::new(), Vec::new(), vec![e], None).unwrap();
    assert_eq!(store.record_outcome(0, SendOutcome::Transport), DrainStep::Retry);
    assert_eq!(store.get_outbox()[0].attempts, u32::MAX);
}

#[test]
fn merge_is_last_writer_wins() {
    let mut store = LocalStore::new();
    store.put_vault(ev(1, "local", 100));
    assert!(!store.merge_remote_vault(ev(1, "same-instant", 100)));
    assert!(!store.merge_remote_vault(ev(1, "older", 99)));
    assert_eq!(store.get_vault(1).unwrap().encrypted_name, "local");
    assert!(store.merge_remote_vault(ev(1, "newer", 101)));
    assert_eq!(store.get_vault(1).unwrap().encrypted_name, "newer");
    assert!(store.merge_remote_vault(ev(2, "absent", 1)));
    assert_eq!(store.vaults().len(), 2);
}

#[test]
fn watermark_only_moves_forward() {
    let mut store = LocalStore::new();
    assert_eq!(store.watermark(), None);
    store.advance_watermark(50);
    store.advance_watermark(40);
    assert_eq!(store.watermark(), Some(50));
    store.advance_watermark(60);
    assert_eq!(store.watermark(), Some(60));
}

#[test]
fn server_put_is_an_idempotent_upsert() {
    let mut table = VaultTable::new();
    let body = CreateVaultRequest { encrypted_vault_key: "k".to_string(), encrypted_name: "n".to_string() };
    assert_eq!(table.put_vault(1, 9, body.clone(), 100), STATUS_CREATED);
    let after_first = table.rows();
    assert_eq!(table.put_vault(1, 9, body.clone(), 200), STATUS_OK);
    let after_replay = table.rows();
    assert_eq!(after_first.len(), after_replay.len());
    assert_eq!(after_replay[0].updated_at, 100);
    assert_eq!(after_replay[0].encrypted_name, "n");

    let changed = CreateVaultRequest { encrypted_vault_key: "k".to_string(), encrypted_name: "m".to_string() };
    assert_eq!(table.put_vault(1, 9, changed.clone(), 300), STATUS_OK);
    assert_eq!(table.rows()[0].encrypted_name, "m");
    assert_eq!(table.rows()[0].updated_at, 300);
    assert_eq!(table.rows()[0].created_at, 100);
    assert_eq!(table.put_vault(2, 9, changed, 400), STATUS_CONFLICT);
    assert_eq!(table.rows()[0].user_id, 1);
}

#[test]
fn server_lists_since_and_deletes_own_rows() {
    let mut table = VaultTable::new();
    let body = |n: &str| CreateVaultRequest { encrypted_vault_key: "k".to_string(), encrypted_name: n.to_string() };
    table.put_vault(1, 1, body("a"), 10);
    table.put_vault(1, 2, body("b"), 20);
    table.put_vault(2, 3, body("c"), 30);
    assert_eq!(table.list_vaults(1, ListVaultsQuery { since: None }).len(), 2);
    let recent = table.list_vaults(1, ListVaultsQuery { since: Some(10) });
    assert_eq!(recent.len(), 1);
    assert_eq!(recent[0].id, 2);
    assert_eq!(table.delete_vault(1, 3), STATUS_NO_CONTENT);
    assert_eq!(table.rows().len(), 3);
    assert_eq!(table.delete_vault(1, 1), STATUS_NO_CONTENT);
    assert_eq!(table.rows().len(), 2);
}

#[test]
fn token_claims_expire_after_seven_days() {
    let c = Claims::new("user".to_string(), 1_000, "https://issuer.example", "jti".to_string());
    assert_eq!(c.exp, 1_000 + 604_800);
    assert_eq!(c.iat, 1_000);
    assert_eq!(c.nbf, 1_000);
    assert_eq!(c.iss, "https://issuer.example");
    assert_eq!(c.aud, c.iss);
    let late = Claims::new("u".to_string(), u64::MAX - 1, "i", "j".to_string());
    assert_eq!(late.exp, u64::MAX);
}

#[test]
fn retryable_errors_are_network_and_server_errors() {
    assert!(Error::NetworkError.is_retryable());
    assert!(Error::ApiError(503).is_retryable());
    assert!(!Error::ApiError(404).is_retryable());
    assert!(!Error::ConflictError.is_retryable());
    assert!(!Error::CryptoError.is_retryable());
}

#[test]
fn drained_outbox_has_only_sent_entries() {
    let mut sent = entry(Action::Create, ev(1, "a", 0));
    sent.status = OutboxStatus::Sent;
    let pending = entry(Action::Create, ev(2, "b", 0));
    let mut ob = Outbox::from_entries(vec![sent.clone()]);
    assert!(ob.is_drained());
    ob = Outbox::from_entries(vec![sent, pending]);
    assert!(!ob.is_drained());
    assert_eq!(ob.next_sendable(0), Some(1));
    assert_eq!(ob.next_sendable(2), None);
    ob.remove_sent();
    assert_eq!(ob.len(), 1);
    assert_eq!(ob.entries()[0].payload.entity_id(), 2);
}

#[test]
fn stores_with_duplicate_keys_are_refused() {
    let dup = vec![ev(1, "a", 0), ev(1, "b", 0)];
    assert_eq!(LocalStore::from_parts(dup, Vec::new(), Vec::new(), None).err(), Some(Error::StoreError));
    let ok = vec![ev(1, "a", 0), ev(2, "b", 0)];
    assert!(LocalStore::from_parts(ok, Vec::new(), Vec::new(), Some(5)).is_ok());
    let r = EncryptedRecord {
        id: 8,
        vault_id: 5,
        encrypted_record_key: "rk".to_string(),
        encrypted_data_blob: "blob".to_string(),
        created_at: 0,
        updated_at: 0,
    };
    let same_id_other_vault = EncryptedRecord { vault_id: 6, ..r.clone() };
    assert!(LocalStore::from_parts(Vec::new(), vec![r.clone(), same_id_other_vault], Vec::new(), None).is_ok());
    assert_eq!(LocalStore::from_parts(Vec::new(), vec![r.clone(), r], Vec::new(), None).err(), Some(Error::StoreError));
}

#[test]
fn server_update_is_stamped_after_the_previous_one() {
    let mut table = VaultTable::new();
    let body = |n: &str| CreateVaultRequest { encrypted_vault_key: "k".to_string(), encrypted_name: n.to_string() };
    table.put_vault(1, 9, body("a"), 100);
    assert_eq!(table.put_vault(1, 9, body("b"), 50), STATUS_OK);
    assert_eq!(table.rows()[0].updated_at, 101);
    assert_eq!(table.put_vault(1, 9, body("c"), 500), STATUS_OK);
    assert_eq!(table.rows()[0].updated_at, 500);
}
