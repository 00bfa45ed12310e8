//! The sync engine's decisions: which server call an outbox entry becomes, how long to
//! wait before a retry, and how pulled server state is merged into the local store.
//! The caller performs the calls and hands back what the server answered.
use vstd::prelude::*;

use crate::model::{EncryptedRecord, EncryptedVault};
use crate::outbox::{Action, OutboxEntry, Payload};
use crate::store::{
    advanced, record_pos, records_put, remote_wins, vault_pos, vaults_put, LocalStore,
};
use crate::wire::{record_body, vault_body, CreateRecordRequest, CreateVaultRequest};

verus! {

/// One call of the server's REST interface.
#[derive(Debug, Clone, PartialEq, Eq)]
pub enum ApiRequest {
    /// `POST /vaults`
    CreateVault(CreateVaultRequest),
    /// `PUT /vaults/{id}`
    PutVault(u128, CreateVaultRequest),
    /// `DELETE /vaults/{id}`
    DeleteVault(u128),
    /// `POST /vaults/{vault_id}/records`
    CreateRecord(u128, CreateRecordRequest),
    /// `PUT /vaults/{vault_id}/records/{id}`
    PutRecord(u128, u128, CreateRecordRequest),
    /// `DELETE /vaults/{vault_id}/records/{id}`
    DeleteRecord(u128, u128),
}

/// The server call that replays an outbox entry.
pub open spec fn request_of(e: OutboxEntry) -> ApiRequest {
    match e.payload {
        Payload::Vault(v) => {
            let body = CreateVaultRequest {
                encrypted_vault_key: v.encrypted_vault_key,
                encrypted_name: v.encrypted_name,
            };
            match e.action {
                Action::Create => ApiRequest::CreateVault(body),
                Action::Update => ApiRequest::PutVault(v.id, body),
                Action::Delete => ApiRequest::DeleteVault(v.id),
            }
        },
        Payload::Record(r) => {
            let body = CreateRecordRequest {
                encrypted_record_key: r.encrypted_record_key,
                encrypted_data_blob: r.encrypted_data_blob,
            };
            match e.action {
                Action::Create => ApiRequest::CreateRecord(r.vault_id, body),
                Action::Update => ApiRequest::PutRecord(r.vault_id, r.id, body),
                Action::Delete => ApiRequest::DeleteRecord(r.vault_id, r.id),
            }
        },
    }
}

/// The server call that replays an outbox entry: creates are POSTed, updates PUT by id
/// (an idempotent upsert), deletes DELETEd.
pub fn request_for(e: &OutboxEntry) -> (r: ApiRequest)
    ensures
        r == request_of(*e),
{
    match &e.payload {
        Payload::Vault(v) => {
            let body = vault_body(v);
            match e.action {
                Action::Create => ApiRequest::CreateVault(body),
                Action::Update => ApiRequest::PutVault(v.id, body),
                Action::Delete => ApiRequest::DeleteVault(v.id),
            }
        },
        Payload::Record(r) => {
            let body = record_body(r);
            match e.action {
                Action::Create => ApiRequest::CreateRecord(r.vault_id, body),
                Action::Update => ApiRequest::PutRecord(r.vault_id, r.id, body),
                Action::Delete => ApiRequest::DeleteRecord(r.vault_id, r.id),
            }
        },
    }
}

/// 2 to the power `n`.
pub open spec fn pow2(n: nat) -> nat
    decreases n,
{
    if n == 0 {
        1
    } else {
        2 * pow2((n - 1) as nat)
    }
}

/// The retry delay before jitter: `min(cap, base * 2^attempts)`.
pub open spec fn backoff(base: u64, cap: u64, attempts: u32) -> int {
    let full = base * pow2(attempts as nat);
    if full < cap { full as int } else { cap as int }
}

/// The retry delay before jitter, `min(cap, base * 2^attempts)`, computed without overflow.
pub fn backoff_delay(base: u64, cap: u64, attempts: u32) -> (r: u64)
    ensures
        r == backoff(base, cap, attempts),
{
    let mut d: u64 = if base < cap { base } else { cap };
    let mut k: u32 = 0;
    proof {
        assert(pow2(0) == 1);
    }
    while k < attempts
        invariant
            k <= attempts,
            d as int == (if base * pow2(k as nat) < cap { base * pow2(k as nat) } else { cap as int }),
        decreases attempts - k,
    {
        let ghost full = base * pow2(k as nat);
        proof {
            assert(pow2((k + 1) as nat) == 2 * pow2(k as nat));
            assert(base * pow2((k + 1) as nat) == 2 * full) by (nonlinear_arith)
                requires
                    pow2((k + 1) as nat) == 2 * pow2(k as nat),
                    full == base * pow2(k as nat),
            ;
        }
        if d > cap / 2 {
            d = cap;
        } else {
            d = d * 2;
        }
        k += 1;
    }
    d
}

/// The delay with jitter: `delay` less a share of its upper half chosen by `random`, so that
/// the result lies in `delay - delay / 2 ..= delay`.
pub open spec fn jittered(delay: u64, random: u64) -> int {
    delay as int - (random as int % (delay as int / 2 + 1))
}

/// Spreads retries out: subtracts `random % (delay / 2 + 1)` from the delay.
pub fn jitter(delay: u64, random: u64) -> (r: u64)
    ensures
        r == jittered(delay, random),
        delay - delay / 2 <= r <= delay,
{
    let spread = random % (delay / 2 + 1);
    delay - spread
}

/// The vaults after merging one pulled from the server, by last-writer-wins.
pub open spec fn vault_merged(s: Seq<EncryptedVault>, remote: EncryptedVault) -> Seq<EncryptedVault> {
    let local = match vault_pos(s, remote.id) {
        Some(i) => Some(s[i].updated_at),
        None => None,
    };
    if remote_wins(local, remote.updated_at) { vaults_put(s, remote) } else { s }
}

/// The vaults after merging a pulled batch in order.
pub open spec fn vaults_merged(s: Seq<EncryptedVault>, remote: Seq<EncryptedVault>) -> Seq<EncryptedVault>
    decreases remote.len(),
{
    if remote.len() == 0 {
        s
    } else {
        vault_merged(vaults_merged(s, remote.drop_last()), remote.last())
    }
}

/// The records after merging one pulled from the server, by last-writer-wins.
pub open spec fn record_merged(s: Seq<EncryptedRecord>, remote: EncryptedRecord) -> Seq<EncryptedRecord> {
    let local = match record_pos(s, remote.vault_id, remote.id) {
        Some(i) => Some(s[i].updated_at),
        None => None,
    };
    if remote_wins(local, remote.updated_at) { records_put(s, remote) } else { s }
}

/// The records after merging a pulled batch in order.
pub open spec fn records_merged(s: Seq<EncryptedRecord>, remote: Seq<EncryptedRecord>) -> Seq<EncryptedRecord>
    decreases remote.len(),
{
    if remote.len() == 0 {
        s
    } else {
        record_merged(records_merged(s, remote.drop_last()), remote.last())
    }
}

/// The watermark after observing each instant of a batch.
pub open spec fn watermark_after(w: Option<i64>, observed: Seq<i64>) -> Option<i64>
    decreases observed.len(),
{
    if observed.len() == 0 {
        w
    } else {
        advanced(watermark_after(w, observed.drop_last()), observed.last())
    }
}

/// The `updated_at` of each vault of a batch.
pub open spec fn vault_instants(s: Seq<EncryptedVault>) -> Seq<i64> {
    s.map_values(|v: EncryptedVault| v.updated_at)
}

/// The `updated_at` of each record of a batch.
pub open spec fn record_instants(s: Seq<EncryptedRecord>) -> Seq<i64> {
    s.map_values(|r: EncryptedRecord| r.updated_at)
}

/// Pull phase for vaults: merges each pulled vault by last-writer-wins and raises the
/// watermark to the latest `updated_at` observed.
pub fn pull_vaults(store: &mut LocalStore, remote: Vec<EncryptedVault>)
    requires
        old(store).wf(),
    ensures
        final(store).wf(),
        final(store).spec_vaults() == vaults_merged(old(store).spec_vaults(), remote@),
        final(store).spec_watermark() == watermark_after(old(store).spec_watermark(), vault_instants(remote@)),
        final(store).spec_records() == old(store).spec_records(),
        final(store).spec_outbox() == old(store).spec_outbox(),
{
    let mut i: usize = 0;
    while i < remote.len()
        invariant
            i <= remote@.len(),
            store.wf(),
            store.spec_vaults() == vaults_merged(old(store).spec_vaults(), remote@.subrange(0, i as int)),
            store.spec_watermark() == watermark_after(
                old(store).spec_watermark(),
                vault_instants(remote@.subrange(0, i as int)),
            ),
            store.spec_records() == old(store).spec_records(),
            store.spec_outbox() == old(store).spec_outbox(),
        decreases remote@.len() - i,
    {
        let ghost prefix = remote@.subrange(0, i + 1);
        proof {
            assert(prefix.drop_last() =~= remote@.subrange(0, i as int));
            assert(vault_instants(prefix).drop_last() =~= vault_instants(remote@.subrange(0, i as int)));
        }
        let v = remote[i].duplicate();
        let t = v.updated_at;
        store.merge_remote_vault(v);
        store.advance_watermark(t);
        i += 1;
    }
    proof {
        assert(remote@.subrange(0, remote@.len() as int) =~= remote@);
    }
}

/// Pull phase for records: merges each pulled record by last-writer-wins and raises the
/// watermark to the latest `updated_at` observed.
pub fn pull_records(store: &mut LocalStore, remote: Vec<EncryptedRecord>)
    requires
        old(store).wf(),
    ensures
        final(store).wf(),
        final(store).spec_records() == records_merged(old(store).spec_records(), remote@),
        final(store).spec_watermark() == watermark_after(old(store).spec_watermark(), record_instants(remote@)),
        final(store).spec_vaults() == old(store).spec_vaults(),
        final(store).spec_outbox() == old(store).spec_outbox(),
{
    let mut i: usize = 0;
    while i < remote.len()
        invariant
            i <= remote@.len(),
            store.wf(),
            store.spec_records() == records_merged(old(store).spec_records(), remote@.subrange(0, i as int)),
            store.spec_watermark() == watermark_after(
                old(store).spec_watermark(),
                record_instants(remote@.subrange(0, i as int)),
            ),
            store.spec_vaults() == old(store).spec_vaults(),
            store.spec_outbox() == old(store).spec_outbox(),
        decreases remote@.len() - i,
    {
        let ghost prefix = remote@.subrange(0, i + 1);
        proof {
            assert(prefix.drop_last() =~= remote@.subrange(0, i as int));
            assert(record_instants(prefix).drop_last() =~= record_instants(remote@.subrange(0, i as int)));
        }
        let r = remote[i].duplicate();
        let t = r.updated_at;
        store.merge_remote_record(r);
        store.advance_watermark(t);
        i += 1;
    }
    proof {
        assert(remote@.subrange(0, remote@.len() as int) =~= remote@);
    }
}

/// After the server stored a created vault, the local copy takes the server's timestamps.
pub fn adopt_server_timestamps(store: &mut LocalStore, id: u128, created_at: i64, updated_at: i64) -> (r: bool)
    requires
        old(store).wf(),
    ensures
        final(store).wf(),
        r == vault_pos(old(store).spec_vaults(), id) is Some,
        match vault_pos(old(store).spec_vaults(), id) {
            Some(i) => final(store).spec_vaults() == old(store).spec_vaults().update(
                i,
                EncryptedVault {
                    id: old(store).spec_vaults()[i].id,
                    encrypted_vault_key: old(store).spec_vaults()[i].encrypted_vault_key,
                    encrypted_name: old(store).spec_vaults()[i].encrypted_name,
                    created_at: created_at,
                    updated_at: updated_at,
                },
            ),
            None => final(store).spec_vaults() == old(store).spec_vaults(),
        },
        final(store).spec_records() == old(store).spec_records(),
        final(store).spec_outbox() == old(store).spec_outbox(),
        final(store).spec_watermark() == old(store).spec_watermark(),
{
    match store.get_vault(id) {
        Some(v) => {
            proof {
                crate::store::lemma_vault_pos_found(store.spec_vaults(), id);
            }
            let updated = EncryptedVault {
                id: v.id,
                encrypted_vault_key: v.encrypted_vault_key,
                encrypted_name: v.encrypted_name,
                created_at,
                updated_at,
            };
            store.put_vault(updated);
            true
        },
        None => false,
    }
}

} // verus!
