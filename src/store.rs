//! The local encrypted store: encrypted vaults and records in insertion order, the outbox
//! of pending mutations and the sync watermark. It holds ciphertexts only.
use vstd::prelude::*;

use crate::error::Error;
use crate::model::{EncryptedRecord, EncryptedVault};
use crate::outbox::{enqueued, DrainStep, Outbox, OutboxEntry, OutboxStatus, SendOutcome, after_outcome, outcome_step, with_status};

verus! {

/// Position of the last vault with id `id`.
pub open spec fn vault_pos(s: Seq<EncryptedVault>, id: u128) -> Option<int>
    decreases s.len(),
{
    if s.len() == 0 {
        None
    } else if s.last().id == id {
        Some(s.len() - 1)
    } else {
        vault_pos(s.drop_last(), id)
    }
}

/// Position of the last record with id `id` in vault `vault_id`.
pub open spec fn record_pos(s: Seq<EncryptedRecord>, vault_id: u128, id: u128) -> Option<int>
    decreases s.len(),
{
    if s.len() == 0 {
        None
    } else if s.last().vault_id == vault_id && s.last().id == id {
        Some(s.len() - 1)
    } else {
        record_pos(s.drop_last(), vault_id, id)
    }
}

/// The vaults after inserting `v`, or replacing the vault with its id in place.
pub open spec fn vaults_put(s: Seq<EncryptedVault>, v: EncryptedVault) -> Seq<EncryptedVault> {
    match vault_pos(s, v.id) {
        Some(i) => s.update(i, v),
        None => s.push(v),
    }
}

/// The vaults after removing the one with id `id`, if there is one.
pub open spec fn vaults_removed(s: Seq<EncryptedVault>, id: u128) -> Seq<EncryptedVault> {
    match vault_pos(s, id) {
        Some(i) => s.remove(i),
        None => s,
    }
}

/// The records after inserting `r`, or replacing the record with its key in place.
pub open spec fn records_put(s: Seq<EncryptedRecord>, r: EncryptedRecord) -> Seq<EncryptedRecord> {
    match record_pos(s, r.vault_id, r.id) {
        Some(i) => s.update(i, r),
        None => s.push(r),
    }
}

/// The records after removing the one with the given key, if there is one.
pub open spec fn records_removed(s: Seq<EncryptedRecord>, vault_id: u128, id: u128) -> Seq<EncryptedRecord> {
    match record_pos(s, vault_id, id) {
        Some(i) => s.remove(i),
        None => s,
    }
}

/// The records of one vault, in insertion order.
pub open spec fn records_in(s: Seq<EncryptedRecord>, vault_id: u128) -> Seq<EncryptedRecord>
    decreases s.len(),
{
    if s.len() == 0 {
        s
    } else if s.last().vault_id == vault_id {
        records_in(s.drop_last(), vault_id).push(s.last())
    } else {
        records_in(s.drop_last(), vault_id)
    }
}

/// The records of every other vault, in insertion order.
pub open spec fn records_outside(s: Seq<EncryptedRecord>, vault_id: u128) -> Seq<EncryptedRecord>
    decreases s.len(),
{
    if s.len() == 0 {
        s
    } else if s.last().vault_id != vault_id {
        records_outside(s.drop_last(), vault_id).push(s.last())
    } else {
        records_outside(s.drop_last(), vault_id)
    }
}

/// Last-writer-wins: a server copy replaces the local one when there is none, or when the
/// local one is strictly older.
pub open spec fn remote_wins(local_updated: Option<i64>, remote_updated: i64) -> bool {
    match local_updated {
        None => true,
        Some(t) => t < remote_updated,
    }
}

/// The later of the stored watermark and an observed instant.
pub open spec fn advanced(watermark: Option<i64>, observed: i64) -> Option<i64> {
    match watermark {
        Some(w) => if w >= observed { Some(w) } else { Some(observed) },
        None => Some(observed),
    }
}

pub proof fn lemma_vault_pos_found(s: Seq<EncryptedVault>, id: u128)
    ensures
        vault_pos(s, id) matches Some(i) ==> 0 <= i < s.len() && s[i].id == id,
    decreases s.len(),
{
    if s.len() > 0 && s.last().id != id {
        lemma_vault_pos_found(s.drop_last(), id);
    }
}

pub proof fn lemma_record_pos_found(s: Seq<EncryptedRecord>, vault_id: u128, id: u128)
    ensures
        record_pos(s, vault_id, id) matches Some(i) ==> 0 <= i < s.len() && s[i].vault_id == vault_id
            && s[i].id == id,
    decreases s.len(),
{
    if s.len() > 0 && !(s.last().vault_id == vault_id && s.last().id == id) {
        lemma_record_pos_found(s.drop_last(), vault_id, id);
    }
}

pub proof fn lemma_vault_pos_update(s: Seq<EncryptedVault>, i: int, v: EncryptedVault)
    requires
        vault_pos(s, v.id) == Some(i),
    ensures
        vault_pos(s.update(i, v), v.id) == Some(i),
    decreases s.len(),
{
    lemma_vault_pos_found(s, v.id);
    if i < s.len() - 1 {
        assert(s.update(i, v).drop_last() =~= s.drop_last().update(i, v));
        lemma_vault_pos_update(s.drop_last(), i, v);
    }
}

/// After a put, the vault is found under its id.
pub proof fn lemma_vaults_put_finds(s: Seq<EncryptedVault>, v: EncryptedVault)
    ensures
        vault_pos(vaults_put(s, v), v.id) matches Some(j) && 0 <= j < vaults_put(s, v).len()
            && vaults_put(s, v)[j] == v,
{
    lemma_vault_pos_found(s, v.id);
    match vault_pos(s, v.id) {
        Some(i) => {
            lemma_vault_pos_update(s, i, v);
        },
        None => {
            assert(s.push(v).drop_last() =~= s);
        },
    }
}

pub proof fn lemma_record_pos_update(s: Seq<EncryptedRecord>, i: int, r: EncryptedRecord)
    requires
        record_pos(s, r.vault_id, r.id) == Some(i),
    ensures
        record_pos(s.update(i, r), r.vault_id, r.id) == Some(i),
    decreases s.len(),
{
    lemma_record_pos_found(s, r.vault_id, r.id);
    if i < s.len() - 1 {
        assert(s.update(i, r).drop_last() =~= s.drop_last().update(i, r));
        lemma_record_pos_update(s.drop_last(), i, r);
    }
}

/// After a put, the record is found under its key.
pub proof fn lemma_records_put_finds(s: Seq<EncryptedRecord>, r: EncryptedRecord)
    ensures
        record_pos(records_put(s, r), r.vault_id, r.id) matches Some(j) && 0 <= j < records_put(s, r).len()
            && records_put(s, r)[j] == r,
{
    lemma_record_pos_found(s, r.vault_id, r.id);
    match record_pos(s, r.vault_id, r.id) {
        Some(i) => {
            lemma_record_pos_update(s, i, r);
        },
        None => {
            assert(s.push(r).drop_last() =~= s);
        },
    }
}

/// No two vaults share an id.
pub open spec fn unique_vault_ids(s: Seq<EncryptedVault>) -> bool {
    forall|i: int, j: int| 0 <= i < s.len() && 0 <= j < s.len() && i != j ==> #[trigger] s[i].id != #[trigger] s[j].id
}

/// No two records share a `(vault_id, id)` key.
pub open spec fn unique_record_keys(s: Seq<EncryptedRecord>) -> bool {
    forall|i: int, j: int|
        0 <= i < s.len() && 0 <= j < s.len() && i != j ==> !(#[trigger] s[i].vault_id == #[trigger] s[j].vault_id
            && s[i].id == s[j].id)
}

pub proof fn lemma_vault_pos_none(s: Seq<EncryptedVault>, id: u128)
    ensures
        vault_pos(s, id) is None ==> forall|i: int| 0 <= i < s.len() ==> #[trigger] s[i].id != id,
    decreases s.len(),
{
    if s.len() > 0 {
        lemma_vault_pos_none(s.drop_last(), id);
        if vault_pos(s, id) is None {
            assert forall|i: int| 0 <= i < s.len() implies #[trigger] s[i].id != id by {
                if i < s.len() - 1 {
                    assert(s[i] == s.drop_last()[i]);
                }
            }
        }
    }
}

pub proof fn lemma_record_pos_none(s: Seq<EncryptedRecord>, vault_id: u128, id: u128)
    ensures
        record_pos(s, vault_id, id) is None ==> forall|i: int| 0 <= i < s.len() ==> !(#[trigger] s[i].vault_id == vault_id
            && s[i].id == id),
    decreases s.len(),
{
    if s.len() > 0 {
        lemma_record_pos_none(s.drop_last(), vault_id, id);
        if record_pos(s, vault_id, id) is None {
            assert forall|i: int| 0 <= i < s.len() implies !(#[trigger] s[i].vault_id == vault_id && s[i].id == id) by {
                if i < s.len() - 1 {
                    assert(s[i] == s.drop_last()[i]);
                }
            }
        }
    }
}

/// A put keeps vault ids unique.
pub proof fn lemma_vaults_put_unique(s: Seq<EncryptedVault>, v: EncryptedVault)
    requires
        unique_vault_ids(s),
    ensures
        unique_vault_ids(vaults_put(s, v)),
{
    lemma_vault_pos_found(s, v.id);
    lemma_vault_pos_none(s, v.id);
    let t = vaults_put(s, v);
    assert forall|i: int, j: int| 0 <= i < t.len() && 0 <= j < t.len() && i != j implies #[trigger] t[i].id
        != #[trigger] t[j].id by {
        match vault_pos(s, v.id) {
            Some(k) => {
                assert(s[k].id == v.id);
            },
            None => {
                if i < s.len() && j < s.len() {
                    assert(t[i] == s[i] && t[j] == s[j]);
                }
            },
        }
    }
}

/// A put keeps record keys unique.
pub proof fn lemma_records_put_unique(s: Seq<EncryptedRecord>, r: EncryptedRecord)
    requires
        unique_record_keys(s),
    ensures
        unique_record_keys(records_put(s, r)),
{
    lemma_record_pos_found(s, r.vault_id, r.id);
    lemma_record_pos_none(s, r.vault_id, r.id);
    let t = records_put(s, r);
    assert forall|i: int, j: int| 0 <= i < t.len() && 0 <= j < t.len() && i != j implies !(
    #[trigger] t[i].vault_id == #[trigger] t[j].vault_id && t[i].id == t[j].id) by {
        match record_pos(s, r.vault_id, r.id) {
            Some(k) => {
                assert(s[k].vault_id == r.vault_id && s[k].id == r.id);
            },
            None => {
                if i < s.len() && j < s.len() {
                    assert(t[i] == s[i] && t[j] == s[j]);
                }
            },
        }
    }
}

/// Whether no two vaults share an id.
pub fn vault_ids_are_unique(v: &Vec<EncryptedVault>) -> (r: bool)
    ensures
        r == unique_vault_ids(v@),
{
    let mut i: usize = 0;
    while i < v.len()
        invariant
            i <= v@.len(),
            forall|a: int, b: int| 0 <= a < i && 0 <= b < i && a != b ==> #[trigger] v@[a].id != #[trigger] v@[b].id,
        decreases v@.len() - i,
    {
        let mut j: usize = 0;
        while j < i
            invariant
                i < v@.len(),
                j <= i,
                forall|a: int| 0 <= a < j ==> #[trigger] v@[a].id != v@[i as int].id,
            decreases i - j,
        {
            if v[j].id == v[i].id {
                proof {
                    assert(v@[j as int].id == v@[i as int].id);
                }
                return false;
            }
            j += 1;
        }
        i += 1;
    }
    true
}

/// Whether no two records share a `(vault_id, id)` key.
pub fn record_keys_are_unique(v: &Vec<EncryptedRecord>) -> (r: bool)
    ensures
        r == unique_record_keys(v@),
{
    let mut i: usize = 0;
    while i < v.len()
        invariant
            i <= v@.len(),
            forall|a: int, b: int|
                0 <= a < i && 0 <= b < i && a != b ==> !(#[trigger] v@[a].vault_id == #[trigger] v@[b].vault_id
                    && v@[a].id == v@[b].id),
        decreases v@.len() - i,
    {
        let mut j: usize = 0;
        while j < i
            invariant
                i < v@.len(),
                j <= i,
                forall|a: int| 0 <= a < j ==> !(#[trigger] v@[a].vault_id == v@[i as int].vault_id && v@[a].id
                    == v@[i as int].id),
            decreases i - j,
        {
            if v[j].vault_id == v[i].vault_id && v[j].id == v[i].id {
                proof {
                    assert(v@[j as int].vault_id == v@[i as int].vault_id);
                }
                return false;
            }
            j += 1;
        }
        i += 1;
    }
    true
}

/// The store: data (vaults, records), the outbox and the watermark.
pub struct LocalStore {
    vaults: Vec<EncryptedVault>,
    records: Vec<EncryptedRecord>,
    outbox: Outbox,
    watermark: Option<i64>,
}

impl LocalStore {
    /// Vault ids are unique, and so are record keys: each key names at most one entry.
    pub open spec fn wf(&self) -> bool {
        unique_vault_ids(self.spec_vaults()) && unique_record_keys(self.spec_records())
    }

    pub closed spec fn spec_vaults(&self) -> Seq<EncryptedVault> {
        self.vaults@
    }

    pub closed spec fn spec_records(&self) -> Seq<EncryptedRecord> {
        self.records@
    }

    pub closed spec fn spec_outbox(&self) -> Seq<OutboxEntry> {
        self.outbox@
    }

    pub closed spec fn spec_watermark(&self) -> Option<i64> {
        self.watermark
    }

    /// An empty store.
    pub fn new() -> (r: LocalStore)
        ensures
            r.spec_vaults() == Seq::<EncryptedVault>::empty(),
            r.spec_records() == Seq::<EncryptedRecord>::empty(),
            r.spec_outbox() == Seq::<OutboxEntry>::empty(),
            r.spec_watermark() is None,
            r.wf(),
    {
        LocalStore { vaults: Vec::new(), records: Vec::new(), outbox: Outbox::new(), watermark: None }
    }

    /// A store rebuilt from what was persisted.
    pub fn from_parts(
        vaults: Vec<EncryptedVault>,
        records: Vec<EncryptedRecord>,
        outbox: Vec<OutboxEntry>,
        watermark: Option<i64>,
    ) -> (r: Result<LocalStore, Error>)
        ensures
            r is Ok <==> unique_vault_ids(vaults@) && unique_record_keys(records@),
            r matches Err(e) ==> e == Error::StoreError,
            r matches Ok(st) ==> {
                &&& st.wf()
                &&& st.spec_vaults() == vaults@
                &&& st.spec_records() == records@
                &&& st.spec_outbox() == outbox@
                &&& st.spec_watermark() == watermark
            },
    {
        if !vault_ids_are_unique(&vaults) || !record_keys_are_unique(&records) {
            return Err(Error::StoreError);
        }
        Ok(LocalStore { vaults, records, outbox: Outbox::from_entries(outbox), watermark })
    }

    /// Every encrypted vault, in insertion order.
    pub fn vaults(&self) -> (r: &Vec<EncryptedVault>)
        ensures
            r@ == self.spec_vaults(),
    {
        &self.vaults
    }

    /// Every encrypted record, in insertion order.
    pub fn records(&self) -> (r: &Vec<EncryptedRecord>)
        ensures
            r@ == self.spec_records(),
    {
        &self.records
    }

    /// A copy of the outbox, in order.
    pub fn get_outbox(&self) -> (r: Vec<OutboxEntry>)
        ensures
            r@ == self.spec_outbox(),
    {
        self.outbox.entries()
    }

    /// The instant up to which server changes have been pulled.
    pub fn watermark(&self) -> (r: Option<i64>)
        ensures
            r == self.spec_watermark(),
    {
        self.watermark
    }

    /// Position of the vault with id `id`.
    pub fn find_vault(&self, id: u128) -> (r: Option<usize>)
        ensures
            match r {
                Some(i) => vault_pos(self.spec_vaults(), id) == Some(i as int) && i < self.spec_vaults().len(),
                None => vault_pos(self.spec_vaults(), id) is None,
            },
    {
        let mut i: usize = self.vaults.len();
        proof {
            assert(self.vaults@.subrange(0, i as int) =~= self.vaults@);
        }
        while i > 0
            invariant
                i <= self.vaults@.len(),
                vault_pos(self.vaults@, id) == vault_pos(self.vaults@.subrange(0, i as int), id),
            decreases i,
        {
            proof {
                assert(self.vaults@.subrange(0, i as int).drop_last() =~= self.vaults@.subrange(0, i - 1));
            }
            if self.vaults[i - 1].id == id {
                return Some(i - 1);
            }
            i -= 1;
        }
        None
    }

    /// A copy of the vault with id `id`.
    pub fn get_vault(&self, id: u128) -> (r: Option<EncryptedVault>)
        ensures
            match r {
                Some(v) => vault_pos(self.spec_vaults(), id) matches Some(i) && v == self.spec_vaults()[i],
                None => vault_pos(self.spec_vaults(), id) is None,
            },
    {
        match self.find_vault(id) {
            Some(i) => Some(self.vaults[i].duplicate()),
            None => None,
        }
    }

    /// Inserts a vault, or replaces the one with its id in place.
    pub fn put_vault(&mut self, v: EncryptedVault)
        requires
            old(self).wf(),
        ensures
            final(self).wf(),
            final(self).spec_vaults() == vaults_put(old(self).spec_vaults(), v),
            final(self).spec_records() == old(self).spec_records(),
            final(self).spec_outbox() == old(self).spec_outbox(),
            final(self).spec_watermark() == old(self).spec_watermark(),
    {
        let ghost gv = v;
        match self.find_vault(v.id) {
            Some(i) => self.vaults.set(i, v),
            None => self.vaults.push(v),
        }
        proof {
            lemma_vaults_put_unique(old(self).spec_vaults(), gv);
        }
    }

    /// Removes the vault with id `id` and returns it.
    pub fn remove_vault(&mut self, id: u128) -> (r: Option<EncryptedVault>)
        requires
            old(self).wf(),
        ensures
            final(self).wf(),
            final(self).spec_vaults() == vaults_removed(old(self).spec_vaults(), id),
            match r {
                Some(v) => vault_pos(old(self).spec_vaults(), id) matches Some(i) && v == old(self).spec_vaults()[i],
                None => vault_pos(old(self).spec_vaults(), id) is None && *final(self) == *old(self),
            },
            final(self).spec_records() == old(self).spec_records(),
            final(self).spec_outbox() == old(self).spec_outbox(),
            final(self).spec_watermark() == old(self).spec_watermark(),
    {
        match self.find_vault(id) {
            Some(i) => {
                let v = self.vaults.remove(i);
                proof {
                    let o = old(self).vaults@;
                    assert forall|a: int, b: int|
                        0 <= a < self.vaults@.len() && 0 <= b < self.vaults@.len() && a != b implies #[trigger] self.vaults@[a].id
                        != #[trigger] self.vaults@[b].id by {
                        let a0 = if a < i { a } else { a + 1 };
                        let b0 = if b < i { b } else { b + 1 };
                        assert(self.vaults@[a] == o[a0] && self.vaults@[b] == o[b0]);
                    }
                }
                Some(v)
            },
            None => None,
        }
    }

    /// Position of the record with id `id` in vault `vault_id`.
    pub fn find_record(&self, vault_id: u128, id: u128) -> (r: Option<usize>)
        ensures
            match r {
                Some(i) => record_pos(self.spec_records(), vault_id, id) == Some(i as int) && i < self.spec_records().len(),
                None => record_pos(self.spec_records(), vault_id, id) is None,
            },
    {
        let mut i: usize = self.records.len();
        proof {
            assert(self.records@.subrange(0, i as int) =~= self.records@);
        }
        while i > 0
            invariant
                i <= self.records@.len(),
                record_pos(self.records@, vault_id, id) == record_pos(self.records@.subrange(0, i as int), vault_id, id),
            decreases i,
        {
            proof {
                assert(self.records@.subrange(0, i as int).drop_last() =~= self.records@.subrange(0, i - 1));
            }
            if self.records[i - 1].vault_id == vault_id && self.records[i - 1].id == id {
                return Some(i - 1);
            }
            i -= 1;
        }
        None
    }

    /// A copy of the record with the given key.
    pub fn get_record(&self, vault_id: u128, id: u128) -> (r: Option<EncryptedRecord>)
        ensures
            match r {
                Some(v) => record_pos(self.spec_records(), vault_id, id) matches Some(i) && v == self.spec_records()[i],
                None => record_pos(self.spec_records(), vault_id, id) is None,
            },
    {
        match self.find_record(vault_id, id) {
            Some(i) => Some(self.records[i].duplicate()),
            None => None,
        }
    }

    /// Inserts a record, or replaces the one with its key in place.
    pub fn put_record(&mut self, r: EncryptedRecord)
        requires
            old(self).wf(),
        ensures
            final(self).wf(),
            final(self).spec_records() == records_put(old(self).spec_records(), r),
            final(self).spec_vaults() == old(self).spec_vaults(),
            final(self).spec_outbox() == old(self).spec_outbox(),
            final(self).spec_watermark() == old(self).spec_watermark(),
    {
        let ghost gr = r;
        match self.find_record(r.vault_id, r.id) {
            Some(i) => self.records.set(i, r),
            None => self.records.push(r),
        }
        proof {
            lemma_records_put_unique(old(self).spec_records(), gr);
        }
    }

    /// Removes the record with the given key and returns it.
    pub fn remove_record(&mut self, vault_id: u128, id: u128) -> (r: Option<EncryptedRecord>)
        requires
            old(self).wf(),
        ensures
            final(self).wf(),
            final(self).spec_records() == records_removed(old(self).spec_records(), vault_id, id),
            match r {
                Some(v) => record_pos(old(self).spec_records(), vault_id, id) matches Some(i)
                    && v == old(self).spec_records()[i],
                None => record_pos(old(self).spec_records(), vault_id, id) is None && *final(self) == *old(self),
            },
            final(self).spec_vaults() == old(self).spec_vaults(),
            final(self).spec_outbox() == old(self).spec_outbox(),
            final(self).spec_watermark() == old(self).spec_watermark(),
    {
        match self.find_record(vault_id, id) {
            Some(i) => {
                let r = self.records.remove(i);
                proof {
                    let o = old(self).records@;
                    assert forall|a: int, b: int|
                        0 <= a < self.records@.len() && 0 <= b < self.records@.len() && a != b implies !(
                        #[trigger] self.records@[a].vault_id == #[trigger] self.records@[b].vault_id
                            && self.records@[a].id == self.records@[b].id) by {
                        let a0 = if a < i { a } else { a + 1 };
                        let b0 = if b < i { b } else { b + 1 };
                        assert(self.records@[a] == o[a0] && self.records@[b] == o[b0]);
                    }
                }
                Some(r)
            },
            None => None,
        }
    }

    /// Removes every record of a vault, keeping the others in order.
    pub fn remove_records_of(&mut self, vault_id: u128)
        requires
            old(self).wf(),
        ensures
            final(self).wf(),
            final(self).spec_records() == records_outside(old(self).spec_records(), vault_id),
            final(self).spec_vaults() == old(self).spec_vaults(),
            final(self).spec_outbox() == old(self).spec_outbox(),
            final(self).spec_watermark() == old(self).spec_watermark(),
    {
        let mut kept: Vec<EncryptedRecord> = Vec::new();
        let mut i: usize = 0;
        while i < self.records.len()
            invariant
                i <= self.records@.len(),
                self.records@ == old(self).records@,
                kept@ == records_outside(self.records@.subrange(0, i as int), vault_id),
                unique_record_keys(self.records@),
                unique_record_keys(kept@),
                forall|k: int| 0 <= k < kept@.len() ==> exists|j: int| 0 <= j < i && #[trigger] kept@[k] == self.records@[j],
            decreases self.records@.len() - i,
        {
            let ghost prefix = self.records@.subrange(0, i + 1);
            proof {
                assert(prefix.drop_last() =~= self.records@.subrange(0, i as int));
                assert(prefix.last() == self.records@[i as int]);
            }
            if self.records[i].vault_id != vault_id {
                let ghost before = kept@;
                kept.push(self.records[i].duplicate());
                proof {
                    assert forall|k: int| 0 <= k < before.len() implies !(#[trigger] before[k].vault_id
                        == self.records@[i as int].vault_id && before[k].id == self.records@[i as int].id) by {
                        let j = choose|j: int| 0 <= j < i && before[k] == self.records@[j];
                        assert(self.records@[j] == before[k]);
                    }
                    assert forall|k: int| 0 <= k < kept@.len() implies exists|j: int|
                        0 <= j < i + 1 && #[trigger] kept@[k] == self.records@[j] by {
                        if k < before.len() {
                            assert(kept@[k] == before[k]);
                        } else {
                            assert(kept@[k] == self.records@[i as int]);
                        }
                    }
                    assert forall|a: int, b: int|
                        0 <= a < kept@.len() && 0 <= b < kept@.len() && a != b implies !(
                        #[trigger] kept@[a].vault_id == #[trigger] kept@[b].vault_id && kept@[a].id == kept@[b].id) by {
                        if a < before.len() && b < before.len() {
                            assert(kept@[a] == before[a] && kept@[b] == before[b]);
                        } else if a < before.len() {
                            assert(kept@[a] == before[a]);
                        } else if b < before.len() {
                            assert(kept@[b] == before[b]);
                        }
                    }
                }
            }
            i += 1;
        }
        proof {
            assert(self.records@.subrange(0, self.records@.len() as int) =~= self.records@);
        }
        self.records = kept;
    }

    /// The records of one vault, in insertion order (a prefix scan).
    pub fn records_of(&self, vault_id: u128) -> (r: Vec<EncryptedRecord>)
        ensures
            r@ == records_in(self.spec_records(), vault_id),
    {
        let mut out: Vec<EncryptedRecord> = Vec::new();
        let mut i: usize = 0;
        while i < self.records.len()
            invariant
                i <= self.records@.len(),
                out@ == records_in(self.records@.subrange(0, i as int), vault_id),
            decreases self.records@.len() - i,
        {
            let ghost prefix = self.records@.subrange(0, i + 1);
            proof {
                assert(prefix.drop_last() =~= self.records@.subrange(0, i as int));
                assert(prefix.last() == self.records@[i as int]);
            }
            if self.records[i].vault_id == vault_id {
                out.push(self.records[i].duplicate());
            }
            i += 1;
        }
        proof {
            assert(self.records@.subrange(0, self.records@.len() as int) =~= self.records@);
        }
        out
    }

    /// Appends a mutation to the outbox, coalescing it with a pending one for the same entity.
    pub fn enqueue(&mut self, e: OutboxEntry)
        ensures
            final(self).spec_outbox() == enqueued(old(self).spec_outbox(), e),
            final(self).spec_vaults() == old(self).spec_vaults(),
            final(self).spec_records() == old(self).spec_records(),
            final(self).spec_watermark() == old(self).spec_watermark(),
    {
        self.outbox.enqueue(e);
    }

    /// Number of outbox entries.
    pub fn outbox_len(&self) -> (r: usize)
        ensures
            r == self.spec_outbox().len(),
    {
        self.outbox.len()
    }

    /// The outbox entry at position `i`.
    pub fn outbox_entry(&self, i: usize) -> (r: &OutboxEntry)
        requires
            i < self.spec_outbox().len(),
        ensures
            *r == self.spec_outbox()[i as int],
    {
        self.outbox.get(i)
    }

    /// Position of the first outbox entry at or after `from` still to be sent.
    pub fn next_sendable(&self, from: usize) -> (r: Option<usize>)
        ensures
            match r {
                Some(i) => {
                    &&& from <= i < self.spec_outbox().len()
                    &&& crate::outbox::sendable(self.spec_outbox()[i as int])
                    &&& forall|j: int| from <= j < i ==> !crate::outbox::sendable(#[trigger] self.spec_outbox()[j])
                },
                None => forall|j: int| from <= j < self.spec_outbox().len() ==> !crate::outbox::sendable(
                    #[trigger] self.spec_outbox()[j],
                ),
            },
    {
        self.outbox.next_sendable(from)
    }

    /// Marks outbox entry `i` as being sent.
    pub fn mark_in_flight(&mut self, i: usize)
        requires
            i < old(self).spec_outbox().len(),
        ensures
            final(self).spec_outbox() == old(self).spec_outbox().update(
                i as int,
                with_status(old(self).spec_outbox()[i as int], OutboxStatus::InFlight),
            ),
            final(self).spec_vaults() == old(self).spec_vaults(),
            final(self).spec_records() == old(self).spec_records(),
            final(self).spec_watermark() == old(self).spec_watermark(),
    {
        self.outbox.set_status(i, OutboxStatus::InFlight);
    }

    /// Records the server's answer for outbox entry `i`.
    pub fn record_outcome(&mut self, i: usize, outcome: SendOutcome) -> (r: DrainStep)
        requires
            i < old(self).spec_outbox().len(),
        ensures
            r == outcome_step(outcome),
            final(self).spec_outbox() == old(self).spec_outbox().update(
                i as int,
                after_outcome(old(self).spec_outbox()[i as int], outcome),
            ),
            final(self).spec_vaults() == old(self).spec_vaults(),
            final(self).spec_records() == old(self).spec_records(),
            final(self).spec_watermark() == old(self).spec_watermark(),
    {
        self.outbox.record_outcome(i, outcome)
    }

    /// Drops the outbox entries that the server acknowledged.
    pub fn remove_sent(&mut self)
        ensures
            final(self).spec_outbox() == crate::outbox::unsent(old(self).spec_outbox()),
            final(self).spec_vaults() == old(self).spec_vaults(),
            final(self).spec_records() == old(self).spec_records(),
            final(self).spec_watermark() == old(self).spec_watermark(),
    {
        self.outbox.remove_sent();
    }

    /// Whether a pending outbox entry exists for the entity.
    pub fn has_pending(&self, kind: crate::outbox::EntityType, id: u128) -> (r: bool)
        ensures
            r == crate::outbox::last_pending(self.spec_outbox(), kind, id) is Some,
    {
        self.outbox.find_last_pending(kind, id).is_some()
    }

    /// Raises the watermark to `observed` if it is later.
    pub fn advance_watermark(&mut self, observed: i64)
        ensures
            final(self).spec_watermark() == advanced(old(self).spec_watermark(), observed),
            final(self).spec_vaults() == old(self).spec_vaults(),
            final(self).spec_records() == old(self).spec_records(),
            final(self).spec_outbox() == old(self).spec_outbox(),
    {
        self.watermark = match self.watermark {
            Some(w) => if w >= observed { Some(w) } else { Some(observed) },
            None => Some(observed),
        };
    }

    /// Merges a vault pulled from the server: it replaces the local copy when there is none
    /// or the local one is strictly older. Returns whether it was applied.
    pub fn merge_remote_vault(&mut self, remote: EncryptedVault) -> (r: bool)
        requires
            old(self).wf(),
        ensures
            final(self).wf(),
            r == remote_wins(
                match vault_pos(old(self).spec_vaults(), remote.id) {
                    Some(i) => Some(old(self).spec_vaults()[i].updated_at),
                    None => None,
                },
                remote.updated_at,
            ),
            r ==> final(self).spec_vaults() == vaults_put(old(self).spec_vaults(), remote),
            !r ==> final(self).spec_vaults() == old(self).spec_vaults(),
            final(self).spec_records() == old(self).spec_records(),
            final(self).spec_outbox() == old(self).spec_outbox(),
            final(self).spec_watermark() == old(self).spec_watermark(),
    {
        let apply = match self.find_vault(remote.id) {
            Some(i) => self.vaults[i].updated_at < remote.updated_at,
            None => true,
        };
        if apply {
            self.put_vault(remote);
        }
        apply
    }

    /// Merges a record pulled from the server by the same rule as vaults.
    pub fn merge_remote_record(&mut self, remote: EncryptedRecord) -> (r: bool)
        requires
            old(self).wf(),
        ensures
            final(self).wf(),
            r == remote_wins(
                match record_pos(old(self).spec_records(), remote.vault_id, remote.id) {
                    Some(i) => Some(old(self).spec_records()[i].updated_at),
                    None => None,
                },
                remote.updated_at,
            ),
            r ==> final(self).spec_records() == records_put(old(self).spec_records(), remote),
            !r ==> final(self).spec_records() == old(self).spec_records(),
            final(self).spec_vaults() == old(self).spec_vaults(),
            final(self).spec_outbox() == old(self).spec_outbox(),
            final(self).spec_watermark() == old(self).spec_watermark(),
    {
        let apply = match self.find_record(remote.vault_id, remote.id) {
            Some(i) => self.records[i].updated_at < remote.updated_at,
            None => true,
        };
        if apply {
            self.put_record(remote);
        }
        apply
    }
}

} // verus!
