//! The outbox: a durable, ordered log of local mutations that still have to reach the
//! server. A new mutation is coalesced with a pending one for the same entity when it
//! is enqueued; the drain walks the log in order and records each server answer.
use vstd::prelude::*;

use crate::model::{EncryptedRecord, EncryptedVault};
use crate::stamp::{new_id, now_micros};

verus! {

/// What a mutation did to its entity.
#[derive(Debug, Clone, Copy, PartialEq, Eq, Structural)]
pub enum Action {
    Create,
    Update,
    Delete,
}

/// Which kind of entity a mutation touched.
#[derive(Debug, Clone, Copy, PartialEq, Eq, Structural)]
pub enum EntityType {
    Vault,
    Record,
}

/// Where an outbox entry stands in its trip to the server.
#[derive(Debug, Clone, Copy, PartialEq, Eq, Structural)]
pub enum OutboxStatus {
    Pending,
    InFlight,
    Sent,
    Failed,
}

/// The action of an outbox entry, under the name the store layer uses.
pub type OutboxEntryKind = Action;

/// The entity kind of an outbox entry, under the name the store layer uses.
pub type OutputEntryObject = EntityType;

/// The encrypted form of the entity at the time of the mutation.
#[derive(Debug, Clone, PartialEq, Eq)]
pub enum Payload {
    Vault(EncryptedVault),
    Record(EncryptedRecord),
}

impl Payload {
    pub open spec fn spec_entity_id(self) -> u128 {
        match self {
            Payload::Vault(v) => v.id,
            Payload::Record(r) => r.id,
        }
    }

    /// The id of the entity the payload carries.
    pub fn entity_id(&self) -> (r: u128)
        ensures
            r == self.spec_entity_id(),
    {
        match self {
            Payload::Vault(v) => v.id,
            Payload::Record(r) => r.id,
        }
    }

    /// A field-for-field copy.
    pub fn duplicate(&self) -> (r: Payload)
        ensures
            r == *self,
    {
        match self {
            Payload::Vault(v) => Payload::Vault(v.duplicate()),
            Payload::Record(r) => Payload::Record(r.duplicate()),
        }
    }
}

/// One pending (or sent, or failed) mutation.
#[derive(Debug, Clone)]
pub struct OutboxEntry {
    pub id: u128,
    pub action: Action,
    pub entity_type: EntityType,
    pub payload: Payload,
    pub created_at: i64,
    pub attempts: u32,
    pub status: OutboxStatus,
}

impl OutboxEntry {
    /// A fresh `Pending` entry with no attempts yet, a random id and the current instant.
    pub fn new(action: Action, entity_type: EntityType, payload: Payload) -> (r: OutboxEntry)
        ensures
            r.action == action,
            r.entity_type == entity_type,
            r.payload == payload,
            r.attempts == 0,
            r.status == OutboxStatus::Pending,
    {
        OutboxEntry {
            id: new_id(),
            action,
            entity_type,
            payload,
            created_at: now_micros(),
            attempts: 0,
            status: OutboxStatus::Pending,
        }
    }

    /// A field-for-field copy.
    pub fn duplicate(&self) -> (r: OutboxEntry)
        ensures
            r == *self,
    {
        OutboxEntry {
            id: self.id,
            action: self.action,
            entity_type: self.entity_type,
            payload: self.payload.duplicate(),
            created_at: self.created_at,
            attempts: self.attempts,
            status: self.status,
        }
    }
}

/// The entry concerns entity `id` of kind `kind`.
pub open spec fn targets(e: OutboxEntry, kind: EntityType, id: u128) -> bool {
    e.entity_type == kind && e.payload.spec_entity_id() == id
}

/// The entry is a pending mutation of entity `id` of kind `kind`.
pub open spec fn pending_for(e: OutboxEntry, kind: EntityType, id: u128) -> bool {
    e.status == OutboxStatus::Pending && targets(e, kind, id)
}

/// Position of the last pending entry for the entity, if any.
pub open spec fn last_pending(s: Seq<OutboxEntry>, kind: EntityType, id: u128) -> Option<int>
    decreases s.len(),
{
    if s.len() == 0 {
        None
    } else if pending_for(s.last(), kind, id) {
        Some(s.len() - 1)
    } else {
        last_pending(s.drop_last(), kind, id)
    }
}

/// A position that `last_pending` finds is in bounds and holds a pending entry for the entity.
pub proof fn lemma_last_pending_found(s: Seq<OutboxEntry>, kind: EntityType, id: u128)
    ensures
        last_pending(s, kind, id) matches Some(i) ==> 0 <= i < s.len() && pending_for(s[i], kind, id),
    decreases s.len(),
{
    if s.len() > 0 && !pending_for(s.last(), kind, id) {
        lemma_last_pending_found(s.drop_last(), kind, id);
    }
}

/// The entry with its payload replaced.
pub open spec fn with_payload(e: OutboxEntry, payload: Payload) -> OutboxEntry {
    OutboxEntry {
        id: e.id,
        action: e.action,
        entity_type: e.entity_type,
        payload: payload,
        created_at: e.created_at,
        attempts: e.attempts,
        status: e.status,
    }
}

/// The entry with its status replaced.
pub open spec fn with_status(e: OutboxEntry, status: OutboxStatus) -> OutboxEntry {
    OutboxEntry {
        id: e.id,
        action: e.action,
        entity_type: e.entity_type,
        payload: e.payload,
        created_at: e.created_at,
        attempts: e.attempts,
        status: status,
    }
}

/// The log after enqueueing `e`, with coalescing against the last pending entry for the
/// same entity:
/// - update after create: the create takes the new payload;
/// - delete after create: both disappear;
/// - delete after update: the delete takes the update's place;
/// - update after update: the update takes the new payload;
/// otherwise `e` is appended.
pub open spec fn enqueued(s: Seq<OutboxEntry>, e: OutboxEntry) -> Seq<OutboxEntry> {
    match last_pending(s, e.entity_type, e.payload.spec_entity_id()) {
        None => s.push(e),
        Some(i) => {
            let prior = s[i];
            if prior.action == Action::Create && e.action == Action::Update {
                s.update(i, with_payload(prior, e.payload))
            } else if prior.action == Action::Create && e.action == Action::Delete {
                s.remove(i)
            } else if prior.action == Action::Update && e.action == Action::Delete {
                s.update(i, e)
            } else if prior.action == Action::Update && e.action == Action::Update {
                s.update(i, with_payload(prior, e.payload))
            } else {
                s.push(e)
            }
        },
    }
}

/// What came back for one sent entry: an HTTP status, or no answer at all.
#[derive(Debug, Clone, Copy, PartialEq, Eq, Structural)]
pub enum SendOutcome {
    Status(u16),
    Transport,
}

/// What the drain does after recording an outcome.
#[derive(Debug, Clone, Copy, PartialEq, Eq, Structural)]
pub enum DrainStep {
    /// Go on with the next entry.
    Advance,
    /// Stop this cycle; the entry is retried by a later one.
    Retry,
    /// Stop this cycle and surface a conflict: another user owns the id.
    Conflict,
}

/// The drain's step for an outcome: 2xx and other 4xx advance, 409 surfaces a conflict,
/// 5xx and transport errors stop the cycle for a retry.
pub open spec fn outcome_step(o: SendOutcome) -> DrainStep {
    match o {
        SendOutcome::Status(code) => if 500 <= code <= 599 {
            DrainStep::Retry
        } else if code == 409 {
            DrainStep::Conflict
        } else {
            DrainStep::Advance
        },
        SendOutcome::Transport => DrainStep::Retry,
    }
}

/// The status an entry takes for an outcome: 2xx is `Sent`, a retry is `Pending`, any
/// other answer is terminal and `Failed`.
pub open spec fn outcome_status(o: SendOutcome) -> OutboxStatus {
    match o {
        SendOutcome::Status(code) => if 200 <= code <= 299 {
            OutboxStatus::Sent
        } else if 500 <= code <= 599 {
            OutboxStatus::Pending
        } else {
            OutboxStatus::Failed
        },
        SendOutcome::Transport => OutboxStatus::Pending,
    }
}

/// The entry after an outcome: its new status, and one more attempt counted (saturating)
/// when it is to be retried.
pub open spec fn after_outcome(e: OutboxEntry, o: SendOutcome) -> OutboxEntry {
    OutboxEntry {
        id: e.id,
        action: e.action,
        entity_type: e.entity_type,
        payload: e.payload,
        created_at: e.created_at,
        attempts: if outcome_step(o) == DrainStep::Retry && e.attempts < u32::MAX {
            (e.attempts + 1) as u32
        } else {
            e.attempts
        },
        status: outcome_status(o),
    }
}

/// The entries that the server has not acknowledged, in order.
pub open spec fn unsent(s: Seq<OutboxEntry>) -> Seq<OutboxEntry>
    decreases s.len(),
{
    if s.len() == 0 {
        s
    } else if s.last().status == OutboxStatus::Sent {
        unsent(s.drop_last())
    } else {
        unsent(s.drop_last()).push(s.last())
    }
}

/// An entry that the drain still has to send.
pub open spec fn sendable(e: OutboxEntry) -> bool {
    e.status == OutboxStatus::Pending || e.status == OutboxStatus::Failed
}

/// The ordered log of mutations.
pub struct Outbox {
    entries: Vec<OutboxEntry>,
}

impl View for Outbox {
    type V = Seq<OutboxEntry>;

    closed spec fn view(&self) -> Seq<OutboxEntry> {
        self.entries@
    }
}

impl Outbox {
    /// An empty log.
    pub fn new() -> (r: Outbox)
        ensures
            r@ == Seq::<OutboxEntry>::empty(),
    {
        Outbox { entries: Vec::new() }
    }

    /// A log holding `entries`, in that order.
    pub fn from_entries(entries: Vec<OutboxEntry>) -> (r: Outbox)
        ensures
            r@ == entries@,
    {
        Outbox { entries }
    }

    /// Number of entries, whatever their status.
    pub fn len(&self) -> (r: usize)
        ensures
            r == self@.len(),
    {
        self.entries.len()
    }

    /// The entry at position `i`.
    pub fn get(&self, i: usize) -> (r: &OutboxEntry)
        requires
            i < self@.len(),
        ensures
            *r == self@[i as int],
    {
        &self.entries[i]
    }

    /// A copy of every entry, in order.
    pub fn entries(&self) -> (r: Vec<OutboxEntry>)
        ensures
            r@ == self@,
    {
        let mut out: Vec<OutboxEntry> = Vec::new();
        let mut i: usize = 0;
        while i < self.entries.len()
            invariant
                i <= self@.len(),
                out@ == self@.subrange(0, i as int),
            decreases self@.len() - i,
        {
            out.push(self.entries[i].duplicate());
            i += 1;
            proof {
                assert(out@ =~= self@.subrange(0, i as int));
            }
        }
        proof {
            assert(self@.subrange(0, self@.len() as int) =~= self@);
        }
        out
    }

    /// Position of the last pending entry for an entity.
    pub fn find_last_pending(&self, kind: EntityType, id: u128) -> (r: Option<usize>)
        ensures
            match r {
                Some(i) => last_pending(self@, kind, id) == Some(i as int),
                None => last_pending(self@, kind, id) is None,
            },
    {
        let mut i: usize = self.entries.len();
        proof {
            assert(self@.subrange(0, i as int) =~= self@);
        }
        while i > 0
            invariant
                i <= self@.len(),
                last_pending(self@, kind, id) == last_pending(self@.subrange(0, i as int), kind, id),
            decreases i,
        {
            let e = &self.entries[i - 1];
            proof {
                assert(self@.subrange(0, i as int).drop_last() =~= self@.subrange(0, i - 1));
                assert(self@.subrange(0, i as int).last() == self@[i - 1]);
            }
            if e.status == OutboxStatus::Pending && e.entity_type == kind && e.payload.entity_id() == id {
                return Some(i - 1);
            }
            i -= 1;
        }
        proof {
            assert(self@.subrange(0, 0) =~= Seq::<OutboxEntry>::empty());
        }
        None
    }

    /// Appends a mutation, coalescing it with a pending one for the same entity.
    pub fn enqueue(&mut self, e: OutboxEntry)
        ensures
            final(self)@ == enqueued(old(self)@, e),
    {
        let found = self.find_last_pending(e.entity_type, e.payload.entity_id());
        proof {
            lemma_last_pending_found(self@, e.entity_type, e.payload.spec_entity_id());
        }
        match found {
            None => {
                self.entries.push(e);
            },
            Some(i) => {
                let prior_action = self.entries[i].action;
                if prior_action == Action::Create && e.action == Action::Delete {
                    self.entries.remove(i);
                } else if prior_action == Action::Update && e.action == Action::Delete {
                    self.entries.set(i, e);
                } else if e.action == Action::Update && (prior_action == Action::Create
                    || prior_action == Action::Update) {
                    let prior = self.entries[i].duplicate();
                    let merged = OutboxEntry {
                        id: prior.id,
                        action: prior.action,
                        entity_type: prior.entity_type,
                        payload: e.payload,
                        created_at: prior.created_at,
                        attempts: prior.attempts,
                        status: prior.status,
                    };
                    self.entries.set(i, merged);
                } else {
                    self.entries.push(e);
                }
            },
        }
    }

    /// Position of the first entry at or after `from` that the drain still has to send.
    pub fn next_sendable(&self, from: usize) -> (r: Option<usize>)
        ensures
            match r {
                Some(i) => {
                    &&& from <= i < self@.len()
                    &&& sendable(self@[i as int])
                    &&& forall|j: int| from <= j < i ==> !sendable(#[trigger] self@[j])
                },
                None => forall|j: int| from <= j < self@.len() ==> !sendable(#[trigger] self@[j]),
            },
    {
        let mut i: usize = from;
        while i < self.entries.len()
            invariant
                from <= i,
                forall|j: int| from <= j < i && j < self@.len() ==> !sendable(#[trigger] self@[j]),
            decreases self@.len() - i,
        {
            let s = self.entries[i].status;
            if s == OutboxStatus::Pending || s == OutboxStatus::Failed {
                return Some(i);
            }
            i += 1;
        }
        None
    }

    /// Sets the status of entry `i`.
    pub fn set_status(&mut self, i: usize, status: OutboxStatus)
        requires
            i < old(self)@.len(),
        ensures
            final(self)@ == old(self)@.update(i as int, with_status(old(self)@[i as int], status)),
    {
        let prior = self.entries[i].duplicate();
        let updated = OutboxEntry {
            id: prior.id,
            action: prior.action,
            entity_type: prior.entity_type,
            payload: prior.payload,
            created_at: prior.created_at,
            attempts: prior.attempts,
            status,
        };
        self.entries.set(i, updated);
    }

    /// Records the server's answer for entry `i` and says how the drain goes on.
    pub fn record_outcome(&mut self, i: usize, outcome: SendOutcome) -> (r: DrainStep)
        requires
            i < old(self)@.len(),
        ensures
            r == outcome_step(outcome),
            final(self)@ == old(self)@.update(i as int, after_outcome(old(self)@[i as int], outcome)),
    {
        let (status, step) = match outcome {
            SendOutcome::Status(code) => {
                if 200 <= code && code <= 299 {
                    (OutboxStatus::Sent, DrainStep::Advance)
                } else if 500 <= code && code <= 599 {
                    (OutboxStatus::Pending, DrainStep::Retry)
                } else if code == 409 {
                    (OutboxStatus::Failed, DrainStep::Conflict)
                } else {
                    (OutboxStatus::Failed, DrainStep::Advance)
                }
            },
            SendOutcome::Transport => (OutboxStatus::Pending, DrainStep::Retry),
        };
        let prior = self.entries[i].duplicate();
        let attempts = match step {
            DrainStep::Retry => if prior.attempts < u32::MAX {
                prior.attempts + 1
            } else {
                prior.attempts
            },
            _ => prior.attempts,
        };
        let updated = OutboxEntry {
            id: prior.id,
            action: prior.action,
            entity_type: prior.entity_type,
            payload: prior.payload,
            created_at: prior.created_at,
            attempts,
            status,
        };
        self.entries.set(i, updated);
        step
    }

    /// Replaces entry `i`.
    pub fn replace(&mut self, i: usize, e: OutboxEntry)
        requires
            i < old(self)@.len(),
        ensures
            final(self)@ == old(self)@.update(i as int, e),
    {
        self.entries.set(i, e);
    }

    /// Drops every entry that the server has acknowledged, keeping the others in order.
    pub fn remove_sent(&mut self)
        ensures
            final(self)@ == unsent(old(self)@),
    {
        let mut kept: Vec<OutboxEntry> = Vec::new();
        let mut i: usize = 0;
        while i < self.entries.len()
            invariant
                i <= self@.len(),
                self@ == old(self)@,
                kept@ == unsent(self@.subrange(0, i as int)),
            decreases self@.len() - i,
        {
            let ghost prefix = self@.subrange(0, i + 1);
            proof {
                assert(prefix.drop_last() =~= self@.subrange(0, i as int));
                assert(prefix.last() == self@[i as int]);
            }
            let keep = match self.entries[i].status {
                OutboxStatus::Sent => false,
                _ => true,
            };
            if keep {
                kept.push(self.entries[i].duplicate());
            }
            i += 1;
            proof {
                assert(kept@ == unsent(prefix));
            }
        }
        proof {
            assert(self@.subrange(0, self@.len() as int) =~= self@);
        }
        self.entries = kept;
    }

    /// No entry is waiting for the server: every one has been acknowledged.
    pub fn is_drained(&self) -> (r: bool)
        ensures
            r == forall|j: int| 0 <= j < self@.len() ==> (#[trigger] self@[j]).status == OutboxStatus::Sent,
    {
        let mut i: usize = 0;
        while i < self.entries.len()
            invariant
                forall|j: int| 0 <= j < i && j < self@.len() ==> (#[trigger] self@[j]).status == OutboxStatus::Sent,
            decreases self@.len() - i,
        {
            if self.entries[i].status != OutboxStatus::Sent {
                return false;
            }
            i += 1;
        }
        true
    }
}

/// Coalescing: an update after a create of the same entity leaves a single create that
/// carries the update's payload.
pub proof fn lemma_update_after_create_coalesces(s: Seq<OutboxEntry>, c: OutboxEntry, u: OutboxEntry)
    requires
        last_pending(s, c.entity_type, c.payload.spec_entity_id()) is None,
        c.action == Action::Create,
        c.status == OutboxStatus::Pending,
        u.action == Action::Update,
        u.entity_type == c.entity_type,
        u.payload.spec_entity_id() == c.payload.spec_entity_id(),
    ensures
        enqueued(enqueued(s, c), u) == s.push(with_payload(c, u.payload)),
{
    let s1 = s.push(c);
    assert(s1.drop_last() =~= s);
    assert(last_pending(s1, c.entity_type, c.payload.spec_entity_id()) == Some(s.len() as int));
    assert(s1.update(s.len() as int, with_payload(c, u.payload)) =~= s.push(with_payload(c, u.payload)));
}

/// Coalescing: a delete after a create of the same entity leaves the log as it was
/// before the create.
pub proof fn lemma_delete_after_create_annihilates(s: Seq<OutboxEntry>, c: OutboxEntry, d: OutboxEntry)
    requires
        last_pending(s, c.entity_type, c.payload.spec_entity_id()) is None,
        c.action == Action::Create,
        c.status == OutboxStatus::Pending,
        d.action == Action::Delete,
        d.entity_type == c.entity_type,
        d.payload.spec_entity_id() == c.payload.spec_entity_id(),
    ensures
        enqueued(enqueued(s, c), d) == s,
{
    let s1 = s.push(c);
    assert(s1.drop_last() =~= s);
    assert(s1.remove(s.len() as int) =~= s);
}

/// Coalescing: create, update and delete of the same entity leave the log as it was.
pub proof fn lemma_create_update_delete_annihilates(
    s: Seq<OutboxEntry>,
    c: OutboxEntry,
    u: OutboxEntry,
    d: OutboxEntry,
)
    requires
        last_pending(s, c.entity_type, c.payload.spec_entity_id()) is None,
        c.action == Action::Create,
        c.status == OutboxStatus::Pending,
        u.action == Action::Update,
        u.entity_type == c.entity_type,
        u.payload.spec_entity_id() == c.payload.spec_entity_id(),
        d.action == Action::Delete,
        d.entity_type == c.entity_type,
        d.payload.spec_entity_id() == c.payload.spec_entity_id(),
    ensures
        enqueued(enqueued(enqueued(s, c), u), d) == s,
{
    lemma_update_after_create_coalesces(s, c, u);
    let merged = with_payload(c, u.payload);
    lemma_delete_after_create_annihilates(s, merged, d);
}

/// Ordering: a mutation with nothing pending for its entity goes to the end of the log,
/// after every earlier entry, which keep their places.
pub proof fn lemma_enqueue_keeps_insertion_order(s: Seq<OutboxEntry>, e: OutboxEntry)
    requires
        last_pending(s, e.entity_type, e.payload.spec_entity_id()) is None,
    ensures
        enqueued(s, e).len() == s.len() + 1,
        enqueued(s, e).last() == e,
        enqueued(s, e).subrange(0, s.len() as int) == s,
{
    assert(s.push(e).subrange(0, s.len() as int) =~= s);
}

} // verus!
