//! The server's rules that the sync engine relies on, over its table of vault rows: the
//! idempotent upsert behind `PUT /vaults/{id}`, the `since` filter of `GET /vaults`, and the
//! claims of the access token it issues.
use vstd::prelude::*;

use crate::wire::{CreateVaultRequest, Vault};

verus! {

/// `200 OK`
pub const STATUS_OK: u16 = 200;

/// `201 Created`
pub const STATUS_CREATED: u16 = 201;

/// `204 No Content`
pub const STATUS_NO_CONTENT: u16 = 204;

/// `409 Conflict`
pub const STATUS_CONFLICT: u16 = 409;

/// Lifetime of an access token, in seconds (seven days).
pub const TOKEN_LIFETIME_SECS: u64 = 604800;

/// Position of the last row with id `id`.
pub open spec fn row_pos(s: Seq<Vault>, id: u128) -> Option<int>
    decreases s.len(),
{
    if s.len() == 0 {
        None
    } else if s.last().id == id {
        Some(s.len() - 1)
    } else {
        row_pos(s.drop_last(), id)
    }
}

pub proof fn lemma_row_pos_found(s: Seq<Vault>, id: u128)
    ensures
        row_pos(s, id) matches Some(i) ==> 0 <= i < s.len() && s[i].id == id,
    decreases s.len(),
{
    if s.len() > 0 && s.last().id != id {
        lemma_row_pos_found(s.drop_last(), id);
    }
}

pub proof fn lemma_row_pos_update(s: Seq<Vault>, i: int, v: Vault)
    requires
        row_pos(s, v.id) == Some(i),
    ensures
        row_pos(s.update(i, v), v.id) == Some(i),
    decreases s.len(),
{
    lemma_row_pos_found(s, v.id);
    if i < s.len() - 1 {
        assert(s.update(i, v).drop_last() =~= s.drop_last().update(i, v));
        lemma_row_pos_update(s.drop_last(), i, v);
    }
}

/// The instant an update is stamped with: `now`, unless that is not after the row's last
/// update, in which case the instant just after it (saturating at `i64::MAX`).
pub open spec fn later_instant(prev: i64, now: i64) -> i64 {
    if now > prev {
        now
    } else if prev < i64::MAX {
        (prev + 1) as i64
    } else {
        prev
    }
}

/// The rows and the status after `PUT /vaults/{id}` by `user` at instant `now`:
/// - a row of another user: unchanged, 409;
/// - a row of the user with the same ciphertexts: unchanged, 200;
/// - a row of the user with other ciphertexts: updated in place with a later `updated_at`, 200;
/// - no row: inserted with the given id, 201.
pub open spec fn put_result(s: Seq<Vault>, user: u128, id: u128, body: CreateVaultRequest, now: i64) -> (Seq<Vault>, u16) {
    match row_pos(s, id) {
        Some(i) => if s[i].user_id != user {
            (s, STATUS_CONFLICT)
        } else if s[i].encrypted_name@ == body.encrypted_name@ && s[i].encrypted_vault_key@
            == body.encrypted_vault_key@ {
            (s, STATUS_OK)
        } else {
            (s.update(i, Vault {
                id: s[i].id,
                user_id: s[i].user_id,
                encrypted_vault_key: body.encrypted_vault_key,
                encrypted_name: body.encrypted_name,
                created_at: s[i].created_at,
                updated_at: later_instant(s[i].updated_at, now),
            }), STATUS_OK)
        },
        None => (s.push(Vault {
            id,
            user_id: user,
            encrypted_vault_key: body.encrypted_vault_key,
            encrypted_name: body.encrypted_name,
            created_at: now,
            updated_at: now,
        }), STATUS_CREATED),
    }
}

/// Query of `GET /vaults`: rows updated strictly after `since` (microseconds), or all rows.
#[derive(Debug, Clone, Copy, PartialEq, Eq, Structural)]
pub struct ListVaultsQuery {
    pub since: Option<i64>,
}

/// The row is returned to `user` for the query.
pub open spec fn listed_for(v: Vault, user: u128, q: ListVaultsQuery) -> bool {
    v.user_id == user && match q.since {
        Some(t) => v.updated_at > t,
        None => true,
    }
}

/// The rows returned to `user` for the query, in table order.
pub open spec fn rows_listed(s: Seq<Vault>, user: u128, q: ListVaultsQuery) -> Seq<Vault>
    decreases s.len(),
{
    if s.len() == 0 {
        s
    } else if listed_for(s.last(), user, q) {
        rows_listed(s.drop_last(), user, q).push(s.last())
    } else {
        rows_listed(s.drop_last(), user, q)
    }
}

fn copy_row(v: &Vault) -> (r: Vault)
    ensures
        r == *v,
{
    Vault {
        id: v.id,
        user_id: v.user_id,
        encrypted_vault_key: v.encrypted_vault_key.clone(),
        encrypted_name: v.encrypted_name.clone(),
        created_at: v.created_at,
        updated_at: v.updated_at,
    }
}

/// The server's table of vault rows.
pub struct VaultTable {
    rows: Vec<Vault>,
}

impl View for VaultTable {
    type V = Seq<Vault>;

    closed spec fn view(&self) -> Seq<Vault> {
        self.rows@
    }
}

impl VaultTable {
    /// An empty table.
    pub fn new() -> (r: VaultTable)
        ensures
            r@ == Seq::<Vault>::empty(),
    {
        VaultTable { rows: Vec::new() }
    }

    /// A copy of every row, in table order.
    pub fn rows(&self) -> (r: Vec<Vault>)
        ensures
            r@ == self@,
    {
        let mut out: Vec<Vault> = Vec::new();
        let mut i: usize = 0;
        while i < self.rows.len()
            invariant
                i <= self@.len(),
                out@ == self@.subrange(0, i as int),
            decreases self@.len() - i,
        {
            out.push(copy_row(&self.rows[i]));
            i += 1;
            proof {
                assert(out@ =~= self@.subrange(0, i as int));
            }
        }
        proof {
            assert(self@.subrange(0, self@.len() as int) =~= self@);
        }
        out
    }

    fn find(&self, id: u128) -> (r: Option<usize>)
        ensures
            match r {
                Some(i) => row_pos(self@, id) == Some(i as int) && i < self@.len(),
                None => row_pos(self@, id) is None,
            },
    {
        let mut i: usize = self.rows.len();
        proof {
            assert(self.rows@.subrange(0, i as int) =~= self.rows@);
        }
        while i > 0
            invariant
                i <= self.rows@.len(),
                row_pos(self.rows@, id) == row_pos(self.rows@.subrange(0, i as int), id),
            decreases i,
        {
            proof {
                assert(self.rows@.subrange(0, i as int).drop_last() =~= self.rows@.subrange(0, i - 1));
            }
            if self.rows[i - 1].id == id {
                return Some(i - 1);
            }
            i -= 1;
        }
        None
    }

    /// `PUT /vaults/{id}`: an idempotent upsert with an ownership check.
    pub fn put_vault(&mut self, user: u128, id: u128, body: CreateVaultRequest, now: i64) -> (r: u16)
        ensures
            (final(self)@, r) == put_result(old(self)@, user, id, body, now),
    {
        match self.find(id) {
            Some(i) => {
                proof {
                    lemma_row_pos_found(self@, id);
                }
                let row = copy_row(&self.rows[i]);
                if row.user_id != user {
                    STATUS_CONFLICT
                } else if row.encrypted_name == body.encrypted_name && row.encrypted_vault_key
                    == body.encrypted_vault_key {
                    STATUS_OK
                } else {
                    let updated = Vault {
                        id: row.id,
                        user_id: row.user_id,
                        encrypted_vault_key: body.encrypted_vault_key,
                        encrypted_name: body.encrypted_name,
                        created_at: row.created_at,
                        updated_at: if now > row.updated_at {
                            now
                        } else if row.updated_at < i64::MAX {
                            row.updated_at + 1
                        } else {
                            row.updated_at
                        },
                    };
                    self.rows.set(i, updated);
                    STATUS_OK
                }
            },
            None => {
                self.rows.push(
                    Vault {
                        id,
                        user_id: user,
                        encrypted_vault_key: body.encrypted_vault_key,
                        encrypted_name: body.encrypted_name,
                        created_at: now,
                        updated_at: now,
                    },
                );
                STATUS_CREATED
            },
        }
    }

    /// `DELETE /vaults/{id}`: removes the user's row with that id, if any; always 204.
    pub fn delete_vault(&mut self, user: u128, id: u128) -> (r: u16)
        ensures
            r == STATUS_NO_CONTENT,
            match row_pos(old(self)@, id) {
                Some(i) => if old(self)@[i].user_id == user {
                    final(self)@ == old(self)@.remove(i)
                } else {
                    final(self)@ == old(self)@
                },
                None => final(self)@ == old(self)@,
            },
    {
        match self.find(id) {
            Some(i) => {
                if self.rows[i].user_id == user {
                    self.rows.remove(i);
                }
            },
            None => {},
        }
        STATUS_NO_CONTENT
    }

    /// `GET /vaults[?since=..]`: the user's rows, restricted to those updated after `since`.
    pub fn list_vaults(&self, user: u128, query: ListVaultsQuery) -> (r: Vec<Vault>)
        ensures
            r@ == rows_listed(self@, user, query),
    {
        let mut out: Vec<Vault> = Vec::new();
        let mut i: usize = 0;
        while i < self.rows.len()
            invariant
                i <= self@.len(),
                out@ == rows_listed(self@.subrange(0, i as int), user, query),
            decreases self@.len() - i,
        {
            let ghost prefix = self@.subrange(0, i + 1);
            proof {
                assert(prefix.drop_last() =~= self@.subrange(0, i as int));
                assert(prefix.last() == self@[i as int]);
            }
            let row = &self.rows[i];
            let keep = row.user_id == user && match query.since {
                Some(t) => row.updated_at > t,
                None => true,
            };
            if keep {
                out.push(copy_row(row));
            }
            i += 1;
        }
        proof {
            assert(self@.subrange(0, self@.len() as int) =~= self@);
        }
        out
    }
}

/// Replaying a `PUT` that the server already applied leaves its rows unchanged: the
/// second call finds a row of the same user with the same ciphertexts.
pub proof fn lemma_put_is_idempotent(
    s: Seq<Vault>,
    user: u128,
    id: u128,
    body: CreateVaultRequest,
    first: i64,
    second: i64,
)
    ensures
        put_result(put_result(s, user, id, body, first).0, user, id, body, second).0 == put_result(
            s,
            user,
            id,
            body,
            first,
        ).0,
{
    lemma_row_pos_found(s, id);
    let s1 = put_result(s, user, id, body, first).0;
    match row_pos(s, id) {
        Some(i) => {
            if s[i].user_id == user && !(s[i].encrypted_name@ == body.encrypted_name@
                && s[i].encrypted_vault_key@ == body.encrypted_vault_key@) {
                let row = s1[i];
                lemma_row_pos_update(s, i, row);
            }
        },
        None => {
            assert(s1.drop_last() =~= s);
        },
    }
}

/// A `PUT` that changes a row of its user stamps it with a strictly later `updated_at`
/// (short of the largest instant), and keeps its id, owner and creation instant.
pub proof fn lemma_put_update_is_newer(s: Seq<Vault>, user: u128, id: u128, body: CreateVaultRequest, now: i64, i: int)
    requires
        row_pos(s, id) == Some(i),
        s[i].user_id == user,
        !(s[i].encrypted_name@ == body.encrypted_name@ && s[i].encrypted_vault_key@ == body.encrypted_vault_key@),
        s[i].updated_at < i64::MAX,
    ensures
        put_result(s, user, id, body, now).1 == STATUS_OK,
        put_result(s, user, id, body, now).0[i].updated_at > s[i].updated_at,
        put_result(s, user, id, body, now).0[i].created_at == s[i].created_at,
        put_result(s, user, id, body, now).0[i].user_id == user,
{
    lemma_row_pos_found(s, id);
}

/// Claims of an access token.
#[derive(Debug, Clone)]
pub struct Claims {
    pub sub: String,
    pub exp: u64,
    pub iat: u64,
    pub iss: String,
    pub aud: String,
    pub jti: String,
    pub nbf: u64,
}

impl Claims {
    /// Claims for a user at `now` (Unix seconds): issued and valid from `now`, expiring
    /// seven days later (saturating), with `issuer` as issuer and audience.
    pub fn new(sub: String, now: u64, issuer: &str, jti: String) -> (r: Claims)
        ensures
            r.sub == sub,
            r.jti == jti,
            r.iss@ == issuer@,
            r.aud@ == issuer@,
            r.iat == now,
            r.nbf == now,
            r.exp == if now <= u64::MAX - TOKEN_LIFETIME_SECS { now + TOKEN_LIFETIME_SECS } else { u64::MAX as int },
    {
        let exp = if now <= u64::MAX - TOKEN_LIFETIME_SECS { now + TOKEN_LIFETIME_SECS } else { u64::MAX };
        Claims { sub, exp, iat: now, iss: issuer.to_owned(), aud: issuer.to_owned(), jti, nbf: now }
    }
}

} // verus!
