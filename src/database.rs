//! The persistent store as a value: the master credential row and the entry
//! rows, with the entry operations of a signed-in session.

use vstd::prelude::*;

use crate::cipher::{is_token_for, wipe_key, KEY_LEN};
use crate::error::VaultError;
use crate::models::{
    entry_genuine, opened_entry, sealable, session_key, session_key_ok, AuthState,
    PasswordEntryRaw, PasswordEntrySafe,
};
use crate::secret::contains_run;

verus! {

/// The singleton master credential row: the verifier hash of the master
/// password and the key salt, both empty until a master password is set.
pub struct MasterRecord {
    pub password_hash: String,
    pub key_salt: String,
}

/// The store: the master credential and the entry rows in row-id order.
/// `next_id` is the id the next inserted row receives.
pub struct DatabaseService {
    pub master: MasterRecord,
    pub entries: Vec<PasswordEntrySafe>,
    pub next_id: i32,
}

/// Row ids increase strictly along `rows`, and all lie in `1..next_id`.
pub open spec fn rows_ordered(rows: Seq<PasswordEntrySafe>, next_id: i32) -> bool {
    &&& forall|i: int, j: int| 0 <= i < j < rows.len() ==> rows[i].id < rows[j].id
    &&& forall|i: int| 0 <= i < rows.len() ==> 1 <= #[trigger] rows[i].id < next_id
}

/// The search predicate: `q` occurs in the row's site or in its username.
pub open spec fn row_matches(e: PasswordEntrySafe, q: Seq<char>) -> bool {
    contains_run(e.site@, q) || contains_run(e.username@, q)
}

/// The rows that a search for `q` returns, in their order.
pub open spec fn matching_rows(rows: Seq<PasswordEntrySafe>, q: Seq<char>) -> Seq<PasswordEntrySafe> {
    rows.filter(|e: PasswordEntrySafe| row_matches(e, q))
}

/// Some row has the id.
pub open spec fn has_id(rows: Seq<PasswordEntrySafe>, id: i32) -> bool {
    exists|k: int| 0 <= k < rows.len() && #[trigger] rows[k].id == id
}

/// The rows with one id removed.
pub open spec fn without_id(rows: Seq<PasswordEntrySafe>, id: i32) -> Seq<PasswordEntrySafe> {
    rows.filter(|e: PasswordEntrySafe| e.id != id)
}

proof fn lemma_filter_step(s: Seq<PasswordEntrySafe>, i: int, pred: spec_fn(PasswordEntrySafe) -> bool)
    requires
        0 <= i < s.len(),
    ensures
        s.take(i + 1).filter(pred) == if pred(s[i]) {
            s.take(i).filter(pred).push(s[i])
        } else {
            s.take(i).filter(pred)
        },
{
    reveal(Seq::filter);
    assert(s.take(i + 1).drop_last() =~= s.take(i));
}

/// Relies on `str::contains` with a `&str` pattern: whether the pattern occurs
/// as a contiguous run of characters.
#[verifier::external_body]
fn str_contains(hay: &str, needle: &str) -> (r: bool)
    ensures
        r == contains_run(hay@, needle@),
{
    hay.contains(needle)
}

impl MasterRecord {
    /// The key salt is set exactly when the verifier hash is.
    pub open spec fn wf(&self) -> bool {
        (self.password_hash@.len() == 0) == (self.key_salt@.len() == 0)
    }
}

impl DatabaseService {
    pub open spec fn wf(&self) -> bool {
        &&& self.master.wf()
        &&& self.next_id >= 1
        &&& rows_ordered(self.entries@, self.next_id)
    }

    /// A freshly created store: one empty master row and no entries.
    pub fn new() -> (r: DatabaseService)
        ensures
            r.wf(),
            r.master.password_hash@.len() == 0,
            r.master.key_salt@.len() == 0,
            r.entries@.len() == 0,
            r.next_id == 1,
    {
        DatabaseService {
            master: MasterRecord { password_hash: String::new(), key_salt: String::new() },
            entries: Vec::new(),
            next_id: 1,
        }
    }

    /// A store read back from its rows; `None` where the rows break the
    /// store's invariant.
    pub fn from_rows(master: MasterRecord, entries: Vec<PasswordEntrySafe>, next_id: i32) -> (r:
        Option<DatabaseService>)
        ensures
            r is Some <==> (master.wf() && next_id >= 1 && rows_ordered(entries@, next_id)),
            r is Some ==> r->Some_0.master == master && r->Some_0.entries@ == entries@
                && r->Some_0.next_id == next_id,
    {
        let master_ok = master.password_hash.as_str().is_empty() == master.key_salt.as_str().is_empty();
        if !master_ok || next_id < 1 {
            return None;
        }
        let mut i: usize = 0;
        while i < entries.len()
            invariant
                0 <= i <= entries@.len(),
                next_id >= 1,
                forall|a: int, b: int| 0 <= a < b < i ==> entries@[a].id < entries@[b].id,
                forall|a: int| 0 <= a < i ==> 1 <= #[trigger] entries@[a].id < next_id,
            decreases entries@.len() - i,
        {
            let id = entries[i].id;
            if id < 1 || id >= next_id || (i > 0 && entries[i - 1].id >= id) {
                return None;
            }
            i = i + 1;
        }
        Some(DatabaseService { master, entries, next_id })
    }
}

/// Checks the session and derives its key.
fn session_key_material(auth_state: &AuthState) -> (r: Result<Vec<u8>, VaultError>)
    ensures
        (r is Err && r->Err_0 is Unauthenticated) <==> !auth_state.signed_in,
        (r is Err && r->Err_0 is KdfError) <==> auth_state.signed_in && !session_key_ok(*auth_state),
        r is Ok <==> auth_state.signed_in && session_key_ok(*auth_state),
        r is Ok ==> r->Ok_0@ == session_key(*auth_state) && r->Ok_0@.len() == KEY_LEN,
{
    if !auth_state.signed_in {
        return Err(VaultError::Unauthenticated);
    }
    auth_state.get_key_material()
}

/// Seals `new_entry` under the session's key and appends it as a new row.
pub fn create_password_entry(
    new_entry: PasswordEntryRaw,
    auth_state: &AuthState,
    db_service: &mut DatabaseService,
) -> (r: Result<(), VaultError>)
    requires
        old(db_service).wf(),
    ensures
        final(db_service).wf(),
        (r is Err && r->Err_0 is Unauthenticated) <==> !auth_state.signed_in,
        (r is Err && r->Err_0 is KdfError) <==> auth_state.signed_in && !session_key_ok(*auth_state),
        (r is Err && r->Err_0 is PlaintextTooLong) <==> auth_state.signed_in && session_key_ok(
            *auth_state,
        ) && !sealable(new_entry),
        (r is Err && r->Err_0 is StoreError) <==> auth_state.signed_in && session_key_ok(*auth_state)
            && sealable(new_entry) && old(db_service).next_id == i32::MAX,
        r is Err ==> (r->Err_0 is Unauthenticated || r->Err_0 is KdfError
            || r->Err_0 is PlaintextTooLong || r->Err_0 is StoreError),
        r is Ok <==> auth_state.signed_in && session_key_ok(*auth_state) && sealable(new_entry)
            && old(db_service).next_id < i32::MAX,
        r is Err ==> *final(db_service) == *old(db_service),
        r is Ok ==> {
            let n = old(db_service).entries@.len();
            let row = final(db_service).entries@[n as int];
            &&& final(db_service).master == old(db_service).master
            &&& final(db_service).entries@.len() == n + 1
            &&& final(db_service).entries@.take(n as int) == old(db_service).entries@
            &&& row.id == old(db_service).next_id
            &&& row.site@ == new_entry.site@
            &&& row.username@ == new_entry.username@
            &&& is_token_for(session_key(*auth_state), row.password_hash@, new_entry.raw_password@)
            &&& final(db_service).next_id == old(db_service).next_id + 1
        },
{
    let mut key = session_key_material(auth_state)?;
    let sealed = new_entry.seal_with_key(&key);
    wipe_key(&mut key);
    let sealed = sealed?;
    if db_service.next_id == i32::MAX {
        return Err(VaultError::StoreError);
    }
    let id = db_service.next_id;
    let row = PasswordEntrySafe {
        id,
        site: sealed.site,
        username: sealed.username,
        password_hash: sealed.password_hash,
    };
    db_service.entries.push(row);
    db_service.next_id = id + 1;
    proof {
        assert(db_service.entries@.take(old(db_service).entries@.len() as int)
            =~= old(db_service).entries@);
    }
    Ok(())
}

/// Opens every row whose site or username contains `query`, in row-id order.
/// One row that does not open fails the whole call.
pub fn get_all_password_entries(
    auth_state: &AuthState,
    db_service: &DatabaseService,
    query: &str,
) -> (r: Result<Vec<PasswordEntryRaw>, VaultError>)
    ensures
        (r is Err && r->Err_0 is Unauthenticated) <==> !auth_state.signed_in,
        (r is Err && r->Err_0 is KdfError) <==> auth_state.signed_in && !session_key_ok(*auth_state),
        r is Ok ==> {
            let m = matching_rows(db_service.entries@, query@);
            &&& r->Ok_0@.len() == m.len()
            &&& forall|j: int|
                0 <= j < m.len() ==> opened_entry(session_key(*auth_state), m[j], #[trigger] r->Ok_0@[j])
        },
        auth_state.signed_in && session_key_ok(*auth_state) && (forall|j: int|
            0 <= j < matching_rows(db_service.entries@, query@).len() ==> entry_genuine(
                session_key(*auth_state),
                #[trigger] matching_rows(db_service.entries@, query@)[j],
            )) ==> r is Ok,
        (r is Err && r->Err_0 is AuthFailed) <==> auth_state.signed_in && session_key_ok(*auth_state)
            && exists|j: int|
            0 <= j < matching_rows(db_service.entries@, query@).len() && !entry_genuine(
                session_key(*auth_state),
                #[trigger] matching_rows(db_service.entries@, query@)[j],
            ),
        r is Err ==> (r->Err_0 is Unauthenticated || r->Err_0 is KdfError || r->Err_0 is AuthFailed),
{
    let mut key = session_key_material(auth_state)?;
    let ghost rows = db_service.entries@;
    let ghost pred = |e: PasswordEntrySafe| row_matches(e, query@);
    let mut out: Vec<PasswordEntryRaw> = Vec::new();
    let ghost mut picked: Seq<PasswordEntrySafe> = Seq::empty();
    let mut i: usize = 0;
    proof {
        reveal(Seq::filter);
        assert(rows.take(0) =~= Seq::<PasswordEntrySafe>::empty());
    }
    while i < db_service.entries.len()
        invariant
            i <= rows.len(),
            rows == db_service.entries@,
            pred == (|e: PasswordEntrySafe| row_matches(e, query@)),
            auth_state.signed_in,
            session_key_ok(*auth_state),
            key@ == session_key(*auth_state),
            key@.len() == KEY_LEN,
            picked == rows.take(i as int).filter(pred),
            out@.len() == picked.len(),
            forall|j: int|
                0 <= j < picked.len() ==> opened_entry(session_key(*auth_state), picked[j], #[trigger] out@[j]),
        decreases rows.len() - i,
    {
        let row = &db_service.entries[i];
        proof {
            lemma_filter_step(rows, i as int, pred);
        }
        let in_site = str_contains(row.site.as_str(), query);
        let in_user = str_contains(row.username.as_str(), query);
        assert(row_matches(rows[i as int], query@) == (in_site || in_user));
        if in_site || in_user {
            assert(pred(rows[i as int]));
            let opened = match row.open_with_key(&key) {
                Ok(o) => o,
                Err(_) => {
                    proof {
                        let m = matching_rows(db_service.entries@, query@);
                        let a = rows.take(i + 1).filter(pred);
                        assert(a == picked.push(rows[i as int]));
                        assert(rows =~= rows.take(i + 1) + rows.skip(i + 1));
                        Seq::filter_distributes_over_add(rows.take(i + 1), rows.skip(i + 1), pred);
                        assert(m == rows.filter(pred));
                        assert(m == a + rows.skip(i + 1).filter(pred));
                        assert(m[picked.len() as int] == a[picked.len() as int]);
                        assert(m[picked.len() as int] == rows[i as int]);
                        assert(!entry_genuine(session_key(*auth_state), m[picked.len() as int]));
                    }
                    wipe_key(&mut key);
                    return Err(VaultError::AuthFailed);
                },
            };
            out.push(opened);
            proof {
                assert(rows.take(i + 1).filter(pred) == picked.push(rows[i as int]));
                picked = picked.push(rows[i as int]);
            }
        } else {
            assert(!pred(rows[i as int]));
        }
        i = i + 1;
    }
    proof {
        assert(rows.take(rows.len() as int) =~= rows);
        assert(matching_rows(rows, query@) == rows.filter(pred));
        let m = matching_rows(db_service.entries@, query@);
        assert forall|j: int| 0 <= j < m.len() implies entry_genuine(session_key(*auth_state), #[trigger] m[j]) by {
            assert(opened_entry(session_key(*auth_state), picked[j], out@[j]));
            assert(is_token_for(session_key(*auth_state), m[j].password_hash@, out@[j].raw_password@));
        }
    }
    wipe_key(&mut key);
    Ok(out)
}

/// The index of the row with `id`, if there is one.
fn find_row(rows: &Vec<PasswordEntrySafe>, id: i32) -> (r: Option<usize>)
    ensures
        r is Some <==> has_id(rows@, id),
        r is Some ==> r->Some_0 < rows@.len() && rows@[r->Some_0 as int].id == id,
{
    let mut i: usize = 0;
    while i < rows.len()
        invariant
            i <= rows@.len(),
            forall|k: int| 0 <= k < i ==> #[trigger] rows@[k].id != id,
        decreases rows@.len() - i,
    {
        if rows[i].id == id {
            return Some(i);
        }
        i = i + 1;
    }
    None
}

/// Opens the row with `id`.
pub fn get_password_entry_by_id(
    id: i32,
    auth_state: &AuthState,
    db_service: &DatabaseService,
) -> (r: Result<PasswordEntryRaw, VaultError>)
    ensures
        (r is Err && r->Err_0 is Unauthenticated) <==> !auth_state.signed_in,
        (r is Err && r->Err_0 is NotFound) <==> auth_state.signed_in && !has_id(
            db_service.entries@,
            id,
        ),
        (r is Err && r->Err_0 is KdfError) <==> auth_state.signed_in && has_id(db_service.entries@, id)
            && !session_key_ok(*auth_state),
        r is Err ==> (r->Err_0 is Unauthenticated || r->Err_0 is NotFound || r->Err_0 is KdfError
            || r->Err_0 is MalformedToken || r->Err_0 is AuthFailed || r->Err_0 is MalformedPlaintext),
        r is Ok ==> exists|k: int|
            0 <= k < db_service.entries@.len() && #[trigger] db_service.entries@[k].id == id
                && opened_entry(session_key(*auth_state), db_service.entries@[k], r->Ok_0),
        auth_state.signed_in && session_key_ok(*auth_state) && (forall|k: int|
            0 <= k < db_service.entries@.len() && #[trigger] db_service.entries@[k].id == id
                ==> entry_genuine(session_key(*auth_state), db_service.entries@[k])) && has_id(
            db_service.entries@,
            id,
        ) ==> r is Ok,
{
    if !auth_state.signed_in {
        return Err(VaultError::Unauthenticated);
    }
    let k = match find_row(&db_service.entries, id) {
        Some(k) => k,
        None => {
            return Err(VaultError::NotFound);
        },
    };
    let mut key = auth_state.get_key_material()?;
    let r = db_service.entries[k].open_with_key(&key);
    wipe_key(&mut key);
    r
}

/// Seals `password_entry` under a fresh nonce and writes its site, username
/// and token into the row with `id`. Where no row has `id`, nothing changes.
pub fn save_updated_password(
    id: i32,
    password_entry: PasswordEntryRaw,
    auth_state: &AuthState,
    db_service: &mut DatabaseService,
) -> (r: Result<(), VaultError>)
    requires
        old(db_service).wf(),
    ensures
        final(db_service).wf(),
        (r is Err && r->Err_0 is Unauthenticated) <==> !auth_state.signed_in,
        (r is Err && r->Err_0 is KdfError) <==> auth_state.signed_in && !session_key_ok(*auth_state),
        (r is Err && r->Err_0 is PlaintextTooLong) <==> auth_state.signed_in && session_key_ok(
            *auth_state,
        ) && !sealable(password_entry),
        r is Err ==> (r->Err_0 is Unauthenticated || r->Err_0 is KdfError
            || r->Err_0 is PlaintextTooLong),
        r is Ok <==> auth_state.signed_in && session_key_ok(*auth_state) && sealable(password_entry),
        r is Err ==> *final(db_service) == *old(db_service),
        final(db_service).master == old(db_service).master,
        final(db_service).next_id == old(db_service).next_id,
        final(db_service).entries@.len() == old(db_service).entries@.len(),
        forall|k: int|
            0 <= k < old(db_service).entries@.len() ==> {
                let before = old(db_service).entries@[k];
                let after = #[trigger] final(db_service).entries@[k];
                if r is Ok && before.id == id {
                    &&& after.id == id
                    &&& after.site@ == password_entry.site@
                    &&& after.username@ == password_entry.username@
                    &&& is_token_for(
                        session_key(*auth_state),
                        after.password_hash@,
                        password_entry.raw_password@,
                    )
                } else {
                    after == before
                }
            },
{
    let mut key = session_key_material(auth_state)?;
    let sealed = password_entry.seal_with_key(&key);
    wipe_key(&mut key);
    let sealed = sealed?;
    match find_row(&db_service.entries, id) {
        Some(k) => {
            let row = PasswordEntrySafe {
                id,
                site: sealed.site,
                username: sealed.username,
                password_hash: sealed.password_hash,
            };
            db_service.entries.set(k, row);
            proof {
                assert forall|a: int| 0 <= a < db_service.entries@.len() && a != k implies
                    #[trigger] db_service.entries@[a].id != id by {
                    if a < k {
                        assert(old(db_service).entries@[a].id < old(db_service).entries@[k as int].id);
                    } else {
                        assert(old(db_service).entries@[k as int].id < old(db_service).entries@[a].id);
                    }
                }
            }
        },
        None => {},
    }
    Ok(())
}

/// Removes the row with `id`, if there is one.
pub fn delete_password(id: i32, db_service: &mut DatabaseService)
    requires
        old(db_service).wf(),
    ensures
        final(db_service).wf(),
        final(db_service).master == old(db_service).master,
        final(db_service).next_id == old(db_service).next_id,
        final(db_service).entries@ == without_id(old(db_service).entries@, id),
{
    let ghost rows = db_service.entries@;
    let ghost pred = |e: PasswordEntrySafe| e.id != id;
    let mut kept: Vec<PasswordEntrySafe> = Vec::new();
    let mut old_rows: Vec<PasswordEntrySafe> = Vec::new();
    std::mem::swap(&mut old_rows, &mut db_service.entries);
    assert(old_rows@ == rows);
    proof {
        reveal(Seq::filter);
        assert(rows.take(0) =~= Seq::<PasswordEntrySafe>::empty());
    }
    let mut i: usize = 0;
    while i < old_rows.len()
        invariant
            i <= rows.len(),
            rows == old_rows@,
            pred == (|e: PasswordEntrySafe| e.id != id),
            kept@ == rows.take(i as int).filter(pred),
        decreases rows.len() - i,
    {
        proof {
            lemma_filter_step(rows, i as int, pred);
        }
        if old_rows[i].id != id {
            let row = PasswordEntrySafe {
                id: old_rows[i].id,
                site: old_rows[i].site.clone(),
                username: old_rows[i].username.clone(),
                password_hash: old_rows[i].password_hash.clone(),
            };
            assert(row == rows[i as int]);
            kept.push(row);
        }
        i = i + 1;
    }
    proof {
        assert(rows.take(rows.len() as int) =~= rows);
        lemma_filter_ordered(rows, db_service.next_id, pred);
    }
    db_service.entries = kept;
}

/// A search keeps rows in row-id order.
pub proof fn lemma_search_ordered(rows: Seq<PasswordEntrySafe>, next_id: i32, query: Seq<char>)
    requires
        rows_ordered(rows, next_id),
    ensures
        rows_ordered(matching_rows(rows, query), next_id),
{
    lemma_filter_ordered(rows, next_id, |e: PasswordEntrySafe| row_matches(e, query));
}

/// Filtering keeps rows ordered, and keeps only rows of the input.
proof fn lemma_filter_ordered(rows: Seq<PasswordEntrySafe>, next_id: i32, pred: spec_fn(PasswordEntrySafe) -> bool)
    requires
        rows_ordered(rows, next_id),
    ensures
        rows_ordered(rows.filter(pred), next_id),
        forall|a: int| 0 <= a < rows.filter(pred).len() ==> rows.contains(#[trigger] rows.filter(pred)[a]),
    decreases rows.len(),
{
    reveal(Seq::filter);
    if rows.len() > 0 {
        let init = rows.drop_last();
        assert(rows_ordered(init, next_id));
        lemma_filter_ordered(init, next_id, pred);
        let f = init.filter(pred);
        assert forall|a: int| 0 <= a < f.len() implies #[trigger] f[a].id < rows.last().id && rows.contains(f[a]) by {
            assert(init.contains(f[a]));
            let k = choose|k: int| 0 <= k < init.len() && init[k] == f[a];
            assert(init[k] == rows[k]);
        }
        if pred(rows.last()) {
            let g = f.push(rows.last());
            assert forall|a: int, b: int| 0 <= a < b < g.len() implies g[a].id < g[b].id by {
                if b == f.len() {
                    assert(g[a] == f[a]);
                } else {
                    assert(g[a] == f[a]);
                    assert(g[b] == f[b]);
                }
            }
            assert forall|a: int| 0 <= a < g.len() implies rows.contains(#[trigger] g[a]) by {
                if a < f.len() {
                    assert(g[a] == f[a]);
                } else {
                    assert(rows[rows.len() - 1] == g[a]);
                }
            }
            assert forall|a: int| 0 <= a < g.len() implies 1 <= #[trigger] g[a].id < next_id by {
                assert(rows.contains(g[a]));
            }
        } else {
            assert forall|a: int| 0 <= a < f.len() implies 1 <= #[trigger] f[a].id < next_id by {
                assert(rows.contains(f[a]));
            }
        }
    }
}

} // verus!
