//! Laws that relate several operations of the vault core.

use vstd::prelude::*;

use crate::authentication::{login_succeeds, rows_resealed, session_for, LoginError};
use crate::cipher::is_token_for;
use crate::database::{matching_rows, row_matches, rows_ordered, DatabaseService};
use crate::models::{opened_entry, session_key, session_key_ok, AuthState, PasswordEntryRaw, PasswordEntrySafe};
use crate::secret::{contains_run, redaction_text};

verus! {

/// Setting the master password to `password` leaves a store in which signing
/// in with `password` succeeds, and the session it gives derives the same
/// cipher key as the session that setting the password returned:
/// `set_session` is what `set_master_password` returned, `login_result` any
/// outcome that `login` may return on the store afterwards.
pub proof fn law_login_after_set(
    db: DatabaseService,
    password: Seq<char>,
    set_session: AuthState,
    set_at: u64,
    login_result: Result<AuthState, LoginError>,
    login_at: u64,
)
    requires
        login_succeeds(db, password),
        session_for(set_session, db, password, set_at),
        session_key_ok(set_session),
        login_result is Ok <==> login_succeeds(db, password),
        login_result is Ok ==> session_for(login_result->Ok_0, db, password, login_at),
    ensures
        login_result is Ok,
        login_result->Ok_0.signed_in,
        session_key_ok(login_result->Ok_0),
        session_key(login_result->Ok_0) == session_key(set_session),
{
}

/// After a rotation from the session key `old_key` to the password
/// `password`, a later sign-in with `password` reads every entry as the
/// plaintext that it held before the rotation.
pub proof fn law_rotation_keeps_plaintexts(
    old_db: DatabaseService,
    old_key: Seq<u8>,
    new_db: DatabaseService,
    rotated: AuthState,
    password: Seq<char>,
    rotated_at: u64,
    later: AuthState,
    later_at: u64,
)
    requires
        session_for(rotated, new_db, password, rotated_at),
        rows_resealed(old_db, old_key, new_db, session_key(rotated)),
        session_for(later, new_db, password, later_at),
    ensures
        new_db.entries@.len() == old_db.entries@.len(),
        forall|i: int, p: Seq<char>|
            0 <= i < old_db.entries@.len() && is_token_for(old_key, old_db.entries@[i].password_hash@, p)
                ==> #[trigger] is_token_for(session_key(later), new_db.entries@[i].password_hash@, p),
{
    assert(session_key(later) == session_key(rotated));
    assert forall|i: int, p: Seq<char>|
        0 <= i < old_db.entries@.len() && is_token_for(old_key, old_db.entries@[i].password_hash@, p)
            implies #[trigger] is_token_for(session_key(later), new_db.entries@[i].password_hash@, p) by {
        let after = new_db.entries@[i];
        assert(is_token_for(session_key(rotated), after.password_hash@, p));
    }
}

/// The empty query occurs in every text.
pub proof fn law_empty_query_matches(text: Seq<char>)
    ensures
        contains_run(text, Seq::<char>::empty()),
{
    let e = Seq::<char>::empty();
    assert(text.subrange(0, 0 + e.len() as int) =~= e);
}

/// A search for the empty query lists every row, in row-id order; a search
/// lists exactly the rows whose site or username contains the query, and
/// keeps them in row-id order.
pub proof fn law_search_lists_rows(rows: Seq<PasswordEntrySafe>, next_id: i32, query: Seq<char>)
    requires
        rows_ordered(rows, next_id),
    ensures
        matching_rows(rows, Seq::<char>::empty()) == rows,
        rows_ordered(matching_rows(rows, query), next_id),
        forall|k: int|
            0 <= k < matching_rows(rows, query).len() ==> row_matches(
                #[trigger] matching_rows(rows, query)[k],
                query,
            ),
        forall|k: int|
            0 <= k < rows.len() && row_matches(rows[k], query) ==> matching_rows(
                rows,
                query,
            ).contains(#[trigger] rows[k]),
{
    lemma_all_match_empty(rows);
    crate::database::lemma_search_ordered(rows, next_id, query);
    let pred = |e: PasswordEntrySafe| row_matches(e, query);
    assert forall|k: int|
        0 <= k < matching_rows(rows, query).len() implies row_matches(
            #[trigger] matching_rows(rows, query)[k],
            query,
        ) by {
        rows.lemma_filter_pred(pred, k);
    }
    assert forall|k: int|
        0 <= k < rows.len() && row_matches(rows[k], query) implies matching_rows(
            rows,
            query,
        ).contains(#[trigger] rows[k]) by {
        rows.lemma_filter_contains(pred, k);
    }
}

proof fn lemma_all_match_empty(rows: Seq<PasswordEntrySafe>)
    ensures
        matching_rows(rows, Seq::<char>::empty()) == rows,
    decreases rows.len(),
{
    reveal(Seq::filter);
    if rows.len() > 0 {
        lemma_all_match_empty(rows.drop_last());
        law_empty_query_matches(rows.last().site@);
        assert(rows.drop_last().push(rows.last()) =~= rows);
    }
}

/// The description of a secret buffer does not contain the secret, for every
/// secret that is longer than the redaction marker or holds a character that
/// the marker lacks.
pub proof fn law_redaction_hides(secret: Seq<char>, description: Seq<char>)
    requires
        description == redaction_text(),
        secret.len() > redaction_text().len() || exists|k: int|
            0 <= k < secret.len() && !redaction_text().contains(#[trigger] secret[k]),
    ensures
        !contains_run(description, secret),
{
    if contains_run(description, secret) {
        let i = choose|i: int|
            0 <= i && i + secret.len() <= description.len() && #[trigger] description.subrange(
                i,
                i + secret.len(),
            ) == secret;
        if secret.len() <= redaction_text().len() {
            let k = choose|k: int| 0 <= k < secret.len() && !redaction_text().contains(#[trigger] secret[k]);
            assert(description.subrange(i, i + secret.len())[k] == description[i + k]);
            assert(redaction_text().contains(description[i + k]));
        }
    }
}

/// After a rotation, listing every row under a session signed in with the
/// new password gives back, row by row, the ids, sites, usernames and
/// plaintexts that listing every row gave under the old session.
pub proof fn law_rotation_lists_same(
    old_db: DatabaseService,
    old_key: Seq<u8>,
    before: Seq<PasswordEntryRaw>,
    new_db: DatabaseService,
    new_key: Seq<u8>,
    after: Seq<PasswordEntryRaw>,
)
    requires
        rows_resealed(old_db, old_key, new_db, new_key),
        before.len() == old_db.entries@.len(),
        after.len() == new_db.entries@.len(),
        forall|i: int| 0 <= i < before.len() ==> opened_entry(old_key, old_db.entries@[i], #[trigger] before[i]),
        forall|i: int| 0 <= i < after.len() ==> opened_entry(new_key, new_db.entries@[i], #[trigger] after[i]),
    ensures
        after.len() == before.len(),
        forall|i: int|
            0 <= i < after.len() ==> {
                &&& (#[trigger] after[i]).id == before[i].id
                &&& after[i].site@ == before[i].site@
                &&& after[i].username@ == before[i].username@
                &&& after[i].raw_password@ == before[i].raw_password@
            },
{
    assert forall|i: int| 0 <= i < after.len() implies {
        &&& (#[trigger] after[i]).id == before[i].id
        &&& after[i].site@ == before[i].site@
        &&& after[i].username@ == before[i].username@
        &&& after[i].raw_password@ == before[i].raw_password@
    } by {
        let p = before[i].raw_password@;
        assert(opened_entry(old_key, old_db.entries@[i], before[i]));
        assert(is_token_for(old_key, old_db.entries@[i].password_hash@, p));
        assert(is_token_for(new_key, new_db.entries@[i].password_hash@, p));
        assert(opened_entry(new_key, new_db.entries@[i], after[i]));
    }
}

} // verus!
