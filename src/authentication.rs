//! Master-password authentication: setting and rotating the master password
//! (with the re-encryption of every entry), signing in and signing out.

use argon2::password_hash::rand_core::OsRng;
use argon2::password_hash::SaltString;
use argon2::{Argon2, PasswordHash, PasswordHasher, PasswordVerifier};
use vstd::prelude::*;
use vstd::utf8::encode_utf8;

use crate::cipher::{is_token_for, kdf_accepts_text, wipe_key, MAX_KDF_INPUT_LEN};
use crate::database::{rows_ordered, DatabaseService, MasterRecord};
use crate::error::VaultError;
use crate::models::{
    entry_genuine, opened_entry, sealable, sealed_entry, session_key, session_key_ok, AuthState,
    PasswordEntryRaw,
    PasswordEntrySafe,
};
use crate::secret::SecretBuffer;

verus! {

/// Length of a salt that the password-hashing library generates, in Base64
/// characters (16 random bytes).
pub const SALT_LEN: usize = 22;

/// `PasswordHash::new` accepts the text as a PHC string.
pub uninterp spec fn phc_parses(hash: Seq<char>) -> bool;

/// Argon2's `verify_password` accepts the password against the parsed PHC string.
pub uninterp spec fn phc_accepts(password: Seq<char>, hash: Seq<char>) -> bool;

/// Relies on `PasswordHash::new` and `PasswordVerifier::verify_password` of
/// `Argon2::default()`: a parse error is reported with its message, and
/// otherwise whether the password matches.
#[verifier::external_body]
fn verify_phc(password: &str, hash: &str) -> (r: Result<bool, String>)
    ensures
        r is Err <==> !phc_parses(hash@),
        r is Ok ==> r->Ok_0 == phc_accepts(password@, hash@),
{
    let parsed = PasswordHash::new(hash).map_err(|e| e.to_string())?;
    Ok(Argon2::default().verify_password(password.as_bytes(), &parsed).is_ok())
}

/// Relies on `PasswordHasher::hash_password` of `Argon2::default()` (with the
/// salt read by `SaltString::from_b64`): the PHC string it returns parses and
/// verifies the same password, and starts with `$`. A generated salt passes
/// `Salt::from_b64` and decodes canonically to 16 bytes, so the call fails
/// exactly when Argon2 refuses the password's length.
#[verifier::external_body]
fn hash_phc(password: &str, salt: &str) -> (r: Result<String, String>)
    ensures
        r is Ok ==> phc_parses(r->Ok_0@) && phc_accepts(password@, r->Ok_0@),
        r is Ok ==> r->Ok_0@.len() > 0,
        generated_salt(salt@) && encode_utf8(password@).len() <= MAX_KDF_INPUT_LEN ==> r is Ok,
        encode_utf8(password@).len() > MAX_KDF_INPUT_LEN ==> r is Err,
{
    let salt = SaltString::from_b64(salt).map_err(|e| e.to_string())?;
    let hash = Argon2::default().hash_password(password.as_bytes(), &salt);
    hash.map(|h| h.to_string()).map_err(|e| e.to_string())
}

/// A character of the standard Base64 alphabet.
pub open spec fn b64_char(c: char) -> bool {
    ('A' <= c <= 'Z') || ('a' <= c <= 'z') || ('0' <= c <= '9') || c == '+' || c == '/'
}

/// A salt as the generator makes it: 16 bytes in unpadded standard Base64,
/// 22 characters of which the last carries two bits and four zero bits.
pub open spec fn generated_salt(s: Seq<char>) -> bool {
    &&& s.len() == SALT_LEN
    &&& forall|i: int| 0 <= i < s.len() ==> b64_char(#[trigger] s[i])
    &&& (s[21] == 'A' || s[21] == 'Q' || s[21] == 'g' || s[21] == 'w')
}

/// Relies on `SaltString::generate` with the operating system's RNG: 16
/// random bytes encoded by `Encoding::B64` (standard alphabet, no padding).
#[verifier::external_body]
fn fresh_salt() -> (r: String)
    ensures
        generated_salt(r@),
{
    SaltString::generate(&mut OsRng).as_str().to_string()
}

/// Why a sign-in was refused.
#[derive(Debug)]
pub enum LoginError {
    IncorrectPassword,
    HashingError(String),
}

/// A master password is set: the verifier hash is not empty.
pub open spec fn master_set(db: DatabaseService) -> bool {
    db.master.password_hash@.len() > 0
}

/// Signing in with `password` succeeds against the stored verifier.
pub open spec fn login_succeeds(db: DatabaseService, password: Seq<char>) -> bool {
    phc_parses(db.master.password_hash@) && phc_accepts(password, db.master.password_hash@)
}

/// `s` is the session that signing in to `db` with `password` at `now` gives.
pub open spec fn session_for(s: AuthState, db: DatabaseService, password: Seq<char>, now: u64) -> bool {
    &&& s.signed_in
    &&& s.raw_master_password@ == password
    &&& s.salt@ == db.master.key_salt@
    &&& s.last_activity == now
}

/// `new_db` holds the rows of `old_db` re-sealed from the key `old_key` to
/// `new_key`: the same ids, sites and usernames, and every plaintext that
/// an old token sealed is what the new token seals.
pub open spec fn rows_resealed(
    old_db: DatabaseService,
    old_key: Seq<u8>,
    new_db: DatabaseService,
    new_key: Seq<u8>,
) -> bool {
    &&& new_db.entries@.len() == old_db.entries@.len()
    &&& new_db.next_id == old_db.next_id
    &&& forall|i: int|
        0 <= i < old_db.entries@.len() ==> {
            let before = old_db.entries@[i];
            let after = #[trigger] new_db.entries@[i];
            &&& after.id == before.id
            &&& after.site@ == before.site@
            &&& after.username@ == before.username@
            &&& entry_genuine(new_key, after)
            &&& forall|p: Seq<char>|
                is_token_for(old_key, before.password_hash@, p) ==> #[trigger] is_token_for(
                    new_key,
                    after.password_hash@,
                    p,
                )
        }
}

pub fn is_master_password_set(db_service: &DatabaseService) -> (r: bool)
    ensures
        r == master_set(*db_service),
{
    !db_service.master.password_hash.as_str().is_empty()
}

/// Signs in with `raw_pw` at time `now`. The store is only read.
pub fn login(raw_pw: SecretBuffer, state: AuthState, db_service: &DatabaseService, now: u64) -> (r:
    Result<AuthState, LoginError>)
    ensures
        (r is Err && r->Err_0 is HashingError) <==> !phc_parses(db_service.master.password_hash@),
        (r is Err && r->Err_0 is IncorrectPassword) <==> phc_parses(db_service.master.password_hash@)
            && !phc_accepts(raw_pw@, db_service.master.password_hash@),
        r is Ok <==> login_succeeds(*db_service, raw_pw@),
        r is Ok ==> session_for(r->Ok_0, *db_service, raw_pw@, now),
{
    let mut state = state;
    match verify_phc(raw_pw.as_str(), db_service.master.password_hash.as_str()) {
        Err(message) => Err(LoginError::HashingError(message)),
        Ok(false) => Err(LoginError::IncorrectPassword),
        Ok(true) => {
            state.signed_in = true;
            state.raw_master_password = raw_pw;
            state.salt = SecretBuffer::new(db_service.master.key_salt.clone());
            state.last_activity = now;
            Ok(state)
        },
    }
}

/// The signed-out session.
pub fn logout() -> (r: AuthState)
    ensures
        !r.signed_in,
        r.raw_master_password@.len() == 0,
        r.salt@.len() == 0,
        r.wf(),
{
    AuthState::signed_out()
}

/// Opens every row under `key`.
fn open_all(rows: &Vec<PasswordEntrySafe>, key: &Vec<u8>) -> (r: Result<Vec<PasswordEntryRaw>, VaultError>)
    requires
        key@.len() == crate::cipher::KEY_LEN,
    ensures
        r is Ok ==> r->Ok_0@.len() == rows@.len() && forall|i: int|
            0 <= i < rows@.len() ==> opened_entry(key@, rows@[i], #[trigger] r->Ok_0@[i]),
        r is Ok <==> (forall|i: int| 0 <= i < rows@.len() ==> entry_genuine(key@, #[trigger] rows@[i])),
{
    let mut out: Vec<PasswordEntryRaw> = Vec::new();
    let mut i: usize = 0;
    while i < rows.len()
        invariant
            i <= rows@.len(),
            key@.len() == crate::cipher::KEY_LEN,
            out@.len() == i,
            forall|j: int| 0 <= j < i ==> opened_entry(key@, rows@[j], #[trigger] out@[j]),
        decreases rows@.len() - i,
    {
        let opened = match rows[i].open_with_key(key) {
            Ok(o) => o,
            Err(e) => {
                assert(!entry_genuine(key@, rows@[i as int]));
                return Err(e);
            },
        };
        out.push(opened);
        i = i + 1;
    }
    proof {
        assert forall|j: int| 0 <= j < rows@.len() implies entry_genuine(key@, #[trigger] rows@[j]) by {
            assert(opened_entry(key@, rows@[j], out@[j]));
            assert(is_token_for(key@, rows@[j].password_hash@, out@[j].raw_password@));
        }
    }
    Ok(out)
}

/// Seals every open entry under `key`.
fn seal_all(plain: &Vec<PasswordEntryRaw>, key: &Vec<u8>) -> (r: Result<Vec<PasswordEntrySafe>, VaultError>)
    requires
        key@.len() == crate::cipher::KEY_LEN,
    ensures
        r is Ok ==> r->Ok_0@.len() == plain@.len() && forall|i: int|
            0 <= i < plain@.len() ==> sealed_entry(key@, plain@[i], #[trigger] r->Ok_0@[i]),
        (forall|i: int| 0 <= i < plain@.len() ==> sealable(#[trigger] plain@[i])) ==> r is Ok,
        r is Err ==> r->Err_0 is PlaintextTooLong,
{
    let mut out: Vec<PasswordEntrySafe> = Vec::new();
    let mut i: usize = 0;
    while i < plain.len()
        invariant
            i <= plain@.len(),
            key@.len() == crate::cipher::KEY_LEN,
            out@.len() == i,
            forall|j: int| 0 <= j < i ==> sealed_entry(key@, plain@[j], #[trigger] out@[j]),
        decreases plain@.len() - i,
    {
        let sealed = plain[i].seal_with_key(key)?;
        out.push(sealed);
        i = i + 1;
    }
    Ok(out)
}

/// Re-keying may read the rows: there are none, or the session's key derives
/// and every row opens under it.
pub open spec fn old_rows_open(db: DatabaseService, s: AuthState) -> bool {
    db.entries@.len() == 0 || (session_key_ok(s) && forall|i: int|
        0 <= i < db.entries@.len() ==> entry_genuine(session_key(s), #[trigger] db.entries@[i]))
}

/// Sets the master password to `raw_pw`, or changes it, in one atomic step:
/// every entry is opened under the current session's key, a new verifier
/// hash and a new key salt are made, and every entry is sealed again under
/// the new key. On any failure the store is left as it was. Where a master
/// password is already set, the current session must be signed in.
pub fn set_master_password(
    raw_pw: SecretBuffer,
    auth_state: &AuthState,
    db_service: &mut DatabaseService,
    now: u64,
) -> (r: Result<AuthState, VaultError>)
    requires
        old(db_service).wf(),
    ensures
        final(db_service).wf(),
        r is Err ==> *final(db_service) == *old(db_service),
        (r is Err && r->Err_0 is Unauthenticated) <==> master_set(*old(db_service))
            && !auth_state.signed_in,
        (r is Err && r->Err_0 is KdfError) <==> !(master_set(*old(db_service))
            && !auth_state.signed_in) && old(db_service).entries@.len() > 0 && !session_key_ok(
            *auth_state,
        ),
        (r is Err && r->Err_0 is AuthFailed) <==> !(master_set(*old(db_service))
            && !auth_state.signed_in) && old(db_service).entries@.len() > 0 && session_key_ok(
            *auth_state,
        ) && !old_rows_open(*old(db_service), *auth_state),
        (r is Err && r->Err_0 is HashingError) <==> !(master_set(*old(db_service))
            && !auth_state.signed_in) && old_rows_open(*old(db_service), *auth_state)
            && encode_utf8(raw_pw@).len() > MAX_KDF_INPUT_LEN,
        r is Err ==> (r->Err_0 is Unauthenticated || r->Err_0 is KdfError || r->Err_0 is AuthFailed
            || r->Err_0 is HashingError),
        r is Ok <==> !(master_set(*old(db_service)) && !auth_state.signed_in) && old_rows_open(
            *old(db_service),
            *auth_state,
        ) && encode_utf8(raw_pw@).len() <= MAX_KDF_INPUT_LEN,
        r is Ok ==> session_key_ok(r->Ok_0),
        r is Ok ==> {
            &&& login_succeeds(*final(db_service), raw_pw@)
            &&& final(db_service).master.key_salt@.len() == SALT_LEN
            &&& session_for(r->Ok_0, *final(db_service), raw_pw@, now)
            &&& rows_resealed(
                *old(db_service),
                session_key(*auth_state),
                *final(db_service),
                session_key(r->Ok_0),
            )
        },
{
    if is_master_password_set(db_service) && !auth_state.signed_in {
        return Err(VaultError::Unauthenticated);
    }
    let ghost old_key = session_key(*auth_state);
    let plain = if db_service.entries.len() > 0 {
        let mut old_key_bytes = auth_state.get_key_material()?;
        let opened = open_all(&db_service.entries, &old_key_bytes);
        wipe_key(&mut old_key_bytes);
        match opened {
            Ok(p) => p,
            Err(_) => {
                return Err(VaultError::AuthFailed);
            },
        }
    } else {
        Vec::new()
    };
    let key_salt = fresh_salt();
    let verifier_salt = fresh_salt();
    let hash = match hash_phc(raw_pw.as_str(), verifier_salt.as_str()) {
        Ok(h) => h,
        Err(message) => {
            return Err(VaultError::HashingError(message));
        },
    };
    let new_state = AuthState {
        signed_in: true,
        raw_master_password: raw_pw,
        salt: SecretBuffer::new(key_salt.clone()),
        last_activity: now,
    };
    proof {
        assert(vstd::utf8::is_ascii_chars(key_salt@)) by {
            assert forall|i: int| 0 <= i < key_salt@.len() implies '\0' <= #[trigger] key_salt@[i]
                <= '\u{7f}' by {
                assert(b64_char(key_salt@[i]));
            }
        }
        vstd::utf8::is_ascii_chars_encode_utf8(key_salt@);
        assert(kdf_accepts_text(new_state.raw_master_password@, new_state.salt@));
        assert forall|i: int| 0 <= i < plain@.len() implies sealable(#[trigger] plain@[i]) by {
            assert(opened_entry(old_key, db_service.entries@[i], plain@[i]));
        }
    }
    let mut new_key = new_state.get_key_material()?;
    let ghost new_key_view = new_key@;
    let sealed = seal_all(&plain, &new_key);
    wipe_key(&mut new_key);
    let sealed = sealed?;
    proof {
        let rows = db_service.entries@;
        assert forall|i: int| 0 <= i < rows.len() implies {
            let after = #[trigger] sealed@[i];
            &&& after.id == rows[i].id
            &&& after.site@ == rows[i].site@
            &&& after.username@ == rows[i].username@
            &&& entry_genuine(new_key_view, after)
            &&& forall|p: Seq<char>|
                is_token_for(old_key, rows[i].password_hash@, p) ==> #[trigger] is_token_for(
                    new_key_view,
                    after.password_hash@,
                    p,
                )
        } by {
            assert(opened_entry(old_key, rows[i], plain@[i]));
            assert(sealed_entry(new_key_view, plain@[i], sealed@[i]));
        }
        assert(rows_ordered(sealed@, db_service.next_id)) by {
            assert forall|a: int, b: int| 0 <= a < b < sealed@.len() implies sealed@[a].id
                < sealed@[b].id by {
                assert(sealed@[a].id == rows[a].id);
                assert(sealed@[b].id == rows[b].id);
            }
        }
    }
    db_service.master = MasterRecord { password_hash: hash, key_salt };
    db_service.entries = sealed;
    Ok(new_state)
}

} // verus!
