//! Session state and the two forms of a credential entry: sealed, as stored,
//! and open, as shown.

use vstd::prelude::*;

use crate::cipher::{
    decrypt_token, derive_key, encrypt_token, wipe_key, is_token_for, kdf_accepts_text, token_readable,
    derived_key, KEY_LEN, MAX_PLAINTEXT_LEN,
};
use crate::error::VaultError;
use crate::secret::SecretBuffer;

verus! {

/// Inactivity, in milliseconds, after which a session expires (3 minutes).
pub const IDLE_THRESHOLD_MS: u64 = 180000;

/// Interval, in milliseconds, between two idle checks (10 seconds).
pub const WATCHDOG_TICK_MS: u64 = 10000;

/// The in-memory sign-in state. Times are milliseconds on a monotonic clock
/// that the caller reads.
pub struct AuthState {
    pub signed_in: bool,
    pub raw_master_password: SecretBuffer,
    pub salt: SecretBuffer,
    pub last_activity: u64,
}

/// The cipher key of a session.
pub open spec fn session_key(s: AuthState) -> Seq<u8> {
    derived_key(s.raw_master_password@, s.salt@)
}

/// A session's key can be derived.
pub open spec fn session_key_ok(s: AuthState) -> bool {
    kdf_accepts_text(s.raw_master_password@, s.salt@)
}

/// The session has been idle for longer than the threshold at time `now`.
pub open spec fn idle_expired(last_activity: u64, now: u64) -> bool {
    now as int - last_activity as int > IDLE_THRESHOLD_MS as int
}

impl AuthState {
    /// A signed-out state holds no secret.
    pub open spec fn wf(&self) -> bool {
        !self.signed_in ==> self.raw_master_password@.len() == 0 && self.salt@.len() == 0
    }

    /// The signed-out state.
    pub fn signed_out() -> (r: AuthState)
        ensures
            !r.signed_in,
            r.raw_master_password@.len() == 0,
            r.salt@.len() == 0,
            r.last_activity == 0,
            r.wf(),
    {
        AuthState {
            signed_in: false,
            raw_master_password: SecretBuffer::empty(),
            salt: SecretBuffer::empty(),
            last_activity: 0,
        }
    }

    /// Derives this session's cipher key from its master password and key salt.
    pub fn get_key_material(&self) -> (r: Result<Vec<u8>, VaultError>)
        ensures
            r is Ok <==> session_key_ok(*self),
            r is Ok ==> r->Ok_0@ == session_key(*self) && r->Ok_0@.len() == KEY_LEN,
            r is Err ==> r->Err_0 is KdfError,
    {
        derive_key(self.raw_master_password.as_str(), self.salt.as_str())
    }

    /// Records user activity at time `now`.
    pub fn reset_idle_timer(&mut self, now: u64)
        ensures
            final(self).last_activity == now,
            final(self).signed_in == old(self).signed_in,
            final(self).raw_master_password == old(self).raw_master_password,
            final(self).salt == old(self).salt,
    {
        self.last_activity = now;
    }

    /// The session has been idle strictly longer than the threshold at `now`.
    pub fn is_expired(&self, now: u64) -> (r: bool)
        ensures
            r == idle_expired(self.last_activity, now),
    {
        now > self.last_activity && now - self.last_activity > IDLE_THRESHOLD_MS
    }

    /// One step of the idle watchdog: a signed-in session that has expired at
    /// `now` is replaced by the signed-out state. Returns whether it was.
    pub fn idle_check(&mut self, now: u64) -> (r: bool)
        ensures
            r == (old(self).signed_in && idle_expired(old(self).last_activity, now)),
            r ==> !final(self).signed_in && final(self).raw_master_password@.len() == 0
                && final(self).salt@.len() == 0,
            !r ==> *final(self) == *old(self),
            old(self).wf() ==> final(self).wf(),
    {
        if self.signed_in && self.is_expired(now) {
            *self = AuthState::signed_out();
            true
        } else {
            false
        }
    }
}

/// A credential entry as stored: its password is a sealed token.
pub struct PasswordEntrySafe {
    pub id: i32,
    pub site: String,
    pub username: String,
    pub password_hash: String,
}

/// A credential entry in the clear.
pub struct PasswordEntryRaw {
    pub id: i32,
    pub site: String,
    pub username: String,
    pub raw_password: SecretBuffer,
}

/// `e` carries the id, site and username of `s`.
pub open spec fn same_header(e: PasswordEntryRaw, s: PasswordEntrySafe) -> bool {
    e.id == s.id && e.site@ == s.site@ && e.username@ == s.username@
}

/// `r` is the entry `s` opened under `key`: the same header, and the password
/// that the token seals.
pub open spec fn opened_entry(key: Seq<u8>, s: PasswordEntrySafe, r: PasswordEntryRaw) -> bool {
    &&& same_header(r, s)
    &&& is_token_for(key, s.password_hash@, r.raw_password@)
    &&& forall|p: Seq<char>| #[trigger]
        is_token_for(key, s.password_hash@, p) ==> r.raw_password@ == p
}

/// `s` is the entry `r` sealed under `key`.
pub open spec fn sealed_entry(key: Seq<u8>, r: PasswordEntryRaw, s: PasswordEntrySafe) -> bool {
    same_header(r, s) && is_token_for(key, s.password_hash@, r.raw_password@)
}

/// Some plaintext is sealed in the entry's token under `key`.
pub open spec fn entry_genuine(key: Seq<u8>, s: PasswordEntrySafe) -> bool {
    token_readable(key, s.password_hash@)
}

/// The plaintext fits in one AES-GCM message.
pub open spec fn sealable(r: PasswordEntryRaw) -> bool {
    vstd::utf8::encode_utf8(r.raw_password@).len() <= MAX_PLAINTEXT_LEN
}

impl PasswordEntrySafe {
    /// Opens the entry with a key already derived.
    pub fn open_with_key(&self, key: &Vec<u8>) -> (r: Result<PasswordEntryRaw, VaultError>)
        requires
            key@.len() == KEY_LEN,
        ensures
            r is Ok ==> opened_entry(key@, *self, r->Ok_0),
            r is Ok <==> entry_genuine(key@, *self),
            r is Err ==> (r->Err_0 is MalformedToken || r->Err_0 is AuthFailed
                || r->Err_0 is MalformedPlaintext),
    {
        let password = decrypt_token(self.password_hash.as_str(), key)?;
        Ok(
            PasswordEntryRaw {
                id: self.id,
                site: self.site.clone(),
                username: self.username.clone(),
                raw_password: password,
            },
        )
    }

    /// Opens the entry under the session's key.
    pub fn to_raw(&self, auth_state: &AuthState) -> (r: Result<PasswordEntryRaw, VaultError>)
        ensures
            r is Ok ==> session_key_ok(*auth_state) && opened_entry(
                session_key(*auth_state),
                *self,
                r->Ok_0,
            ),
            !session_key_ok(*auth_state) ==> r is Err && r->Err_0 is KdfError,
            r is Ok <==> session_key_ok(*auth_state) && entry_genuine(session_key(*auth_state), *self),
    {
        let mut key = auth_state.get_key_material()?;
        let r = self.open_with_key(&key);
        wipe_key(&mut key);
        r
    }
}

impl PasswordEntryRaw {
    /// Seals the entry with a key already derived, under a fresh nonce.
    pub fn seal_with_key(&self, key: &Vec<u8>) -> (r: Result<PasswordEntrySafe, VaultError>)
        requires
            key@.len() == KEY_LEN,
        ensures
            r is Ok <==> sealable(*self),
            r is Ok ==> sealed_entry(key@, *self, r->Ok_0),
            r is Err ==> r->Err_0 is PlaintextTooLong,
    {
        let token = encrypt_token(self.raw_password.as_str(), key)?;
        Ok(
            PasswordEntrySafe {
                id: self.id,
                site: self.site.clone(),
                username: self.username.clone(),
                password_hash: token,
            },
        )
    }

    /// Seals the entry under the session's key.
    pub fn to_safe(&self, auth_state: &AuthState) -> (r: Result<PasswordEntrySafe, VaultError>)
        ensures
            r is Ok <==> session_key_ok(*auth_state) && sealable(*self),
            r is Ok ==> sealed_entry(session_key(*auth_state), *self, r->Ok_0),
            !session_key_ok(*auth_state) ==> r is Err && r->Err_0 is KdfError,
            session_key_ok(*auth_state) && r is Err ==> r->Err_0 is PlaintextTooLong,
    {
        let mut key = auth_state.get_key_material()?;
        let r = self.seal_with_key(&key);
        wipe_key(&mut key);
        r
    }
}

} // verus!
