use base64::prelude::BASE64_STANDARD;
use base64::Engine;
use password_vault::authentication::{
    is_master_password_set, login, logout, set_master_password, LoginError, SALT_LEN,
};
use password_vault::database::{
    create_password_entry, delete_password, get_all_password_entries, get_password_entry_by_id,
    save_updated_password, DatabaseService, MasterRecord,
};
use password_vault::error::VaultError;
use password_vault::models::{AuthState, PasswordEntryRaw, PasswordEntrySafe};
use password_vault::secret::SecretBuffer;

fn secret(s: &str) -> SecretBuffer {
    SecretBuffer::new(s.to_string())
}

fn raw(site: &str, username: &str, password: &str) -> PasswordEntryRaw {
    PasswordEntryRaw {
        id: 0,
        site: site.to_string(),
        username: username.to_string(),
        raw_password: secret(password),
    }
}

fn first_run() -> DatabaseService {
    let mut db = DatabaseService::new();
    assert!(!is_master_password_set(&db));
    set_master_password(secret("hunter2"), &AuthState::signed_out(), &mut db, 0).unwrap();
    db
}

fn sign_in(db: &DatabaseService, password: &str, now: u64) -> AuthState {
    login(secret(password), AuthState::signed_out(), db, now).unwrap()
}

fn tokens(db: &DatabaseService) -> Vec<String> {
    db.entries.iter().map(|e| e.password_hash.clone()).collect()
}

#[test]
fn first_run_setup() {
    let db = first_run();
    assert!(is_master_password_set(&db));
    assert!(!db.master.password_hash.is_empty());
    assert!(db.master.password_hash.starts_with("$argon2id$v=19$"));
    assert_eq!(db.master.key_salt.len(), SALT_LEN);
    assert!(db.entries.is_empty());
}

#[test]
fn set_master_returns_signed_in_session() {
    let mut db = DatabaseService::new();
    let s = set_master_password(secret("hunter2"), &AuthState::signed_out(), &mut db, 42).unwrap();
    assert!(s.signed_in);
    assert_eq!(s.raw_master_password.as_str(), "hunter2");
    assert_eq!(s.salt.as_str(), db.master.key_salt);
    assert_eq!(s.last_activity, 42);
}

#[test]
fn login_create_list() {
    let mut db = first_run();
    let s = sign_in(&db, "hunter2", 5);
    assert!(s.signed_in);
    assert_eq!(s.salt.as_str(), db.master.key_salt);
    assert_eq!(s.last_activity, 5);
    create_password_entry(raw("example.com", "alice", "p@ss"), &s, &mut db).unwrap();
    let listed = get_all_password_entries(&s, &db, "").unwrap();
    assert_eq!(listed.len(), 1);
    assert_eq!(listed[0].site, "example.com");
    assert_eq!(listed[0].username, "alice");
    assert_eq!(listed[0].raw_password.as_str(), "p@ss");
    assert_eq!(listed[0].id, 1);
    let stored = &db.entries[0].password_hash;
    assert_ne!(stored, "p@ss");
    assert!(BASE64_STANDARD.decode(stored).unwrap().len() >= 29);
}

#[test]
fn wrong_password_is_incorrect() {
    let db = first_run();
    let before_hash = db.master.password_hash.clone();
    let before_salt = db.master.key_salt.clone();
    let r = login(secret("Hunter2"), AuthState::signed_out(), &db, 1);
    assert!(matches!(r, Err(LoginError::IncorrectPassword)));
    assert_eq!(db.master.password_hash, before_hash);
    assert_eq!(db.master.key_salt, before_salt);
}

#[test]
fn login_without_master_is_a_hashing_error() {
    let db = DatabaseService::new();
    let r = login(secret("hunter2"), AuthState::signed_out(), &db, 1);
    assert!(matches!(r, Err(LoginError::HashingError(_))));
}

#[test]
fn rotation_reencrypts_entries() {
    let mut db = first_run();
    let s = sign_in(&db, "hunter2", 0);
    create_password_entry(raw("example.com", "alice", "p@ss"), &s, &mut db).unwrap();
    let before = tokens(&db);
    let old_salt = db.master.key_salt.clone();
    let rotated =
        set_master_password(secret("correct horse battery staple"), &s, &mut db, 9).unwrap();
    assert!(rotated.signed_in);
    assert_ne!(db.master.key_salt, old_salt);
    assert!(matches!(
        login(secret("hunter2"), AuthState::signed_out(), &db, 10),
        Err(LoginError::IncorrectPassword)
    ));
    let s2 = sign_in(&db, "correct horse battery staple", 11);
    let listed = get_all_password_entries(&s2, &db, "").unwrap();
    assert_eq!(listed.len(), 1);
    assert_eq!(listed[0].raw_password.as_str(), "p@ss");
    assert_ne!(tokens(&db), before);
    let stale = get_all_password_entries(&s, &db, "");
    assert!(matches!(stale, Err(VaultError::AuthFailed)));
}

#[test]
fn failed_rotation_changes_nothing() {
    let mut db = first_run();
    let s = sign_in(&db, "hunter2", 0);
    create_password_entry(raw("a.com", "alice", "one"), &s, &mut db).unwrap();
    create_password_entry(raw("b.com", "bob", "two"), &s, &mut db).unwrap();
    db.entries[1].password_hash = BASE64_STANDARD.encode([9u8; 40]);
    let hash = db.master.password_hash.clone();
    let salt = db.master.key_salt.clone();
    let before = tokens(&db);
    let r = set_master_password(secret("new password"), &s, &mut db, 1);
    assert!(matches!(r, Err(VaultError::AuthFailed)));
    assert_eq!(db.master.password_hash, hash);
    assert_eq!(db.master.key_salt, salt);
    assert_eq!(tokens(&db), before);
    assert_eq!(db.next_id, 3);
}

#[test]
fn rotation_needs_a_session() {
    let mut db = first_run();
    let r = set_master_password(secret("x"), &logout(), &mut db, 1);
    assert!(matches!(r, Err(VaultError::Unauthenticated)));
}

#[test]
fn logged_out_session_is_refused() {
    let mut db = first_run();
    let s = sign_in(&db, "hunter2", 0);
    create_password_entry(raw("example.com", "alice", "p@ss"), &s, &mut db).unwrap();
    let out = logout();
    assert!(!out.signed_in);
    assert!(out.raw_master_password.as_str().is_empty());
    assert!(matches!(get_all_password_entries(&out, &db, ""), Err(VaultError::Unauthenticated)));
    assert!(matches!(get_password_entry_by_id(1, &out, &db), Err(VaultError::Unauthenticated)));
    assert!(matches!(
        create_password_entry(raw("x", "y", "z"), &out, &mut db),
        Err(VaultError::Unauthenticated)
    ));
    assert!(matches!(
        save_updated_password(1, raw("x", "y", "z"), &out, &mut db),
        Err(VaultError::Unauthenticated)
    ));
    assert_eq!(db.entries.len(), 1);
    assert_eq!(db.entries[0].site, "example.com");
}

#[test]
fn search_filters_by_site_or_username() {
    let mut db = first_run();
    let s = sign_in(&db, "hunter2", 0);
    create_password_entry(raw("example.com", "alice", "1"), &s, &mut db).unwrap();
    create_password_entry(raw("github.com", "bob", "2"), &s, &mut db).unwrap();
    create_password_entry(raw("mail.org", "gitte", "3"), &s, &mut db).unwrap();
    let all = get_all_password_entries(&s, &db, "").unwrap();
    let ids: Vec<i32> = all.iter().map(|e| e.id).collect();
    assert_eq!(ids, vec![1, 2, 3]);
    let git = get_all_password_entries(&s, &db, "git").unwrap();
    let sites: Vec<&str> = git.iter().map(|e| e.site.as_str()).collect();
    assert_eq!(sites, vec!["github.com", "mail.org"]);
    assert_eq!(git[1].raw_password.as_str(), "3");
    assert!(get_all_password_entries(&s, &db, "Git").unwrap().is_empty());
    let alice = get_all_password_entries(&s, &db, "alice").unwrap();
    assert_eq!(alice.len(), 1);
    assert_eq!(alice[0].id, 1);
}

#[test]
fn one_bad_row_fails_the_listing() {
    let mut db = first_run();
    let s = sign_in(&db, "hunter2", 0);
    create_password_entry(raw("a.com", "alice", "1"), &s, &mut db).unwrap();
    create_password_entry(raw("b.com", "bob", "2"), &s, &mut db).unwrap();
    db.entries[0].password_hash = "%%%".to_string();
    assert!(matches!(get_all_password_entries(&s, &db, ""), Err(VaultError::AuthFailed)));
    assert_eq!(get_all_password_entries(&s, &db, "b.com").unwrap().len(), 1);
}

#[test]
fn get_update_delete() {
    let mut db = first_run();
    let s = sign_in(&db, "hunter2", 0);
    create_password_entry(raw("a.com", "alice", "1"), &s, &mut db).unwrap();
    create_password_entry(raw("b.com", "bob", "2"), &s, &mut db).unwrap();
    let got = get_password_entry_by_id(2, &s, &db).unwrap();
    assert_eq!(got.site, "b.com");
    assert_eq!(got.raw_password.as_str(), "2");
    assert!(matches!(get_password_entry_by_id(7, &s, &db), Err(VaultError::NotFound)));

    let old_token = db.entries[1].password_hash.clone();
    save_updated_password(2, raw("b.org", "bobby", "2"), &s, &mut db).unwrap();
    assert_ne!(db.entries[1].password_hash, old_token);
    let got = get_password_entry_by_id(2, &s, &db).unwrap();
    assert_eq!(got.site, "b.org");
    assert_eq!(got.username, "bobby");
    assert_eq!(got.raw_password.as_str(), "2");
    save_updated_password(9, raw("z", "z", "z"), &s, &mut db).unwrap();
    assert_eq!(db.entries.len(), 2);

    delete_password(1, &mut db);
    let ids: Vec<i32> = db.entries.iter().map(|e| e.id).collect();
    assert_eq!(ids, vec![2]);
    delete_password(1, &mut db);
    assert_eq!(db.entries.len(), 1);
    create_password_entry(raw("c.com", "carol", "3"), &s, &mut db).unwrap();
    let ids: Vec<i32> = db.entries.iter().map(|e| e.id).collect();
    assert_eq!(ids, vec![2, 3]);
}

#[test]
fn entry_round_trip_through_session() {
    let db = first_run();
    let s = sign_in(&db, "hunter2", 0);
    let entry = raw("example.com", "alice", "p@ss");
    let safe = entry.to_safe(&s).unwrap();
    assert_eq!(safe.site, "example.com");
    assert_ne!(safe.password_hash, "p@ss");
    let back = safe.to_raw(&s).unwrap();
    assert_eq!(back.raw_password.as_str(), "p@ss");
    assert!(matches!(entry.to_safe(&logout()), Err(VaultError::KdfError)));
}

#[test]
fn store_rows_are_checked_on_load() {
    let master = || MasterRecord { password_hash: String::new(), key_salt: String::new() };
    let row = |id: i32| PasswordEntrySafe {
        id,
        site: "s".to_string(),
        username: "u".to_string(),
        password_hash: "t".to_string(),
    };
    assert!(DatabaseService::from_rows(master(), vec![row(1), row(3)], 4).is_some());
    assert!(DatabaseService::from_rows(master(), vec![row(3), row(1)], 4).is_none());
    assert!(DatabaseService::from_rows(master(), vec![row(1), row(4)], 4).is_none());
    let half = MasterRecord { password_hash: "$x".to_string(), key_salt: String::new() };
    assert!(DatabaseService::from_rows(half, vec![], 1).is_none());
}
