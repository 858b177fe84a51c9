use password_vault::clipboard::{copy_message, plan_copy};
use password_vault::error::VaultError;
use password_vault::models::{AuthState, IDLE_THRESHOLD_MS, WATCHDOG_TICK_MS};
use password_vault::schema::pending_migrations;
use password_vault::secret::SecretBuffer;

fn signed_in_at(now: u64) -> AuthState {
    AuthState {
        signed_in: true,
        raw_master_password: SecretBuffer::new("hunter2".to_string()),
        salt: SecretBuffer::new("c2FsdHNhbHRzYWx0".to_string()),
        last_activity: now,
    }
}

#[test]
fn expiry_is_strictly_after_threshold() {
    let s = signed_in_at(1000);
    assert_eq!(IDLE_THRESHOLD_MS, 180_000);
    assert!(!s.is_expired(1000));
    assert!(!s.is_expired(1000 + IDLE_THRESHOLD_MS));
    assert!(s.is_expired(1000 + IDLE_THRESHOLD_MS + 1));
    assert!(!s.is_expired(500));
}

#[test]
fn activity_resets_the_timer() {
    let mut s = signed_in_at(0);
    s.reset_idle_timer(170_000);
    assert_eq!(s.last_activity, 170_000);
    assert!(!s.is_expired(200_000));
    assert!(s.signed_in);
}

#[test]
fn watchdog_logs_out_once() {
    let mut s = signed_in_at(0);
    let mut logouts = 0;
    let mut now: u64 = 0;
    while now <= 190_000 {
        if s.idle_check(now) {
            logouts += 1;
        }
        now += WATCHDOG_TICK_MS;
    }
    assert_eq!(logouts, 1);
    assert!(!s.signed_in);
    assert!(s.raw_master_password.as_str().is_empty());
    assert!(s.salt.as_str().is_empty());
    assert!(!s.idle_check(500_000));
    assert!(matches!(s.get_key_material(), Err(VaultError::KdfError)));
}

#[test]
fn watchdog_keeps_an_active_session() {
    let mut s = signed_in_at(0);
    assert!(!s.idle_check(180_000));
    assert!(s.signed_in);
    assert_eq!(s.raw_master_password.as_str(), "hunter2");
}

#[test]
fn key_material_depends_on_session() {
    let a = signed_in_at(0).get_key_material().unwrap();
    assert_eq!(a.len(), 32);
    let mut other = signed_in_at(0);
    other.raw_master_password = SecretBuffer::new("Hunter2".to_string());
    assert_ne!(other.get_key_material().unwrap(), a);
}

#[test]
fn secret_description_is_redacted() {
    let s = SecretBuffer::new("hunter2".to_string());
    let d = s.redacted();
    assert_eq!(d, "<redacted>");
    assert!(!d.contains("hunter2"));
    assert_eq!(s.as_str(), "hunter2");
    assert_eq!(s.len(), 7);
    assert_eq!(SecretBuffer::new("päss".to_string()).len(), 5);
    assert_eq!(s.duplicate().as_str(), "hunter2");
    assert!(SecretBuffer::empty().is_empty());
}

#[test]
fn clipboard_copy_plan() {
    assert_eq!(copy_message(5), "Copied to clipboard for 5 seconds...");
    assert_eq!(copy_message(0), "Copied to clipboard for 0 seconds...");
    assert_eq!(copy_message(120), "Copied to clipboard for 120 seconds...");
    let plan = plan_copy(SecretBuffer::new("secret".to_string()), 1);
    let mut fake_clipboard = String::new();
    fake_clipboard.push_str(plan.secret.as_str());
    assert_eq!(fake_clipboard, "secret");
    assert_eq!(plan.clear_after_secs, 1);
    fake_clipboard.clear();
    assert_eq!(fake_clipboard, "");
    assert_eq!(plan.message, "Copied to clipboard for 1 seconds...");
}

#[test]
fn migrations_run_once_in_order() {
    assert_eq!(pending_migrations(&vec![1, 2, 3], &vec![]), vec![1, 2, 3]);
    assert_eq!(pending_migrations(&vec![1, 2, 3], &vec![1]), vec![2, 3]);
    assert_eq!(pending_migrations(&vec![1, 2, 3], &vec![3, 1]), vec![2]);
    assert!(pending_migrations(&vec![1, 2], &vec![1, 2]).is_empty());
}

#[test]
fn error_messages() {
    assert_eq!(
        VaultError::Unauthenticated.message(),
        "You must be signed in to access these resources"
    );
    assert_eq!(VaultError::HashingError("bad".to_string()).message(), "bad");
}

#[test]
fn secret_comparison() {
    let a = SecretBuffer::new("hunter2".to_string());
    assert!(a.ct_eq(&SecretBuffer::new("hunter2".to_string())));
    assert!(!a.ct_eq(&SecretBuffer::new("Hunter2".to_string())));
    assert!(!a.ct_eq(&SecretBuffer::new("hunter".to_string())));
    assert!(!a.ct_eq(&SecretBuffer::new("hunter22".to_string())));
    assert!(SecretBuffer::empty().ct_eq(&SecretBuffer::new(String::new())));
}

#[test]
fn long_secret_never_appears_in_description() {
    let s = SecretBuffer::new("a-much-longer-secret".to_string());
    assert!(!s.redacted().contains(s.as_str()));
}
