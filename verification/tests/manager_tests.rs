use enamel_core::manager::{Manager, Mode, OpenError};
use enamel_core::store::StoreStatus;

fn good() -> StoreStatus {
    StoreStatus { present: true, accessible: true, write_locked: false, intact: true }
}

#[test]
fn first_get_opens_once_and_later_gets_share_it() {
    let mut m = Manager::new("/mail/store".to_string());
    assert_eq!(m.open_count(), 0);
    assert!(!m.has_handle());

    let h1 = m.get(&good(), Mode::ReadOnly).unwrap();
    assert_eq!(m.open_count(), 1);
    assert!(m.has_handle());

    // Later callers, whatever mode they ask for, get the same connection
    // and no new open happens.
    let h2 = m.get(&good(), Mode::ReadOnly).unwrap();
    let h3 = m.get(&good(), Mode::ReadWrite).unwrap();
    assert_eq!(m.open_count(), 1);
    assert_eq!(h1, h2);
    assert_eq!(h1, h3);
}

#[test]
fn cached_readonly_handle_refuses_writes() {
    let mut m = Manager::new("/mail/store".to_string());
    let h = m.get(&good(), Mode::ReadOnly).unwrap();
    // A caller that wanted read-write after the read-only open receives
    // the cached read-only handle; its write attempts are refused.
    let h2 = m.get(&good(), Mode::ReadWrite).unwrap();
    assert_eq!(h, h2);
    assert!(h2.check_write().is_err());

    let mut m2 = Manager::new("/mail/store".to_string());
    let hw = m2.get(&good(), Mode::ReadWrite).unwrap();
    assert!(hw.check_write().is_ok());
}

#[test]
fn reset_then_get_opens_a_fresh_connection() {
    let mut m = Manager::new("/mail/store".to_string());
    let h1 = m.get(&good(), Mode::ReadOnly).unwrap();
    m.reset();
    assert!(!m.has_handle());
    let h2 = m.get(&good(), Mode::ReadWrite).unwrap();
    assert_eq!(m.open_count(), 2);
    assert_ne!(h1, h2);
    assert!(h2.check_write().is_ok());
}

#[test]
fn reset_is_idempotent() {
    let mut m = Manager::new("/mail/store".to_string());
    m.reset();
    m.reset();
    assert_eq!(m.open_count(), 0);
    let _ = m.get(&good(), Mode::ReadOnly).unwrap();
    m.reset();
    m.reset();
    assert_eq!(m.open_count(), 1);
    assert!(!m.has_handle());
}

#[test]
fn missing_store_reports_not_found_and_caches_nothing() {
    let mut m = Manager::new("/mail/store".to_string());
    let missing =
        StoreStatus { present: false, accessible: true, write_locked: false, intact: true };
    assert_eq!(m.get(&missing, Mode::ReadOnly), Err(OpenError::NotFound));
    assert!(!m.has_handle());
    assert_eq!(m.open_count(), 0);

    // Once the store exists at the path, the same manager succeeds.
    let h = m.get(&good(), Mode::ReadOnly).unwrap();
    assert_eq!(m.open_count(), 1);
    assert!(h.check_write().is_err());
}

#[test]
fn other_open_errors_are_reported_and_state_is_unchanged() {
    let mut m = Manager::new("/mail/store".to_string());
    let unreadable =
        StoreStatus { present: true, accessible: false, write_locked: false, intact: true };
    assert_eq!(m.get(&unreadable, Mode::ReadOnly), Err(OpenError::PermissionDenied));

    let corrupt =
        StoreStatus { present: true, accessible: true, write_locked: false, intact: false };
    assert_eq!(m.get(&corrupt, Mode::ReadOnly), Err(OpenError::Corrupt));

    let locked =
        StoreStatus { present: true, accessible: true, write_locked: true, intact: true };
    assert_eq!(m.get(&locked, Mode::ReadWrite), Err(OpenError::Locked));
    assert!(!m.has_handle());
    assert_eq!(m.open_count(), 0);

    // The write lock does not stop a read-only open.
    let h = m.get(&locked, Mode::ReadOnly).unwrap();
    assert!(h.check_write().is_err());
    assert_eq!(m.open_count(), 1);
}
