use audit_guard::audit::{
    build_entry, AuditLogEntry, AuditLogEntryAction, AuditLogStore, StorageError,
};
use audit_guard::ids::encode_ulid;

fn ban(user: &str) -> AuditLogEntryAction {
    AuditLogEntryAction::BanCreate { user: user.to_string() }
}

fn entry_at(ts: u64, rand: u128) -> AuditLogEntry {
    build_entry(
        ban("target"),
        "srv".to_string(),
        None,
        "actor".to_string(),
        ts,
        rand,
        3600,
    )
}

#[test]
fn encoding_matches_ulid_crate() {
    let cases: [(u64, u128); 4] = [
        (0, 0),
        (1_700_000_000_000, 0x1234_5678_9abc_def0_1234),
        (0xFFFF_FFFF_FFFF, (1u128 << 80) - 1),
        (42, 7),
    ];
    for (ts, rand) in cases {
        let ours = encode_ulid(ts, rand);
        let theirs = ulid::Ulid::from_parts(ts, rand).to_string();
        assert_eq!(ours, theirs);
    }
}

#[test]
fn ids_are_time_ordered() {
    // Entries created in later millisecond buckets sort strictly after
    // earlier ones, whatever the random components.
    let e1 = entry_at(1000, u128::MAX >> 48);
    let e2 = entry_at(1001, 0);
    assert!(e1.id < e2.id);
    let e3 = entry_at(2000, 55);
    assert!(e2.id < e3.id);
    assert_eq!(e1.id.len(), 26);
}

#[test]
fn expiry_is_creation_plus_retention() {
    let e = build_entry(
        ban("t"),
        "srv".to_string(),
        Some("spam".to_string()),
        "actor".to_string(),
        5_000,
        9,
        86_400,
    );
    assert_eq!(e.expires_at, 5_000 + 86_400 * 1000);
    assert_eq!(e.server, "srv");
    assert_eq!(e.reason.as_deref(), Some("spam"));
    assert_eq!(e.user, "actor");
}

#[test]
fn insert_returns_entry_synchronously() {
    let e = ban("t").insert("srv".to_string(), None, "actor".to_string(), 60);
    assert_eq!(e.server, "srv");
    assert_eq!(e.user, "actor");
    assert_eq!(e.id.len(), 26);
    assert!(matches!(e.action, AuditLogEntryAction::BanCreate { .. }));
}

#[test]
fn persistence_failure_leaves_entry_and_store_untouched() {
    // An injected storage failure is reported through the persistence
    // result alone: the constructed entry is unchanged and nothing is
    // stored.
    let e = ban("t").insert("srv".to_string(), None, "actor".to_string(), 60);
    let expected_id = e.id.clone();
    let expected_expiry = e.expires_at;
    let mut store = AuditLogStore::new();
    store.healthy = false;
    let r = store.insert_audit_log_entry(e.clone());
    assert!(matches!(r, Err(StorageError::Unavailable)));
    assert_eq!(store.entries.len(), 0);
    assert_eq!(e.id, expected_id);
    assert_eq!(e.expires_at, expected_expiry);
    assert_eq!(e.user, "actor");
}

#[test]
fn duplicate_id_is_refused() {
    let e = entry_at(1000, 1);
    let mut store = AuditLogStore::new();
    assert!(store.insert_audit_log_entry(e.clone()).is_ok());
    let r = store.insert_audit_log_entry(e);
    assert!(matches!(r, Err(StorageError::DuplicateId)));
    assert_eq!(store.entries.len(), 1);
}

#[test]
fn store_keeps_entries_sorted_by_id() {
    let mut store = AuditLogStore::new();
    assert!(store.insert_audit_log_entry(entry_at(3000, 0)).is_ok());
    assert!(store.insert_audit_log_entry(entry_at(1000, 0)).is_ok());
    assert!(store.insert_audit_log_entry(entry_at(2000, 0)).is_ok());
    assert_eq!(store.entries.len(), 3);
    assert!(store.entries[0].id < store.entries[1].id);
    assert!(store.entries[1].id < store.entries[2].id);
}

#[test]
fn generated_ids_parse_back_through_ulid() {
    // The id embeds the creation timestamp: parsing it back with the ulid
    // crate recovers the instant the expiry was computed from.
    let e = ban("t").insert("srv".to_string(), None, "actor".to_string(), 60);
    let u = ulid::Ulid::from_string(&e.id).expect("entry id must be a valid ulid");
    assert_eq!(e.expires_at, u.timestamp_ms() + 60 * 1000);
}
