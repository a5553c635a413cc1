use audit_guard::audit::{build_entry, AuditLogEntry, AuditLogEntryAction, AuditLogStore};
use audit_guard::model::{Error, PartialMember};
use audit_guard::retrieval::{
    collect_referenced_users, get_server_audit_logs, AuditLogQuery, OptionsAuditLogQuery,
};

fn plain_query() -> AuditLogQuery {
    AuditLogQuery { user: None, kinds: None, before: None, after: None, limit: None }
}

fn options(limit: Option<i64>) -> OptionsAuditLogQuery {
    OptionsAuditLogQuery {
        user: None,
        kinds: None,
        before: None,
        after: None,
        limit,
        include_users: None,
    }
}

fn stored(server: &str, ts: u64, actor: &str, action: AuditLogEntryAction) -> AuditLogEntry {
    build_entry(action, server.to_string(), None, actor.to_string(), ts, ts as u128, 3600)
}

fn filled_store(n: u64) -> AuditLogStore {
    let mut store = AuditLogStore::new();
    for i in 0..n {
        let e = stored("srv", 1000 + i, "actor", AuditLogEntryAction::RoleCreate {
            role: format!("r{}", i),
        });
        assert!(store.insert_audit_log_entry(e).is_ok());
    }
    store
}

#[test]
fn limit_500_clamps_to_100() {
    let store = filled_store(150);
    let q = AuditLogQuery { limit: Some(500), ..plain_query() };
    let r = get_server_audit_logs(&store, &"srv".to_string(), &q);
    assert_eq!(r.len(), 100);
    // Newest first: the first result is the entry created last.
    assert_eq!(r[0].id, store.entries[149].id);
    assert!(r[0].id > r[1].id);
}

#[test]
fn limit_zero_is_rejected_by_validation() {
    let r = options(Some(0)).validate();
    assert!(matches!(r, Err(Error::FailedValidation)));
    assert!(options(Some(1)).validate().is_ok());
    assert!(options(None).validate().is_ok());
}

#[test]
fn cursor_ids_must_be_26_chars() {
    let mut o = options(None);
    o.before = Some("short".to_string());
    assert!(matches!(o.validate(), Err(Error::FailedValidation)));
    o.before = Some("01AAAAAAAAAAAAAAAAAAAAAAAA".to_string());
    assert!(o.validate().is_ok());
}

#[test]
fn before_cursor_excludes_the_boundary_entry() {
    let store = filled_store(10);
    let boundary = store.entries[5].id.clone();
    let q = AuditLogQuery { before: Some(boundary.clone()), ..plain_query() };
    let r = get_server_audit_logs(&store, &"srv".to_string(), &q);
    assert_eq!(r.len(), 5);
    for e in &r {
        assert!(e.id < boundary);
    }
}

#[test]
fn after_cursor_excludes_the_boundary_entry() {
    let store = filled_store(10);
    let boundary = store.entries[5].id.clone();
    let q = AuditLogQuery { after: Some(boundary.clone()), ..plain_query() };
    let r = get_server_audit_logs(&store, &"srv".to_string(), &q);
    assert_eq!(r.len(), 4);
    for e in &r {
        assert!(e.id > boundary);
    }
}

#[test]
fn filters_by_server_actor_and_kind() {
    let mut store = AuditLogStore::new();
    assert!(store
        .insert_audit_log_entry(stored("srv", 1000, "u1", AuditLogEntryAction::MemberKick {
            user: "t".to_string(),
        }))
        .is_ok());
    assert!(store
        .insert_audit_log_entry(stored("srv", 1001, "u2", AuditLogEntryAction::RoleCreate {
            role: "r".to_string(),
        }))
        .is_ok());
    assert!(store
        .insert_audit_log_entry(stored("other", 1002, "u1", AuditLogEntryAction::MemberKick {
            user: "t".to_string(),
        }))
        .is_ok());

    let all = get_server_audit_logs(&store, &"srv".to_string(), &plain_query());
    assert_eq!(all.len(), 2);

    let q_user = AuditLogQuery { user: Some("u1".to_string()), ..plain_query() };
    let by_user = get_server_audit_logs(&store, &"srv".to_string(), &q_user);
    assert_eq!(by_user.len(), 1);
    assert_eq!(by_user[0].user, "u1");

    let q_kind = AuditLogQuery {
        kinds: Some(vec!["RoleCreate".to_string()]),
        ..plain_query()
    };
    let by_kind = get_server_audit_logs(&store, &"srv".to_string(), &q_kind);
    assert_eq!(by_kind.len(), 1);
    assert!(matches!(by_kind[0].action, AuditLogEntryAction::RoleCreate { .. }));
}

#[test]
fn enrichment_collects_each_referenced_user_once() {
    // Entries: MessageDelete{author=U1}, BanCreate{user=U2},
    // MemberEdit{user=U1}, all with actor U3 — the referenced-user set is
    // exactly {U1, U2, U3}, each once.
    let entries = vec![
        stored("srv", 1000, "U3", AuditLogEntryAction::MessageDelete {
            author: "U1".to_string(),
            channel: "c".to_string(),
        }),
        stored("srv", 1001, "U3", AuditLogEntryAction::BanCreate { user: "U2".to_string() }),
        stored("srv", 1002, "U3", AuditLogEntryAction::MemberEdit {
            user: "U1".to_string(),
            remove: vec![],
            partial: PartialMember { nickname: None, roles: None, timeout_until_ms: None },
        }),
    ];
    let ids = collect_referenced_users(&entries);
    assert_eq!(ids.len(), 3);
    assert!(ids.contains(&"U1".to_string()));
    assert!(ids.contains(&"U2".to_string()));
    assert!(ids.contains(&"U3".to_string()));
}

#[test]
fn enrichment_ignores_variants_without_user_fields() {
    let entries = vec![
        stored("srv", 1000, "U9", AuditLogEntryAction::RoleDelete {
            role: "r".to_string(),
            name: "n".to_string(),
        }),
        stored("srv", 1001, "U9", AuditLogEntryAction::ChannelCreate {
            channel: "c".to_string(),
        }),
    ];
    let ids = collect_referenced_users(&entries);
    assert_eq!(ids, vec!["U9".to_string()]);
}
