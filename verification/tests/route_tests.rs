use audit_guard::audit::{AuditLogEntryAction, AuditLogStore};
use audit_guard::model::{
    Channel, DataSetRolePermissions, DataSetServerRolePermission, Error, Member, Role, Server,
};
use audit_guard::permissions::{Override, OverrideField, Permission};
use audit_guard::retrieval::{AuditLogQueryResponse, OptionsAuditLogQuery};
use audit_guard::routes::{delete, query, set_role_permission, set_role_permissions};

const RETENTION: u64 = 3600;

fn mk_role(id: &str, rank: i64, allow: u64) -> Role {
    Role {
        id: id.to_string(),
        name: format!("name-{}", id),
        permissions: OverrideField { a: allow as i64, d: 0 },
        rank,
    }
}

fn mk_server(roles: Vec<Role>) -> Server {
    Server {
        id: "srv".to_string(),
        owner: "owner".to_string(),
        default_permissions: 0,
        roles,
    }
}

fn mk_member(user: &str, roles: &[&str]) -> Member {
    Member {
        user: user.to_string(),
        roles: roles.iter().map(|r| r.to_string()).collect(),
    }
}

fn mod_bits() -> u64 {
    Permission::ManagePermissions.bit() | Permission::ManageRole.bit()
}

// A server whose "mod" role (rank 10) grants the management capabilities,
// with a senior role at rank 5 and a junior role at rank 15.
fn staffed_server() -> Server {
    mk_server(vec![
        mk_role("senior", 5, 0),
        mk_role("mod", 10, mod_bits()),
        mk_role("junior", 15, 0),
    ])
}

#[test]
fn delete_senior_role_fails_not_elevated() {
    // Actor at effective rank 10 may not delete a role of rank 5.
    let mut srv = staffed_server();
    let actor = mk_member("u1", &["mod"]);
    let r = delete(&mut srv, &actor, &"senior".to_string(), None, RETENTION);
    assert!(matches!(r, Err(Error::NotElevated)));
    assert_eq!(srv.roles.len(), 3);
}

#[test]
fn delete_junior_role_succeeds() {
    // The same actor may delete a role of rank 15, and the audit entry
    // records the removed role's display name.
    let mut srv = staffed_server();
    let actor = mk_member("u1", &["mod"]);
    let r = delete(&mut srv, &actor, &"junior".to_string(), None, RETENTION);
    let entry = r.expect("deletion must succeed");
    assert_eq!(srv.roles.len(), 2);
    assert!(srv.roles.iter().all(|x| x.id != "junior"));
    match entry.action {
        AuditLogEntryAction::RoleDelete { role, name } => {
            assert_eq!(role, "junior");
            assert_eq!(name, "name-junior");
        },
        _ => panic!("wrong action recorded"),
    }
    assert_eq!(entry.server, "srv");
    assert_eq!(entry.user, "u1");
}

#[test]
fn delete_without_capability_fails() {
    let mut srv = staffed_server();
    let actor = mk_member("u1", &["junior"]);
    let r = delete(&mut srv, &actor, &"junior".to_string(), None, RETENTION);
    assert!(matches!(
        r,
        Err(Error::PermissionDenied { permission: Permission::ManageRole })
    ));
    assert_eq!(srv.roles.len(), 3);
}

#[test]
fn delete_unknown_role_fails_not_found() {
    let mut srv = staffed_server();
    let actor = mk_member("u1", &["mod"]);
    let r = delete(&mut srv, &actor, &"ghost".to_string(), None, RETENTION);
    assert!(matches!(r, Err(Error::NotFound)));
}

#[test]
fn edit_senior_role_fails_not_elevated() {
    // Rank elevation applies to edits exactly as to deletions.
    let mut srv = staffed_server();
    let actor = mk_member("u1", &["mod"]);
    let data = DataSetServerRolePermission { permissions: Override { allow: 0, deny: 0 } };
    let r = set_role_permission(&mut srv, &actor, &"senior".to_string(), data, None, RETENTION);
    assert!(matches!(r, Err(Error::NotElevated)));
}

#[test]
fn set_role_permission_updates_role_and_records_edit() {
    let mut srv = staffed_server();
    let actor = mk_member("u1", &["mod"]);
    let newly = Override { allow: Permission::ManageRole.bit(), deny: Permission::BanMembers.bit() };
    let data = DataSetServerRolePermission { permissions: newly };
    let r = set_role_permission(
        &mut srv,
        &actor,
        &"junior".to_string(),
        data,
        Some("tidy".to_string()),
        RETENTION,
    );
    let entry = r.expect("edit must succeed");
    let junior = srv.roles.iter().find(|x| x.id == "junior").unwrap();
    assert_eq!(junior.permissions.a as u64, newly.allow);
    assert_eq!(junior.permissions.d as u64, newly.deny);
    match entry.action {
        AuditLogEntryAction::RoleEdit { role, remove, partial } => {
            assert_eq!(role, "junior");
            assert!(remove.is_empty());
            let p = partial.permissions.unwrap();
            assert_eq!(p.a as u64, newly.allow);
            assert_eq!(p.d as u64, newly.deny);
        },
        _ => panic!("wrong action recorded"),
    }
    assert_eq!(entry.reason.as_deref(), Some("tidy"));
}

#[test]
fn delegation_refused_even_when_target_denies_the_bit() {
    // The actor holds the management bits but not BanMembers; requesting an
    // override that newly allows BanMembers fails with NotElevated even
    // though the junior role currently denies that bit.
    let mut srv = mk_server(vec![
        mk_role("mod", 10, mod_bits()),
        Role {
            id: "junior".to_string(),
            name: "name-junior".to_string(),
            permissions: OverrideField { a: 0, d: Permission::BanMembers.bit() as i64 },
            rank: 15,
        },
    ]);
    let actor = mk_member("u1", &["mod"]);
    let data = DataSetServerRolePermission {
        permissions: Override { allow: Permission::BanMembers.bit(), deny: 0 },
    };
    let r = set_role_permission(&mut srv, &actor, &"junior".to_string(), data, None, RETENTION);
    assert!(matches!(r, Err(Error::NotElevated)));
    let junior = srv.roles.iter().find(|x| x.id == "junior").unwrap();
    assert_eq!(junior.permissions.a, 0);
}

#[test]
fn channel_override_set_and_recorded() {
    let srv = staffed_server();
    let mut chan = Channel {
        id: "chan".to_string(),
        server: "srv".to_string(),
        role_permissions: vec![],
        default_permissions: None,
    };
    let actor = mk_member("u1", &["mod"]);
    let data = DataSetRolePermissions {
        permissions: Override { allow: Permission::ManageRole.bit(), deny: 0 },
    };
    let r = set_role_permissions(
        &mut chan,
        &srv,
        &actor,
        &"junior".to_string(),
        data,
        None,
        RETENTION,
    );
    let entry = r.expect("channel override must succeed");
    assert_eq!(chan.role_permissions.len(), 1);
    assert_eq!(chan.role_permissions[0].role, "junior");
    match entry.action {
        AuditLogEntryAction::ChannelRolePermissionsEdit { channel, role, .. } => {
            assert_eq!(channel, "chan");
            assert_eq!(role, "junior");
        },
        _ => panic!("wrong action recorded"),
    }
}

#[test]
fn channel_of_another_server_is_invalid_operation() {
    let srv = staffed_server();
    let mut chan = Channel {
        id: "chan".to_string(),
        server: "elsewhere".to_string(),
        role_permissions: vec![],
        default_permissions: None,
    };
    let actor = mk_member("u1", &["mod"]);
    let data = DataSetRolePermissions { permissions: Override { allow: 0, deny: 0 } };
    let r = set_role_permissions(
        &mut chan,
        &srv,
        &actor,
        &"junior".to_string(),
        data,
        None,
        RETENTION,
    );
    assert!(matches!(r, Err(Error::InvalidOperation)));
}

#[test]
fn query_requires_view_audit_logs() {
    let store = AuditLogStore::new();
    let srv = staffed_server();
    let actor = mk_member("u1", &["mod"]);
    let opts = OptionsAuditLogQuery {
        user: None,
        kinds: None,
        before: None,
        after: None,
        limit: None,
        include_users: None,
    };
    let r = query(&store, &srv, &actor, opts);
    assert!(matches!(
        r,
        Err(Error::PermissionDenied { permission: Permission::ViewAuditLogs })
    ));
}

#[test]
fn query_returns_entries_and_optional_user_ids() {
    let mut store = AuditLogStore::new();
    let e = AuditLogEntryAction::BanCreate { user: "victim".to_string() }.insert(
        "srv".to_string(),
        None,
        "owner".to_string(),
        RETENTION,
    );
    assert!(store.insert_audit_log_entry(e).is_ok());
    let srv = staffed_server();
    let owner = mk_member("owner", &[]);
    let opts = OptionsAuditLogQuery {
        user: None,
        kinds: None,
        before: None,
        after: None,
        limit: None,
        include_users: Some(true),
    };
    let (entries, ids) = query(&store, &srv, &owner, opts).expect("owner may query");
    assert_eq!(entries.len(), 1);
    let ids = ids.expect("enrichment was requested");
    assert_eq!(ids.len(), 2);
    assert!(ids.contains(&"victim".to_string()));
    assert!(ids.contains(&"owner".to_string()));

    let response = audit_guard::retrieval::assemble_response(entries, None);
    assert!(matches!(response, AuditLogQueryResponse::AuditLogs(_)));
}
