use audit_guard::model::{Member, Role, Server};
use audit_guard::permissions::{apply, merge, Override, OverrideField, Permission, ALL_PERMISSIONS};
use audit_guard::resolve::{
    calculate_server_permissions, throw_if_not_elevated, PermissionContext,
};
use audit_guard::model::Error;

fn server_with(owner: &str, default: u64, roles: Vec<Role>) -> Server {
    Server {
        id: "01AAAAAAAAAAAAAAAAAAAAAAAA".to_string(),
        owner: owner.to_string(),
        default_permissions: default,
        roles,
    }
}

fn role(id: &str, rank: i64, allow: u64, deny: u64) -> Role {
    Role {
        id: id.to_string(),
        name: format!("role-{}", id),
        permissions: OverrideField { a: allow as i64, d: deny as i64 },
        rank,
    }
}

fn member(user: &str, roles: &[&str]) -> Member {
    Member {
        user: user.to_string(),
        roles: roles.iter().map(|r| r.to_string()).collect(),
    }
}

#[test]
fn capability_check_fails_without_bit() {
    // The actor's roles never grant ViewAuditLogs, so require() must fail
    // with PermissionDenied carrying that exact bit.
    let srv = server_with("owner", 0, vec![role("a", 1, Permission::ManageRole.bit(), 0)]);
    let m = member("u1", &["a"]);
    let mut ctx = PermissionContext::new(&srv, &m);
    let v = calculate_server_permissions(&mut ctx);
    assert!(!v.has_channel_permission(Permission::ViewAuditLogs));
    let r = v.throw_if_lacking_channel_permission(Permission::ViewAuditLogs);
    assert!(matches!(
        r,
        Err(Error::PermissionDenied { permission: Permission::ViewAuditLogs })
    ));
    assert!(v.throw_if_lacking_channel_permission(Permission::ManageRole).is_ok());
}

#[test]
fn later_allow_overrides_earlier_deny() {
    // Three layers folded left to right: allow-nothing, deny X, allow X.
    // The allow applied after the deny wins, so X ends allowed.
    let x = Permission::BanMembers.bit();
    let v0 = apply(0, Override { allow: 0, deny: 0 });
    let v1 = apply(v0, Override { allow: 0, deny: x });
    assert_eq!(v1 & x, 0);
    let v2 = apply(v1, Override { allow: x, deny: 0 });
    assert_ne!(v2 & x, 0);
}

#[test]
fn deny_wins_within_one_merge_step() {
    let x = Permission::BanMembers.bit();
    let merged = merge(
        Override { allow: x, deny: 0 },
        Override { allow: x, deny: x },
    );
    assert_eq!(merged.allow & x, 0);
    assert_ne!(merged.deny & x, 0);
    assert_eq!(merged.allow & merged.deny, 0);
}

#[test]
fn override_field_round_trip_is_lossless() {
    let o = Override { allow: u64::MAX, deny: 0x8000_0000_0000_0001 };
    let f = o.into_field();
    let back = f.into_override();
    assert_eq!(back.allow, o.allow);
    assert_eq!(back.deny, o.deny);
    let f2 = OverrideField { a: -1, d: i64::MIN };
    let o2 = f2.into_override();
    let f2back = o2.into_field();
    assert_eq!(f2back.a, f2.a);
    assert_eq!(f2back.d, f2.d);
}

#[test]
fn owner_holds_every_capability() {
    let srv = server_with("boss", 0, vec![]);
    let m = member("boss", &[]);
    let mut ctx = PermissionContext::new(&srv, &m);
    let v = calculate_server_permissions(&mut ctx);
    assert_eq!(v.value, ALL_PERMISSIONS);
}

#[test]
fn senior_role_has_final_say() {
    // Roles sorted ascending by rank; the senior (rank 1) layer is applied
    // last, so its deny beats the junior (rank 2) allow.
    let x = Permission::BanMembers.bit();
    let srv = server_with(
        "owner",
        0,
        vec![role("senior", 1, 0, x), role("junior", 2, x, 0)],
    );
    let m = member("u1", &["senior", "junior"]);
    let mut ctx = PermissionContext::new(&srv, &m);
    let v = calculate_server_permissions(&mut ctx);
    assert_eq!(v.value & x, 0);

    // Holding only the junior role, the bit stays granted.
    let m2 = member("u2", &["junior"]);
    let mut ctx2 = PermissionContext::new(&srv, &m2);
    let v2 = calculate_server_permissions(&mut ctx2);
    assert_ne!(v2.value & x, 0);
}

#[test]
fn member_rank_is_most_senior_role() {
    let srv = server_with("owner", 0, vec![role("a", 3, 0, 0), role("b", 7, 0, 0)]);
    let m = member("u1", &["a", "b"]);
    let ctx = PermissionContext::new(&srv, &m);
    assert_eq!(ctx.get_member_rank(), 3);

    let none = member("u2", &[]);
    let ctx2 = PermissionContext::new(&srv, &none);
    assert_eq!(ctx2.get_member_rank(), i64::MAX);

    let owner = member("owner", &[]);
    let ctx3 = PermissionContext::new(&srv, &owner);
    assert_eq!(ctx3.get_member_rank(), i64::MIN);
}

#[test]
fn rank_elevation_comparisons() {
    // Actor at effective rank 10: acting on rank 5 is refused, rank 15 allowed.
    assert!(matches!(throw_if_not_elevated(5, 10), Err(Error::NotElevated)));
    assert!(matches!(throw_if_not_elevated(10, 10), Err(Error::NotElevated)));
    assert!(throw_if_not_elevated(15, 10).is_ok());
}

#[test]
fn delegation_blocks_unheld_allow_bit() {
    // The actor holds ManagePermissions but not BanMembers; an override
    // newly allowing BanMembers is refused even though the target denies it.
    let y = Permission::BanMembers.bit();
    let srv = server_with(
        "owner",
        0,
        vec![role("mod", 10, Permission::ManagePermissions.bit(), 0)],
    );
    let m = member("u1", &["mod"]);
    let mut ctx = PermissionContext::new(&srv, &m);
    let v = calculate_server_permissions(&mut ctx);
    let current = Override { allow: 0, deny: y };
    let requested = Override { allow: y, deny: 0 };
    assert!(matches!(
        v.throw_permission_override(current, &requested),
        Err(Error::NotElevated)
    ));
    // Bits already allowed in the current override are not restricted.
    let current_ok = Override { allow: y, deny: 0 };
    assert!(v.throw_permission_override(current_ok, &requested).is_ok());
}
