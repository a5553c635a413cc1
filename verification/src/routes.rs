//! The privileged mutation handlers: setting a role's permissions at server
//! or channel scope, deleting a role, and querying the audit log. Each one
//! runs the three authorization guards in order — capability, rank,
//! delegation — and the first failure aborts before any state change; each
//! successful mutation yields the audit log entry that records it.

use vstd::prelude::*;
use crate::audit::{AuditLogEntry, AuditLogEntryAction, AuditLogStore};
use crate::ids::TIME_MOD;
use crate::model::{
    Channel, ChannelRoleOverride, DataSetRolePermissions, DataSetServerRolePermission, Error,
    Member, PartialRole, Role, Server,
};
use crate::permissions::{field_of, has_bit, override_of, Permission};
use crate::resolve::{
    calculate_channel_permissions, calculate_server_permissions, channel_permissions_spec,
    member_rank_spec, server_permissions_spec, string_eq, throw_if_not_elevated,
    PermissionContext,
};
use crate::retrieval::{
    collect_referenced_users, effective_limit, filtered_desc, get_server_audit_logs, ids_contain,
    referenced_set, same_entries, take_at_most, valid_options, AuditLogQuery,
    OptionsAuditLogQuery,
};

verus! {

/// The storage filter bundle a set of query options stands for.
pub open spec fn query_of(o: OptionsAuditLogQuery) -> AuditLogQuery {
    AuditLogQuery { user: o.user, kinds: o.kinds, before: o.before, after: o.after, limit: o.limit }
}

/// Find the position of a role in the server's role list.
fn find_role(server: &Server, role_id: &String) -> (r: Option<usize>)
    requires
        server.wf(),
    ensures
        r is Some <==> server.has_role(role_id@),
        r matches Some(i) ==> i < server.roles@.len() && server.roles@[i as int].id@ == role_id@
            && i as int == server.role_index(role_id@),
{
    let n = server.roles.len();
    let mut i: usize = 0;
    while i < n
        invariant
            i <= n,
            n == server.roles@.len(),
            server.wf(),
            forall|j: int| 0 <= j < i ==> (#[trigger] server.roles@[j].id@) != role_id@,
        decreases n - i,
    {
        if string_eq(&server.roles[i].id, role_id) {
            proof {
                let k = server.role_index(role_id@);
                assert(0 <= k < server.roles@.len() && server.roles@[k].id@ == role_id@);
                assert(k == i as int);
            }
            return Some(i);
        }
        i = i + 1;
    }
    None
}

/// Set the base override of a server role: requires the manage-permissions
/// capability, strict rank elevation over the role, and that the requested
/// override grants nothing the actor does not hold; on success the role's
/// override is replaced and the edit is recorded as an audit entry.
pub fn set_role_permission(
    server: &mut Server,
    member: &Member,
    role_id: &String,
    data: DataSetServerRolePermission,
    reason: Option<String>,
    retention_secs: u64,
) -> (r: Result<AuditLogEntry, Error>)
    requires
        old(server).wf(),
        retention_secs * 1000 + TIME_MOD <= u64::MAX,
    ensures
        final(server).wf(),
        ({
            let s = *old(server);
            let perms = server_permissions_spec(s, *member);
            let arank = member_rank_spec(s, *member);
            if !s.has_role(role_id@) {
                &&& r == Err::<AuditLogEntry, Error>(Error::NotFound)
                &&& *final(server) == s
            } else {
                let i = s.role_index(role_id@);
                let role = s.roles@[i];
                let cur = override_of(role.permissions);
                if !has_bit(perms, Permission::ManagePermissions) {
                    &&& r == Err::<AuditLogEntry, Error>(
                        Error::PermissionDenied { permission: Permission::ManagePermissions },
                    )
                    &&& *final(server) == s
                } else if role.rank as int <= arank {
                    &&& r == Err::<AuditLogEntry, Error>(Error::NotElevated)
                    &&& *final(server) == s
                } else if data.permissions.allow & !cur.allow & !perms != 0 {
                    &&& r == Err::<AuditLogEntry, Error>(Error::NotElevated)
                    &&& *final(server) == s
                } else {
                    &&& r is Ok
                    &&& final(server).id == s.id
                    &&& final(server).owner == s.owner
                    &&& final(server).default_permissions == s.default_permissions
                    &&& final(server).roles@ == s.roles@.update(
                        i,
                        Role {
                            id: role.id,
                            name: role.name,
                            permissions: field_of(data.permissions),
                            rank: role.rank,
                        },
                    )
                    &&& (r matches Ok(e) ==> {
                        &&& e.server@ == s.id@
                        &&& e.user@ == member.user@
                        &&& e.reason == reason
                        &&& e.id@.len() == 26
                        &&& (e.action matches AuditLogEntryAction::RoleEdit {
                            role: rid,
                            remove,
                            partial,
                        } && rid@ == role_id@ && remove@ == Seq::<crate::model::FieldsRole>::empty()
                            && partial.permissions == Some(field_of(data.permissions))
                            && partial.name is None && partial.rank is None)
                    })
                }
            }
        }),
{
    let i = match find_role(server, role_id) {
        Some(i) => i,
        None => {
            return Err(Error::NotFound);
        },
    };
    let mut ctx = PermissionContext::new(server, member);
    let permissions = calculate_server_permissions(&mut ctx);
    match permissions.throw_if_lacking_channel_permission(Permission::ManagePermissions) {
        Ok(()) => {},
        Err(e) => {
            return Err(e);
        },
    }
    let member_rank = ctx.get_member_rank();
    match throw_if_not_elevated(server.roles[i].rank, member_rank) {
        Ok(()) => {},
        Err(e) => {
            return Err(e);
        },
    }
    let current_value = server.roles[i].permissions.into_override();
    match permissions.throw_permission_override(current_value, &data.permissions) {
        Ok(()) => {},
        Err(e) => {
            return Err(e);
        },
    }
    let override_field = data.permissions.into_field();
    let ghost before = server.roles@;
    let mut role = server.roles.remove(i);
    role.permissions = override_field;
    server.roles.insert(i, role);
    proof {
        let after = server.roles@;
        let updated = Role {
            id: before[i as int].id,
            name: before[i as int].name,
            permissions: field_of(data.permissions),
            rank: before[i as int].rank,
        };
        assert(after =~= before.update(i as int, updated));
        assert forall|x: int, y: int| 0 <= x < y < after.len() implies crate::model::role_before(
            #[trigger] after[x],
            #[trigger] after[y],
        ) && after[x].id@ != after[y].id@ by {
            assert(after[x].rank == before[x].rank && after[x].id@ == before[x].id@);
            assert(after[y].rank == before[y].rank && after[y].id@ == before[y].id@);
        }
    }
    let entry = AuditLogEntryAction::RoleEdit {
        role: role_id.clone(),
        remove: Vec::new(),
        partial: PartialRole { name: None, permissions: Some(override_field), rank: None },
    }.insert(server.id.clone(), reason, member.user.clone(), retention_secs);
    Ok(entry)
}

/// Set the override a channel carries for a server role: requires the
/// manage-permissions capability at channel scope, strict rank elevation
/// over the role, and delegation safety against the role's base override;
/// on success the channel's per-role override is replaced or added and the
/// edit is recorded as an audit entry.
pub fn set_role_permissions(
    channel: &mut Channel,
    server: &Server,
    member: &Member,
    role_id: &String,
    data: DataSetRolePermissions,
    reason: Option<String>,
    retention_secs: u64,
) -> (r: Result<AuditLogEntry, Error>)
    requires
        old(channel).wf(),
        server.wf(),
        retention_secs * 1000 + TIME_MOD <= u64::MAX,
    ensures
        final(channel).wf(),
        ({
            let c = *old(channel);
            let perms = channel_permissions_spec(*server, *member, c);
            let arank = member_rank_spec(*server, *member);
            if c.server@ != server.id@ {
                &&& r == Err::<AuditLogEntry, Error>(Error::InvalidOperation)
                &&& *final(channel) == c
            } else if !has_bit(perms, Permission::ManagePermissions) {
                &&& r == Err::<AuditLogEntry, Error>(
                    Error::PermissionDenied { permission: Permission::ManagePermissions },
                )
                &&& *final(channel) == c
            } else if !server.has_role(role_id@) {
                &&& r == Err::<AuditLogEntry, Error>(Error::NotFound)
                &&& *final(channel) == c
            } else {
                let i = server.role_index(role_id@);
                let role = server.roles@[i];
                let cur = override_of(role.permissions);
                if role.rank as int <= arank {
                    &&& r == Err::<AuditLogEntry, Error>(Error::NotElevated)
                    &&& *final(channel) == c
                } else if data.permissions.allow & !cur.allow & !perms != 0 {
                    &&& r == Err::<AuditLogEntry, Error>(Error::NotElevated)
                    &&& *final(channel) == c
                } else {
                    &&& r is Ok
                    &&& final(channel).id == c.id
                    &&& final(channel).server == c.server
                    &&& final(channel).default_permissions == c.default_permissions
                    &&& (crate::resolve::chan_has(c, role_id@) ==> exists|j: int|
                        0 <= j < c.role_permissions@.len()
                            && (#[trigger] c.role_permissions@[j].role@) == role_id@
                            && final(channel).role_permissions@ == c.role_permissions@.update(
                            j,
                            ChannelRoleOverride {
                                role: c.role_permissions@[j].role,
                                permissions: field_of(data.permissions),
                            },
                        ))
                    &&& (!crate::resolve::chan_has(c, role_id@) ==> {
                        &&& final(channel).role_permissions@.len() == c.role_permissions@.len() + 1
                        &&& final(channel).role_permissions@.take(c.role_permissions@.len() as int)
                            == c.role_permissions@
                        &&& final(channel).role_permissions@.last().role@ == role_id@
                        &&& final(channel).role_permissions@.last().permissions == field_of(
                            data.permissions,
                        )
                    })
                    &&& (r matches Ok(e) ==> {
                        &&& e.server@ == server.id@
                        &&& e.user@ == member.user@
                        &&& e.reason == reason
                        &&& e.id@.len() == 26
                        &&& (e.action matches AuditLogEntryAction::ChannelRolePermissionsEdit {
                            channel: cid,
                            role: rid,
                            permissions,
                        } && cid@ == c.id@ && rid@ == role_id@ && permissions == field_of(
                            data.permissions,
                        ))
                    })
                }
            }
        }),
{
    if !string_eq(&channel.server, &server.id) {
        return Err(Error::InvalidOperation);
    }
    let mut ctx = PermissionContext::new(server, member).channel(channel);
    let permissions = calculate_channel_permissions(&mut ctx);
    match permissions.throw_if_lacking_channel_permission(Permission::ManagePermissions) {
        Ok(()) => {},
        Err(e) => {
            return Err(e);
        },
    }
    let i = match find_role(server, role_id) {
        Some(i) => i,
        None => {
            return Err(Error::NotFound);
        },
    };
    let member_rank = ctx.get_member_rank();
    match throw_if_not_elevated(server.roles[i].rank, member_rank) {
        Ok(()) => {},
        Err(e) => {
            return Err(e);
        },
    }
    let current_value = server.roles[i].permissions.into_override();
    match permissions.throw_permission_override(current_value, &data.permissions) {
        Ok(()) => {},
        Err(e) => {
            return Err(e);
        },
    }
    let override_field = data.permissions.into_field();
    let ghost before = channel.role_permissions@;
    let n = channel.role_permissions.len();
    let mut j: usize = 0;
    while j < n && !string_eq(&channel.role_permissions[j].role, role_id)
        invariant
            j <= n,
            n == channel.role_permissions@.len(),
            forall|k: int|
                0 <= k < j ==> (#[trigger] channel.role_permissions@[k].role@) != role_id@,
        decreases n - j,
    {
        j = j + 1;
    }
    if j < n {
        proof {
            assert(channel.role_permissions@[j as int].role@ == role_id@);
        }
        let mut slot = channel.role_permissions.remove(j);
        slot.permissions = override_field;
        channel.role_permissions.insert(j, slot);
        proof {
            let after = channel.role_permissions@;
            assert(after =~= before.update(
                j as int,
                ChannelRoleOverride {
                    role: before[j as int].role,
                    permissions: field_of(data.permissions),
                },
            ));
            assert forall|x: int, y: int| 0 <= x < y < after.len() implies (
            #[trigger] after[x].role@) != (#[trigger] after[y].role@) by {
                assert(after[x].role@ == before[x].role@);
                assert(after[y].role@ == before[y].role@);
            }
        }
    } else {
        channel.role_permissions.push(
            ChannelRoleOverride { role: role_id.clone(), permissions: override_field },
        );
        proof {
            let after = channel.role_permissions@;
            assert(after.take(before.len() as int) =~= before);
            assert forall|x: int, y: int| 0 <= x < y < after.len() implies (
            #[trigger] after[x].role@) != (#[trigger] after[y].role@) by {
                if y < before.len() {
                    assert(after[x].role@ == before[x].role@);
                    assert(after[y].role@ == before[y].role@);
                } else {
                    assert(after[x].role@ == before[x].role@);
                    assert(after[y].role@ == role_id@);
                }
            }
        }
    }
    let entry = AuditLogEntryAction::ChannelRolePermissionsEdit {
        channel: channel.id.clone(),
        role: role_id.clone(),
        permissions: override_field,
    }.insert(server.id.clone(), reason, member.user.clone(), retention_secs);
    Ok(entry)
}

/// Delete a server role: requires the manage-role capability and strict
/// rank elevation over the role; on success the role is removed and the
/// deletion, with the removed role's display name, is recorded as an audit
/// entry.
pub fn delete(
    server: &mut Server,
    member: &Member,
    role_id: &String,
    reason: Option<String>,
    retention_secs: u64,
) -> (r: Result<AuditLogEntry, Error>)
    requires
        old(server).wf(),
        retention_secs * 1000 + TIME_MOD <= u64::MAX,
    ensures
        final(server).wf(),
        ({
            let s = *old(server);
            let perms = server_permissions_spec(s, *member);
            let arank = member_rank_spec(s, *member);
            if !has_bit(perms, Permission::ManageRole) {
                &&& r == Err::<AuditLogEntry, Error>(
                    Error::PermissionDenied { permission: Permission::ManageRole },
                )
                &&& *final(server) == s
            } else if !s.has_role(role_id@) {
                &&& r == Err::<AuditLogEntry, Error>(Error::NotFound)
                &&& *final(server) == s
            } else {
                let i = s.role_index(role_id@);
                let role = s.roles@[i];
                if role.rank as int <= arank {
                    &&& r == Err::<AuditLogEntry, Error>(Error::NotElevated)
                    &&& *final(server) == s
                } else {
                    &&& r is Ok
                    &&& final(server).id == s.id
                    &&& final(server).owner == s.owner
                    &&& final(server).default_permissions == s.default_permissions
                    &&& final(server).roles@ == s.roles@.remove(i)
                    &&& (r matches Ok(e) ==> {
                        &&& e.server@ == s.id@
                        &&& e.user@ == member.user@
                        &&& e.reason == reason
                        &&& e.id@.len() == 26
                        &&& (e.action matches AuditLogEntryAction::RoleDelete { role: rid, name }
                            && rid@ == role_id@ && name@ == role.name@)
                    })
                }
            }
        }),
{
    let mut ctx = PermissionContext::new(server, member);
    let permissions = calculate_server_permissions(&mut ctx);
    match permissions.throw_if_lacking_channel_permission(Permission::ManageRole) {
        Ok(()) => {},
        Err(e) => {
            return Err(e);
        },
    }
    let i = match find_role(server, role_id) {
        Some(i) => i,
        None => {
            return Err(Error::NotFound);
        },
    };
    let member_rank = ctx.get_member_rank();
    match throw_if_not_elevated(server.roles[i].rank, member_rank) {
        Ok(()) => {},
        Err(e) => {
            return Err(e);
        },
    }
    let ghost before = server.roles@;
    let role = server.roles.remove(i);
    proof {
        let after = server.roles@;
        assert forall|x: int, y: int| 0 <= x < y < after.len() implies crate::model::role_before(
            #[trigger] after[x],
            #[trigger] after[y],
        ) && after[x].id@ != after[y].id@ by {
            let bx = if x < i as int { x } else { x + 1 };
            let by = if y < i as int { y } else { y + 1 };
            assert(after[x] == before[bx]);
            assert(after[y] == before[by]);
        }
    }
    let entry = AuditLogEntryAction::RoleDelete { role: role_id.clone(), name: role.name }.insert(
        server.id.clone(),
        reason,
        member.user.clone(),
        retention_secs,
    );
    Ok(entry)
}

/// Query a server's audit log: the parameters are validated, the actor must
/// hold the view-audit-log capability, and the matching entries come back
/// newest first, capped to the clamped limit — together with the
/// deduplicated referenced user ids when enrichment was requested.
pub fn query(
    store: &AuditLogStore,
    server: &Server,
    member: &Member,
    options: OptionsAuditLogQuery,
) -> (r: Result<(Vec<AuditLogEntry>, Option<Vec<String>>), Error>)
    requires
        server.wf(),
    ensures
        ({
            let perms = server_permissions_spec(*server, *member);
            if !valid_options(options) {
                r == Err::<(Vec<AuditLogEntry>, Option<Vec<String>>), Error>(
                    Error::FailedValidation,
                )
            } else if !has_bit(perms, Permission::ViewAuditLogs) {
                r == Err::<(Vec<AuditLogEntry>, Option<Vec<String>>), Error>(
                    Error::PermissionDenied { permission: Permission::ViewAuditLogs },
                )
            } else {
                &&& r is Ok
                &&& (r matches Ok(pair) ==> {
                    &&& same_entries(
                        pair.0@,
                        take_at_most(
                            filtered_desc(store.entries@, server.id@, query_of(options)),
                            effective_limit(options.limit),
                        ),
                    )
                    &&& (pair.1 is Some <==> options.include_users == Some(true))
                    &&& (pair.1 matches Some(ids) ==> {
                        &&& forall|x: int, y: int|
                            0 <= x < y < ids@.len() ==> (#[trigger] ids@[x]@) != (
                            #[trigger] ids@[y]@)
                        &&& forall|u: Seq<char>|
                            #[trigger] referenced_set(pair.0@).contains(u) <==> ids_contain(
                                ids@,
                                u,
                            )
                    })
                })
            }
        }),
{
    match options.validate() {
        Ok(()) => {},
        Err(e) => {
            return Err(e);
        },
    }
    let mut ctx = PermissionContext::new(server, member);
    let permissions = calculate_server_permissions(&mut ctx);
    match permissions.throw_if_lacking_channel_permission(Permission::ViewAuditLogs) {
        Ok(()) => {},
        Err(e) => {
            return Err(e);
        },
    }
    let OptionsAuditLogQuery { user, kinds, before, after, limit, include_users } = options;
    let q = AuditLogQuery { user, kinds, before, after, limit };
    let audit_logs = get_server_audit_logs(store, &server.id, &q);
    match include_users {
        Some(true) => {
            let ids = collect_referenced_users(&audit_logs);
            Ok((audit_logs, Some(ids)))
        },
        _ => Ok((audit_logs, None)),
    }
}

} // verus!
