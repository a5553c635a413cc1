//! Permission resolution engine and the three authorization guards: the
//! capability check, the rank elevation check, and the delegation-safety
//! check. An effective permission value is computed for one actor against a
//! server or server+channel scope, memoized inside a request-local context.

use vstd::prelude::*;
use crate::model::{Channel, Error, Member, Role, Server};
use crate::permissions::{
    apply_layers, apply_spec, bit_index, bit_spec, has_bit, override_of, Override, OverrideField,
    Permission, ALL_PERMISSIONS,
};

verus! {

/// Whether the member holds the role with the given id.
pub open spec fn member_holds(member: Member, id: Seq<char>) -> bool {
    exists|i: int| 0 <= i < member.roles@.len() && #[trigger] member.roles@[i]@ == id
}

/// The override layers contributed by the member's roles, in application
/// order: the role stored last (greatest rank, least authority) first, so
/// that the most senior role's layer is applied last and has the final say.
pub open spec fn layers_rev(roles: Seq<Role>, member: Member) -> Seq<Override>
    decreases roles.len(),
{
    if roles.len() == 0 {
        Seq::empty()
    } else {
        layers_rev(roles.skip(1), member) + (if member_holds(member, roles[0].id@) {
            seq![override_of(roles[0].permissions)]
        } else {
            Seq::empty()
        })
    }
}

/// The effective permission value of a member over a server scope: the
/// owner holds every capability; anyone else starts from the server default
/// and folds in their roles' overrides, least authoritative first.
pub open spec fn server_permissions_spec(server: Server, member: Member) -> u64 {
    if member.user@ == server.owner@ {
        ALL_PERMISSIONS
    } else {
        apply_layers(server.default_permissions, layers_rev(server.roles@, member))
    }
}

/// Whether the channel carries an override for the role with the given id.
pub open spec fn chan_has(channel: Channel, id: Seq<char>) -> bool {
    exists|i: int|
        0 <= i < channel.role_permissions@.len() && #[trigger] channel.role_permissions@[i].role@
            == id
}

/// The override the channel carries for the role with the given id.
pub open spec fn chan_override_of(channel: Channel, id: Seq<char>) -> Override {
    let i = choose|i: int|
        0 <= i < channel.role_permissions@.len() && #[trigger] channel.role_permissions@[i].role@
            == id;
    override_of(channel.role_permissions@[i].permissions)
}

impl Channel {
    /// The channel's per-role overrides name each role at most once.
    pub open spec fn wf(self) -> bool {
        forall|i: int, j: int|
            0 <= i < j < self.role_permissions@.len() ==> (
            #[trigger] self.role_permissions@[i].role@) != (
            #[trigger] self.role_permissions@[j].role@)
    }
}

/// The channel-scoped override layers contributed by the member's roles, in
/// the same application order as the server-scoped layers.
pub open spec fn channel_layers_rev(roles: Seq<Role>, member: Member, channel: Channel)
    -> Seq<Override>
    decreases roles.len(),
{
    if roles.len() == 0 {
        Seq::empty()
    } else {
        channel_layers_rev(roles.skip(1), member, channel) + (if member_holds(member, roles[0].id@)
            && chan_has(channel, roles[0].id@) {
            seq![chan_override_of(channel, roles[0].id@)]
        } else {
            Seq::empty()
        })
    }
}

/// The effective permission value of a member over a server+channel scope:
/// the server-scope result, folded through the channel's per-role overrides
/// and finally the channel's default override.
pub open spec fn channel_permissions_spec(server: Server, member: Member, channel: Channel)
    -> u64 {
    if member.user@ == server.owner@ {
        ALL_PERMISSIONS
    } else {
        let base = server_permissions_spec(server, member);
        let after_roles = apply_layers(base, channel_layers_rev(server.roles@, member, channel));
        match channel.default_permissions {
            Some(f) => apply_spec(after_roles, override_of(f)),
            None => after_roles,
        }
    }
}

/// The least rank among the member's held roles; the greatest representable
/// rank (least authority) when the member holds none.
pub open spec fn min_rank_of(roles: Seq<Role>, member: Member) -> int
    decreases roles.len(),
{
    if roles.len() == 0 {
        i64::MAX as int
    } else {
        let rest = min_rank_of(roles.drop_last(), member);
        if member_holds(member, roles.last().id@) && (roles.last().rank as int) < rest {
            roles.last().rank as int
        } else {
            rest
        }
    }
}

/// The member's effective rank: the server owner ranks below every role;
/// anyone else ranks at their most senior held role.
pub open spec fn member_rank_spec(server: Server, member: Member) -> int {
    if member.user@ == server.owner@ {
        i64::MIN as int
    } else {
        min_rank_of(server.roles@, member)
    }
}


/// A resolved effective permission value, valid for the one evaluation that
/// produced it.
#[derive(Clone, Copy, Debug)]
pub struct PermissionValue {
    pub value: u64,
}

impl PermissionValue {
    /// Whether the resolved set contains the capability.
    pub fn has_channel_permission(&self, permission: Permission) -> (r: bool)
        ensures
            r == has_bit(self.value, permission),
    {
        self.value & permission.bit() != 0
    }

    /// The capability check: fails with `PermissionDenied` carrying the
    /// missing bit, if and only if the resolved set lacks the capability.
    pub fn throw_if_lacking_channel_permission(&self, permission: Permission) -> (r: Result<
        (),
        Error,
    >)
        ensures
            r is Ok <==> has_bit(self.value, permission),
            !has_bit(self.value, permission) ==> r == Err::<(), Error>(
                Error::PermissionDenied { permission },
            ),
    {
        if self.value & permission.bit() != 0 {
            Ok(())
        } else {
            Err(Error::PermissionDenied { permission })
        }
    }

    /// The delegation-safety check: a requested override may allow a bit
    /// only if the target already allows it or the actor holds it; the
    /// check fails with `NotElevated` exactly when the requested allow set
    /// escapes both.
    pub fn throw_permission_override(&self, current_value: Override, data: &Override) -> (r:
        Result<(), Error>)
        ensures
            r is Ok <==> data.allow & !current_value.allow & !self.value == 0,
            r is Err ==> r == Err::<(), Error>(Error::NotElevated),
    {
        if data.allow & !current_value.allow & !self.value == 0 {
            Ok(())
        } else {
            Err(Error::NotElevated)
        }
    }
}

/// An actor lacking capability `p` cannot submit an override that newly
/// allows `p`: whenever the requested allow set contains a bit the actor's
/// effective set lacks and the target's current allow set lacks, the
/// delegation-safety mask is nonzero, so the check fails — even if the
/// target currently denies that bit.
pub proof fn lemma_delegation_blocks_unheld_allow(
    value: u64,
    current: Override,
    requested: Override,
    p: Permission,
)
    requires
        !has_bit(value, p),
        requested.allow & bit_spec(p) != 0,
        current.allow & bit_spec(p) == 0,
    ensures
        requested.allow & !current.allow & !value != 0,
{
    let s = bit_index(p);
    assert(s < 64);
    let ra = requested.allow;
    let ca = current.allow;
    assert(s < 64 && ra & (1u64 << s) != 0 && ca & (1u64 << s) == 0 && value & (1u64 << s) == 0
        ==> ra & !ca & !value != 0) by (bit_vector);
}

/// The rank elevation check: an actor may act on a role only when the
/// role's rank is strictly greater (strictly less authoritative) than the
/// actor's own effective rank; otherwise it fails with `NotElevated`.
pub fn throw_if_not_elevated(role_rank: i64, member_rank: i64) -> (r: Result<(), Error>)
    ensures
        r is Ok <==> role_rank > member_rank,
        role_rank <= member_rank ==> r == Err::<(), Error>(Error::NotElevated),
{
    if role_rank > member_rank {
        Ok(())
    } else {
        Err(Error::NotElevated)
    }
}

/// A request-local evaluation context: one actor against one scope, with
/// the resolved effective permission value memoized for the lifetime of the
/// evaluation. Never shared or cached across requests.
pub struct PermissionContext<'a> {
    pub server: &'a Server,
    pub channel: Option<&'a Channel>,
    pub member: &'a Member,
    pub resolved: Option<u64>,
}

impl<'a> PermissionContext<'a> {
    /// The scope is valid and any memoized value matches it.
    pub open spec fn wf(self) -> bool {
        &&& self.server.wf()
        &&& match self.channel {
            Some(c) => c.wf() && c.server@ == self.server.id@,
            None => true,
        }
        &&& match self.resolved {
            Some(v) => match self.channel {
                Some(c) => v == channel_permissions_spec(*self.server, *self.member, *c),
                None => v == server_permissions_spec(*self.server, *self.member),
            },
            None => true,
        }
    }

    /// Bind an evaluation to a server scope.
    pub fn new(server: &'a Server, member: &'a Member) -> (r: PermissionContext<'a>)
        requires
            server.wf(),
        ensures
            r.wf(),
            r.server == server,
            r.member == member,
            r.channel is None,
            r.resolved is None,
    {
        PermissionContext { server, channel: None, member, resolved: None }
    }

    /// Narrow the evaluation to a channel of the same server; any memoized
    /// server-scope value is discarded.
    pub fn channel(self, channel: &'a Channel) -> (r: PermissionContext<'a>)
        requires
            self.wf(),
            channel.wf(),
            channel.server@ == self.server.id@,
        ensures
            r.wf(),
            r.server == self.server,
            r.member == self.member,
            r.channel == Some(channel),
            r.resolved is None,
    {
        PermissionContext { server: self.server, channel: Some(channel), member: self.member, resolved: None }
    }

    /// The actor's effective rank in this scope.
    pub fn get_member_rank(&self) -> (r: i64)
        ensures
            r as int == member_rank_spec(*self.server, *self.member),
    {
        if string_eq(&self.member.user, &self.server.owner) {
            return i64::MIN;
        }
        let n = self.server.roles.len();
        let mut best: i64 = i64::MAX;
        let mut i: usize = 0;
        proof {
            assert(self.server.roles@.take(0) =~= Seq::<Role>::empty());
        }
        while i < n
            invariant
                i <= n,
                n == self.server.roles@.len(),
                self.member.user@ != self.server.owner@,
                best as int == min_rank_of(self.server.roles@.take(i as int), *self.member),
            decreases n - i,
        {
            let role = &self.server.roles[i];
            let held = contains_id(&self.member.roles, &role.id);
            proof {
                let pre = self.server.roles@.take(i as int + 1);
                assert(pre.drop_last() =~= self.server.roles@.take(i as int));
                assert(pre.last() == self.server.roles@[i as int]);
            }
            if held && role.rank < best {
                best = role.rank;
            }
            i = i + 1;
        }
        proof {
            assert(self.server.roles@.take(n as int) =~= self.server.roles@);
        }
        best
    }
}

/// Whether the list of role ids contains the given id.
pub fn contains_id(ids: &Vec<String>, id: &String) -> (r: bool)
    ensures
        r == exists|i: int| 0 <= i < ids@.len() && #[trigger] ids@[i]@ == id@,
{
    let n = ids.len();
    let mut i: usize = 0;
    while i < n
        invariant
            i <= n,
            n == ids@.len(),
            forall|j: int| 0 <= j < i ==> (#[trigger] ids@[j]@) != id@,
        decreases n - i,
    {
        if string_eq(&ids[i], id) {
            return true;
        }
        i = i + 1;
    }
    false
}

/// Whether two strings hold the same characters.
pub fn string_eq(a: &String, b: &String) -> (r: bool)
    ensures
        r == (a@ == b@),
{
    a.eq(b)
}

/// Folding one more layer after a prefix of layers is one fold step on the
/// prefix's result.
proof fn lemma_apply_layers_push(v: u64, s: Seq<Override>, o: Override)
    ensures
        apply_layers(v, s.push(o)) == apply_spec(apply_layers(v, s), o),
    decreases s.len(),
{
    if s.len() == 0 {
        assert(s.push(o)[0] == o);
        assert(s.push(o).skip(1) =~= Seq::<Override>::empty());
        assert(apply_layers(v, s.push(o)) == apply_layers(
            apply_spec(v, o),
            Seq::<Override>::empty(),
        ));
        assert(apply_layers(v, s) == v);
    } else {
        assert(s.push(o)[0] == s[0]);
        assert(s.push(o).skip(1) =~= s.skip(1).push(o));
        lemma_apply_layers_push(apply_spec(v, s[0]), s.skip(1), o);
    }
}

/// Compute the server-scope effective permission value, unmemoized.
fn resolve_server_value(server: &Server, member: &Member) -> (r: u64)
    requires
        server.wf(),
    ensures
        r == server_permissions_spec(*server, *member),
{
    if string_eq(&member.user, &server.owner) {
        return crate::permissions::ALL_PERMISSIONS;
    }
    let mut v: u64 = server.default_permissions;
    let n = server.roles.len();
    let mut idx: usize = n;
    proof {
        assert(server.roles@.skip(n as int) =~= Seq::<Role>::empty());
    }
    while idx > 0
        invariant
            idx <= n,
            n == server.roles@.len(),
            v == apply_layers(
                server.default_permissions,
                layers_rev(server.roles@.skip(idx as int), *member),
            ),
        decreases idx,
    {
        let role = &server.roles[idx - 1];
        let held = contains_id(&member.roles, &role.id);
        let ghost pre = server.roles@.skip(idx as int);
        let ghost cur = server.roles@.skip(idx as int - 1);
        proof {
            assert(cur[0] == server.roles@[idx as int - 1]);
            assert(cur.skip(1) =~= pre);
        }
        if held {
            let layer = role.permissions.into_override();
            proof {
                assert(layers_rev(cur, *member) =~= layers_rev(pre, *member).push(
                    override_of(role.permissions),
                ));
                lemma_apply_layers_push(
                    server.default_permissions,
                    layers_rev(pre, *member),
                    override_of(role.permissions),
                );
            }
            v = crate::permissions::apply(v, layer);
        } else {
            proof {
                assert(layers_rev(cur, *member) =~= layers_rev(pre, *member));
            }
        }
        idx = idx - 1;
    }
    proof {
        assert(server.roles@.skip(0) =~= server.roles@);
    }
    v
}

/// Resolve the actor's effective capabilities over the server scope,
/// memoizing the result inside the context.
pub fn calculate_server_permissions<'a>(query: &mut PermissionContext<'a>) -> (r: PermissionValue)
    requires
        old(query).wf(),
        old(query).channel is None,
    ensures
        r.value == server_permissions_spec(*old(query).server, *old(query).member),
        final(query).wf(),
        final(query).server == old(query).server,
        final(query).member == old(query).member,
        final(query).channel == old(query).channel,
        final(query).resolved == Some(r.value),
    {
    match query.resolved {
        Some(v) => PermissionValue { value: v },
        None => {
            let v = resolve_server_value(query.server, query.member);
            query.resolved = Some(v);
            PermissionValue { value: v }
        },
    }
}

/// Find the override the channel carries for a role, if any.
fn find_channel_override(channel: &Channel, id: &String) -> (r: Option<OverrideField>)
    requires
        channel.wf(),
    ensures
        r is Some <==> chan_has(*channel, id@),
        r matches Some(f) ==> override_of(f) == chan_override_of(*channel, id@),
{
    let n = channel.role_permissions.len();
    let mut i: usize = 0;
    while i < n
        invariant
            i <= n,
            n == channel.role_permissions@.len(),
            channel.wf(),
            forall|j: int| 0 <= j < i ==> (#[trigger] channel.role_permissions@[j].role@) != id@,
        decreases n - i,
    {
        if string_eq(&channel.role_permissions[i].role, id) {
            return Some(channel.role_permissions[i].permissions);
        }
        i = i + 1;
    }
    None
}

/// Resolve the actor's effective capabilities over the server+channel
/// scope, memoizing the result inside the context.
pub fn calculate_channel_permissions<'a>(query: &mut PermissionContext<'a>) -> (r: PermissionValue)
    requires
        old(query).wf(),
        old(query).channel is Some,
    ensures
        r.value == channel_permissions_spec(
            *old(query).server,
            *old(query).member,
            *old(query).channel.unwrap(),
        ),
        final(query).wf(),
        final(query).server == old(query).server,
        final(query).member == old(query).member,
        final(query).channel == old(query).channel,
        final(query).resolved == Some(r.value),
{
    let channel = match query.channel {
        Some(c) => c,
        None => unreached(),
    };
    match query.resolved {
        Some(v) => {
            return PermissionValue { value: v };
        },
        None => {},
    }
    if string_eq(&query.member.user, &query.server.owner) {
        let v = crate::permissions::ALL_PERMISSIONS;
        query.resolved = Some(v);
        return PermissionValue { value: v };
    }
    let mut v = resolve_server_value(query.server, query.member);
    let server = query.server;
    let member = query.member;
    let ghost base = v;
    let n = server.roles.len();
    let mut idx: usize = n;
    proof {
        assert(server.roles@.skip(n as int) =~= Seq::<Role>::empty());
    }
    while idx > 0
        invariant
            idx <= n,
            n == server.roles@.len(),
            channel.wf(),
            v == apply_layers(
                base,
                channel_layers_rev(server.roles@.skip(idx as int), *member, *channel),
            ),
        decreases idx,
    {
        let role = &server.roles[idx - 1];
        let held = contains_id(&member.roles, &role.id);
        let ghost pre = server.roles@.skip(idx as int);
        let ghost cur = server.roles@.skip(idx as int - 1);
        proof {
            assert(cur[0] == server.roles@[idx as int - 1]);
            assert(cur.skip(1) =~= pre);
        }
        if held {
            match find_channel_override(channel, &role.id) {
                Some(f) => {
                    proof {
                        assert(channel_layers_rev(cur, *member, *channel) =~= channel_layers_rev(
                            pre,
                            *member,
                            *channel,
                        ).push(chan_override_of(*channel, role.id@)));
                        lemma_apply_layers_push(
                            base,
                            channel_layers_rev(pre, *member, *channel),
                            chan_override_of(*channel, role.id@),
                        );
                    }
                    v = crate::permissions::apply(v, f.into_override());
                },
                None => {
                    proof {
                        assert(channel_layers_rev(cur, *member, *channel) =~= channel_layers_rev(
                            pre,
                            *member,
                            *channel,
                        ));
                    }
                },
            }
        } else {
            proof {
                assert(channel_layers_rev(cur, *member, *channel) =~= channel_layers_rev(
                    pre,
                    *member,
                    *channel,
                ));
            }
        }
        idx = idx - 1;
    }
    proof {
        assert(server.roles@.skip(0) =~= server.roles@);
    }
    match &channel.default_permissions {
        Some(f) => {
            v = crate::permissions::apply(v, f.into_override());
        },
        None => {},
    }
    query.resolved = Some(v);
    PermissionValue { value: v }
}

} // verus!
