//! Audit log query and enrichment: validated, filtered, cursor-bounded and
//! limit-clamped retrieval, newest first, plus extraction of the user ids
//! referenced by heterogeneous action payloads.

use vstd::prelude::*;
use crate::audit::{AuditLogEntry, AuditLogEntryAction, AuditLogStore};
use crate::ids::{id_lt, seq_char_lt};
use crate::model::{
    Error, Member, PartialChannel, PartialMember, PartialRole, PartialServer, User,
};
use crate::resolve::{contains_id, string_eq};

verus! {

/// The filter bundle a storage query receives: optional actor, optional
/// action-type tags, optional exclusive id cursors, optional limit.
#[derive(Clone, Debug)]
pub struct AuditLogQuery {
    pub user: Option<String>,
    pub kinds: Option<Vec<String>>,
    pub before: Option<String>,
    pub after: Option<String>,
    pub limit: Option<i64>,
}

/// The query parameters as a caller supplies them, together with the flag
/// that requests enrichment.
#[derive(Clone, Debug)]
pub struct OptionsAuditLogQuery {
    pub user: Option<String>,
    pub kinds: Option<Vec<String>>,
    pub before: Option<String>,
    pub after: Option<String>,
    pub limit: Option<i64>,
    pub include_users: Option<bool>,
}

/// Well-formed query parameters: ids have the fixed 26-character length and
/// a requested limit is at least one.
pub open spec fn valid_options(o: OptionsAuditLogQuery) -> bool {
    &&& match o.user {
        Some(u) => u@.len() == 26,
        None => true,
    }
    &&& match o.before {
        Some(b) => b@.len() == 26,
        None => true,
    }
    &&& match o.after {
        Some(a) => a@.len() == 26,
        None => true,
    }
    &&& match o.limit {
        Some(l) => l >= 1,
        None => true,
    }
}

impl OptionsAuditLogQuery {
    /// Reject malformed parameters: a cursor or actor id of the wrong
    /// length, or a limit below one.
    pub fn validate(&self) -> (r: Result<(), Error>)
        ensures
            r is Ok <==> valid_options(*self),
            r is Err ==> r == Err::<(), Error>(Error::FailedValidation),
    {
        let ok = (match &self.user {
            Some(u) => u.as_str().unicode_len() == 26,
            None => true,
        }) && (match &self.before {
            Some(b) => b.as_str().unicode_len() == 26,
            None => true,
        }) && (match &self.after {
            Some(a) => a.as_str().unicode_len() == 26,
            None => true,
        }) && (match &self.limit {
            Some(l) => *l >= 1i64,
            None => true,
        });
        if ok {
            Ok(())
        } else {
            Err(Error::FailedValidation)
        }
    }
}

/// The number of entries a query may return: the requested limit, absent
/// treated as 100, clamped into [1, 100].
pub open spec fn effective_limit(limit: Option<i64>) -> int {
    match limit {
        None => 100,
        Some(l) => if l > 100 {
            100
        } else if l < 1 {
            1
        } else {
            l as int
        },
    }
}

/// Whether the action's type tag is admitted by the filter; an absent
/// filter admits every tag.
pub open spec fn kind_matches(kinds: Option<Vec<String>>, action: AuditLogEntryAction) -> bool {
    match kinds {
        None => true,
        Some(ks) => exists|i: int| 0 <= i < ks@.len() && #[trigger] ks@[i]@ == action.tag_spec(),
    }
}

/// Whether one entry passes every filter of the query: owning server,
/// optional actor, optional type tags, and the exclusive `before` / `after`
/// id cursors.
pub open spec fn entry_matches(e: AuditLogEntry, server_id: Seq<char>, q: AuditLogQuery) -> bool {
    &&& e.server@ == server_id
    &&& match q.user {
        Some(u) => e.user@ == u@,
        None => true,
    }
    &&& kind_matches(q.kinds, e.action)
    &&& match q.before {
        Some(b) => seq_char_lt(e.id@, b@),
        None => true,
    }
    &&& match q.after {
        Some(a) => seq_char_lt(a@, e.id@),
        None => true,
    }
}

/// The matching entries in reverse storage order: entries stored ascending
/// by id come out newest (greatest id) first.
pub open spec fn filtered_desc(
    entries: Seq<AuditLogEntry>,
    server_id: Seq<char>,
    q: AuditLogQuery,
) -> Seq<AuditLogEntry>
    decreases entries.len(),
{
    if entries.len() == 0 {
        Seq::empty()
    } else {
        filtered_desc(entries.skip(1), server_id, q) + (if entry_matches(entries[0], server_id, q) {
            seq![entries[0]]
        } else {
            Seq::empty()
        })
    }
}

/// At most the first `n` elements of a sequence.
pub open spec fn take_at_most(s: Seq<AuditLogEntry>, n: int) -> Seq<AuditLogEntry> {
    if n >= s.len() {
        s
    } else {
        s.take(n)
    }
}

/// The reverse-order filter splits at any index: entries above it come out
/// first, entries below it after.
proof fn lemma_filtered_desc_split(
    entries: Seq<AuditLogEntry>,
    server_id: Seq<char>,
    q: AuditLogQuery,
    k: int,
)
    requires
        0 <= k <= entries.len(),
    ensures
        filtered_desc(entries, server_id, q) == filtered_desc(entries.skip(k), server_id, q)
            + filtered_desc(entries.take(k), server_id, q),
    decreases k,
{
    if k == 0 {
        assert(entries.skip(0) =~= entries);
        assert(entries.take(0) =~= Seq::<AuditLogEntry>::empty());
        assert(filtered_desc(entries, server_id, q) =~= filtered_desc(entries, server_id, q)
            + filtered_desc(Seq::empty(), server_id, q));
    } else {
        assert(entries.len() > 0);
        lemma_filtered_desc_split(entries.skip(1), server_id, q, k - 1);
        assert(entries.skip(1).skip(k - 1) =~= entries.skip(k));
        assert(entries.skip(1).take(k - 1) =~= entries.take(k).skip(1));
        assert(entries.take(k)[0] == entries[0]);
        assert(entries.take(k).len() == k);
        assert(filtered_desc(entries, server_id, q) =~= filtered_desc(entries.skip(k), server_id, q)
            + filtered_desc(entries.take(k), server_id, q));
    }
}

/// Retrieve the entries of one server that pass the query's filters, newest
/// first, capped to the clamped limit.
pub fn get_server_audit_logs(store: &AuditLogStore, server_id: &String, query: &AuditLogQuery)
    -> (r: Vec<AuditLogEntry>)
    ensures
        same_entries(
            r@,
            take_at_most(
                filtered_desc(store.entries@, server_id@, *query),
                effective_limit(query.limit),
            ),
        ),
{
    let lim: usize = match &query.limit {
        None => 100,
        Some(l) => if *l > 100 {
            100
        } else if *l < 1 {
            1
        } else {
            *l as usize
        },
    };
    let n = store.entries.len();
    let mut out: Vec<AuditLogEntry> = Vec::new();
    let mut idx: usize = n;
    proof {
        assert(store.entries@.skip(n as int) =~= Seq::<AuditLogEntry>::empty());
    }
    while idx > 0 && out.len() < lim
        invariant
            idx <= n,
            n == store.entries@.len(),
            lim == effective_limit(query.limit),
            out@.len() <= lim,
            out@.len() < lim ==> same_entries(
                out@,
                filtered_desc(store.entries@.skip(idx as int), server_id@, *query),
            ),
            out@.len() == lim ==> same_entries(
                out@,
                take_at_most(
                    filtered_desc(store.entries@.skip(idx as int), server_id@, *query),
                    lim as int,
                ),
            ),
        decreases idx,
    {
        let e = &store.entries[idx - 1];
        let ghost pre = store.entries@.skip(idx as int);
        let ghost cur = store.entries@.skip(idx as int - 1);
        proof {
            assert(cur[0] == store.entries@[idx as int - 1]);
            assert(cur.skip(1) =~= pre);
        }
        let m = matches_query(e, server_id, query);
        if m {
            out.push(entry_clone(e));
            proof {
                let fc = filtered_desc(cur, server_id@, *query);
                let fp = filtered_desc(pre, server_id@, *query);
                assert(fc =~= fp.push(store.entries@[idx as int - 1]));
                assert(same_entries(out@, fc)) by {
                    assert(forall|k: int| 0 <= k < fp.len() ==> fc[k] == fp[k]);
                }
                if out@.len() == lim {
                    assert(same_entries(out@, take_at_most(fc, lim as int)));
                }
            }
        } else {
            proof {
                assert(filtered_desc(cur, server_id@, *query) =~= filtered_desc(
                    pre,
                    server_id@,
                    *query,
                ));
            }
        }
        idx = idx - 1;
    }
    proof {
        let full = filtered_desc(store.entries@, server_id@, *query);
        let part = filtered_desc(store.entries@.skip(idx as int), server_id@, *query);
        if idx == 0 {
            assert(store.entries@.skip(0) =~= store.entries@);
        } else {
            lemma_filtered_desc_split(store.entries@, server_id@, *query, idx as int);
            assert(out@.len() == lim);
            assert(part.len() >= lim);
            assert(full.take(lim as int) =~= part.take(lim as int));
            assert(forall|k: int| 0 <= k < lim ==> part.take(lim as int)[k] == part[k]);
            assert(same_entries(out@, take_at_most(full, lim as int)));
        }
    }
    out
}

/// Whether one entry passes every filter of the query.
fn matches_query(e: &AuditLogEntry, server_id: &String, q: &AuditLogQuery) -> (r: bool)
    ensures
        r == entry_matches(*e, server_id@, *q),
{
    if !string_eq(&e.server, server_id) {
        return false;
    }
    match &q.user {
        Some(u) => {
            if !string_eq(&e.user, u) {
                return false;
            }
        },
        None => {},
    }
    match &q.kinds {
        Some(ks) => {
            let tag = e.action.tag();
            let mut found = false;
            let n = ks.len();
            let mut i: usize = 0;
            while i < n
                invariant
                    i <= n,
                    n == ks@.len(),
                    tag@ == e.action.tag_spec(),
                    found ==> exists|j: int|
                        0 <= j < n && #[trigger] ks@[j]@ == e.action.tag_spec(),
                    !found ==> forall|j: int|
                        0 <= j < i ==> (#[trigger] ks@[j]@) != e.action.tag_spec(),
                decreases n - i,
            {
                if str_eq(ks[i].as_str(), tag) {
                    found = true;
                    proof {
                        assert(ks@[i as int]@ == e.action.tag_spec());
                    }
                }
                i = i + 1;
            }
            if !found {
                return false;
            }
            proof {
                assert(kind_matches(q.kinds, e.action));
            }
        },
        None => {},
    }
    match &q.before {
        Some(b) => {
            if !id_lt(e.id.as_str(), b.as_str()) {
                return false;
            }
        },
        None => {},
    }
    match &q.after {
        Some(a) => {
            if !id_lt(a.as_str(), e.id.as_str()) {
                return false;
            }
        },
        None => {},
    }
    true
}

/// Whether two string slices hold the same characters.
fn str_eq(a: &str, b: &str) -> (r: bool)
    ensures
        r == (a@ == b@),
{
    let sa = a.to_owned();
    let sb = b.to_owned();
    sa.eq(&sb)
}

/// Two action payloads carry the same content, compared through views.
pub open spec fn same_action(a: AuditLogEntryAction, b: AuditLogEntryAction) -> bool {
    match (a, b) {
        (
            AuditLogEntryAction::ChannelEdit { channel: c1, remove: r1, partial: p1 },
            AuditLogEntryAction::ChannelEdit { channel: c2, remove: r2, partial: p2 },
        ) => c1@ == c2@ && r1@ == r2@ && p1 == p2,
        (
            AuditLogEntryAction::MemberEdit { user: u1, remove: r1, partial: p1 },
            AuditLogEntryAction::MemberEdit { user: u2, remove: r2, partial: p2 },
        ) => u1@ == u2@ && r1@ == r2@ && p1.nickname == p2.nickname && p1.timeout_until_ms
            == p2.timeout_until_ms && (match (p1.roles, p2.roles) {
            (Some(v1), Some(v2)) => v1@ == v2@,
            (None, None) => true,
            _ => false,
        }),
        (
            AuditLogEntryAction::ServerEdit { remove: r1, partial: p1 },
            AuditLogEntryAction::ServerEdit { remove: r2, partial: p2 },
        ) => r1@ == r2@ && p1 == p2,
        (
            AuditLogEntryAction::RoleEdit { role: o1, remove: r1, partial: p1 },
            AuditLogEntryAction::RoleEdit { role: o2, remove: r2, partial: p2 },
        ) => o1@ == o2@ && r1@ == r2@ && p1 == p2,
        (
            AuditLogEntryAction::RolesReorder { positions: p1 },
            AuditLogEntryAction::RolesReorder { positions: p2 },
        ) => p1@ == p2@,
        _ => a == b,
    }
}

/// Two entries carry the same content, compared through views.
pub open spec fn same_entry(a: AuditLogEntry, b: AuditLogEntry) -> bool {
    &&& a.id@ == b.id@
    &&& a.expires_at == b.expires_at
    &&& a.server@ == b.server@
    &&& a.reason == b.reason
    &&& a.user@ == b.user@
    &&& same_action(a.action, b.action)
}

/// Two entry sequences carry the same content, position by position.
pub open spec fn same_entries(a: Seq<AuditLogEntry>, b: Seq<AuditLogEntry>) -> bool {
    a.len() == b.len() && forall|i: int| 0 <= i < a.len() ==> same_entry(#[trigger] a[i], b[i])
}

/// Clone one audit log entry, field by field.
fn entry_clone(e: &AuditLogEntry) -> (r: AuditLogEntry)
    ensures
        same_entry(r, *e),
        r.id@ == e.id@,
{
    AuditLogEntry {
        id: e.id.clone(),
        expires_at: e.expires_at,
        server: e.server.clone(),
        reason: match &e.reason {
            Some(s) => Some(s.clone()),
            None => None,
        },
        user: e.user.clone(),
        action: action_clone(&e.action),
    }
}

/// Clone one action payload, field by field.
fn action_clone(a: &AuditLogEntryAction) -> (r: AuditLogEntryAction)
    ensures
        same_action(r, *a),
{
    match a {
        AuditLogEntryAction::MessageDelete { author, channel } => AuditLogEntryAction::MessageDelete {
            author: author.clone(),
            channel: channel.clone(),
        },
        AuditLogEntryAction::MessageBulkDelete { channel, count } => AuditLogEntryAction::MessageBulkDelete {
            channel: channel.clone(),
            count: *count,
        },
        AuditLogEntryAction::BanCreate { user } => AuditLogEntryAction::BanCreate {
            user: user.clone(),
        },
        AuditLogEntryAction::BanDelete { user } => AuditLogEntryAction::BanDelete {
            user: user.clone(),
        },
        AuditLogEntryAction::ChannelCreate { channel } => AuditLogEntryAction::ChannelCreate {
            channel: channel.clone(),
        },
        AuditLogEntryAction::ChannelEdit { channel, remove, partial } => AuditLogEntryAction::ChannelEdit {
            channel: channel.clone(),
            remove: copy_vec(remove),
            partial: PartialChannel {
                name: clone_opt_string(&partial.name),
                description: clone_opt_string(&partial.description),
                nsfw: partial.nsfw,
            },
        },
        AuditLogEntryAction::ChannelRolePermissionsEdit { channel, role, permissions } => AuditLogEntryAction::ChannelRolePermissionsEdit {
            channel: channel.clone(),
            role: role.clone(),
            permissions: *permissions,
        },
        AuditLogEntryAction::ChannelDelete { channel, name } => AuditLogEntryAction::ChannelDelete {
            channel: channel.clone(),
            name: name.clone(),
        },
        AuditLogEntryAction::MemberEdit { user, remove, partial } => AuditLogEntryAction::MemberEdit {
            user: user.clone(),
            remove: copy_vec(remove),
            partial: PartialMember {
                nickname: clone_opt_string(&partial.nickname),
                roles: match &partial.roles {
                    Some(rs) => Some(clone_string_vec(rs)),
                    None => None,
                },
                timeout_until_ms: partial.timeout_until_ms,
            },
        },
        AuditLogEntryAction::MemberKick { user } => AuditLogEntryAction::MemberKick {
            user: user.clone(),
        },
        AuditLogEntryAction::ServerEdit { remove, partial } => AuditLogEntryAction::ServerEdit {
            remove: copy_vec(remove),
            partial: PartialServer {
                name: clone_opt_string(&partial.name),
                description: clone_opt_string(&partial.description),
                default_permissions: partial.default_permissions,
            },
        },
        AuditLogEntryAction::RoleEdit { role, remove, partial } => AuditLogEntryAction::RoleEdit {
            role: role.clone(),
            remove: copy_vec(remove),
            partial: PartialRole {
                name: clone_opt_string(&partial.name),
                permissions: partial.permissions,
                rank: partial.rank,
            },
        },
        AuditLogEntryAction::RoleCreate { role } => AuditLogEntryAction::RoleCreate {
            role: role.clone(),
        },
        AuditLogEntryAction::RoleDelete { role, name } => AuditLogEntryAction::RoleDelete {
            role: role.clone(),
            name: name.clone(),
        },
        AuditLogEntryAction::RolesReorder { positions } => AuditLogEntryAction::RolesReorder {
            positions: clone_string_vec(positions),
        },
        AuditLogEntryAction::InviteDelete { invite, channel } => AuditLogEntryAction::InviteDelete {
            invite: invite.clone(),
            channel: channel.clone(),
        },
        AuditLogEntryAction::WebhookCreate { webhook, channel } => AuditLogEntryAction::WebhookCreate {
            webhook: webhook.clone(),
            channel: channel.clone(),
        },
        AuditLogEntryAction::WebhookDelete { webhook, name, channel } => AuditLogEntryAction::WebhookDelete {
            webhook: webhook.clone(),
            name: name.clone(),
            channel: channel.clone(),
        },
        AuditLogEntryAction::EmojiDelete { emoji, name } => AuditLogEntryAction::EmojiDelete {
            emoji: emoji.clone(),
            name: name.clone(),
        },
    }
}

/// Copy the elements of a vector of plain copyable values.
fn copy_vec<T: Copy>(v: &Vec<T>) -> (r: Vec<T>)
    ensures
        r@ == v@,
{
    let n = v.len();
    let mut r: Vec<T> = Vec::new();
    let mut i: usize = 0;
    while i < n
        invariant
            i <= n,
            n == v@.len(),
            r@ =~= v@.take(i as int),
        decreases n - i,
    {
        r.push(v[i]);
        proof {
            assert(r@ =~= v@.take(i as int + 1));
        }
        i = i + 1;
    }
    proof {
        assert(v@.take(n as int) =~= v@);
    }
    r
}

/// Clone a vector of strings, character for character.
fn clone_string_vec(v: &Vec<String>) -> (r: Vec<String>)
    ensures
        r@ == v@,
{
    let n = v.len();
    let mut r: Vec<String> = Vec::new();
    let mut i: usize = 0;
    while i < n
        invariant
            i <= n,
            n == v@.len(),
            r@ =~= v@.take(i as int),
        decreases n - i,
    {
        r.push(v[i].clone());
        proof {
            assert(r@ =~= v@.take(i as int + 1));
        }
        i = i + 1;
    }
    proof {
        assert(v@.take(n as int) =~= v@);
    }
    r
}

/// Clone an optional string.
fn clone_opt_string(o: &Option<String>) -> (r: Option<String>)
    ensures
        r == *o,
{
    match o {
        Some(s) => Some(s.clone()),
        None => None,
    }
}

/// Whether the id list contains the given id, in spec form.
pub open spec fn ids_contain(ids: Seq<String>, id: Seq<char>) -> bool {
    exists|i: int| 0 <= i < ids.len() && #[trigger] ids[i]@ == id
}

/// The set of user ids referenced by a batch of entries: every entry's
/// acting user, plus the target user its action payload names, if any.
pub open spec fn referenced_set(entries: Seq<AuditLogEntry>) -> Set<Seq<char>>
    decreases entries.len(),
{
    if entries.len() == 0 {
        Set::empty()
    } else {
        let rest = referenced_set(entries.drop_last()).insert(entries.last().user@);
        match entries.last().action.referenced_user() {
            Some(u) => rest.insert(u),
            None => rest,
        }
    }
}

/// The target user named by the action's payload, if any; the executable
/// counterpart of [`AuditLogEntryAction::referenced_user`].
pub fn referenced_user_field(a: &AuditLogEntryAction) -> (r: Option<&String>)
    ensures
        match r {
            Some(s) => a.referenced_user() == Some(s@),
            None => a.referenced_user() is None,
        },
{
    match a {
        AuditLogEntryAction::MessageDelete { author, .. } => Some(author),
        AuditLogEntryAction::MessageBulkDelete { .. } => None,
        AuditLogEntryAction::BanCreate { user } => Some(user),
        AuditLogEntryAction::BanDelete { user } => Some(user),
        AuditLogEntryAction::ChannelCreate { .. } => None,
        AuditLogEntryAction::ChannelEdit { .. } => None,
        AuditLogEntryAction::ChannelRolePermissionsEdit { .. } => None,
        AuditLogEntryAction::ChannelDelete { .. } => None,
        AuditLogEntryAction::MemberEdit { user, .. } => Some(user),
        AuditLogEntryAction::MemberKick { user } => Some(user),
        AuditLogEntryAction::ServerEdit { .. } => None,
        AuditLogEntryAction::RoleEdit { .. } => None,
        AuditLogEntryAction::RoleCreate { .. } => None,
        AuditLogEntryAction::RoleDelete { .. } => None,
        AuditLogEntryAction::RolesReorder { .. } => None,
        AuditLogEntryAction::InviteDelete { .. } => None,
        AuditLogEntryAction::WebhookCreate { .. } => None,
        AuditLogEntryAction::WebhookDelete { .. } => None,
        AuditLogEntryAction::EmojiDelete { .. } => None,
    }
}

/// Collect the referenced user ids of a batch of entries, each exactly
/// once, ready for the two bulk lookups that resolve them to user and
/// member records.
pub fn collect_referenced_users(entries: &Vec<AuditLogEntry>) -> (r: Vec<String>)
    ensures
        forall|i: int, j: int| 0 <= i < j < r@.len() ==> (#[trigger] r@[i]@) != (#[trigger] r@[j]@),
        forall|u: Seq<char>| #[trigger] referenced_set(entries@).contains(u) <==> ids_contain(r@, u),
{
    let n = entries.len();
    let mut out: Vec<String> = Vec::new();
    let mut i: usize = 0;
    proof {
        assert(entries@.take(0) =~= Seq::<AuditLogEntry>::empty());
    }
    while i < n
        invariant
            i <= n,
            n == entries@.len(),
            forall|x: int, y: int|
                0 <= x < y < out@.len() ==> (#[trigger] out@[x]@) != (#[trigger] out@[y]@),
            forall|u: Seq<char>|
                #[trigger] referenced_set(entries@.take(i as int)).contains(u) <==> ids_contain(
                    out@,
                    u,
                ),
        decreases n - i,
    {
        let e = &entries[i];
        proof {
            let pre = entries@.take(i as int + 1);
            assert(pre.drop_last() =~= entries@.take(i as int));
            assert(pre.last() == entries@[i as int]);
        }
        let ghost out0 = out@;
        push_unique(&mut out, &e.user);
        let ghost out1 = out@;
        let target = referenced_user_field(&e.action);
        match target {
            Some(u) => {
                push_unique(&mut out, u);
            },
            None => {},
        }
        proof {
            let last = entries@[i as int];
            let s_old = referenced_set(entries@.take(i as int));
            let s_new = referenced_set(entries@.take(i as int + 1));
            assert forall|u: Seq<char>| #[trigger] s_new.contains(u) <==> ids_contain(out@, u) by {
                assert(ids_contain(out1, u) <==> (ids_contain(out0, u) || u == last.user@));
                match target {
                    Some(t) => {
                        assert(last.action.referenced_user() == Some(t@));
                        assert(ids_contain(out@, u) <==> (ids_contain(out1, u) || u == t@));
                    },
                    None => {
                        assert(last.action.referenced_user() is None);
                        assert(out@ == out1);
                    },
                }
            }
        }
        i = i + 1;
    }
    proof {
        assert(entries@.take(n as int) =~= entries@);
    }
    out
}

/// Append the id unless an equal id is already present.
fn push_unique(out: &mut Vec<String>, id: &String)
    requires
        forall|x: int, y: int|
            0 <= x < y < old(out)@.len() ==> (#[trigger] old(out)@[x]@) != (
            #[trigger] old(out)@[y]@),
    ensures
        forall|x: int, y: int|
            0 <= x < y < final(out)@.len() ==> (#[trigger] final(out)@[x]@) != (
            #[trigger] final(out)@[y]@),
        forall|u: Seq<char>|
            ids_contain(final(out)@, u) <==> (ids_contain(old(out)@, u) || u == id@),
{
    if !contains_id(out, id) {
        let owned = id.clone();
        out.push(owned);
        proof {
            assert forall|u: Seq<char>|
                ids_contain(out@, u) <==> (ids_contain(old(out)@, u) || u == id@) by {
                assert(out@.len() == old(out)@.len() + 1);
                assert(out@[old(out)@.len() as int]@ == id@);
                if ids_contain(old(out)@, u) {
                    let w = choose|k: int| 0 <= k < old(out)@.len() && old(out)@[k]@ == u;
                    assert(out@[w]@ == u);
                }
            }
        }
    }
}

/// The shape a query's caller receives: a plain list when enrichment was
/// not requested, or the entries together with the resolved user and member
/// records when it was.
pub enum AuditLogQueryResponse {
    AuditLogs(Vec<AuditLogEntry>),
    AuditLogsAndUsers { audit_logs: Vec<AuditLogEntry>, users: Vec<User>, members: Vec<Member> },
}

/// Bundle retrieved entries with the outcome of the two bulk lookups, when
/// enrichment was requested.
pub fn assemble_response(
    audit_logs: Vec<AuditLogEntry>,
    enrichment: Option<(Vec<User>, Vec<Member>)>,
) -> (r: AuditLogQueryResponse)
    ensures
        enrichment is None ==> r == AuditLogQueryResponse::AuditLogs(audit_logs),
        enrichment matches Some(e) ==> r == (AuditLogQueryResponse::AuditLogsAndUsers {
            audit_logs,
            users: e.0,
            members: e.1,
        }),
{
    match enrichment {
        None => AuditLogQueryResponse::AuditLogs(audit_logs),
        Some((users, members)) => AuditLogQueryResponse::AuditLogsAndUsers {
            audit_logs,
            users,
            members,
        },
    }
}

} // verus!
