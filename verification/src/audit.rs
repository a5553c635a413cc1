//! Audit log entry lifecycle: construction of immutable, time-ordered,
//! TTL-bounded records of privileged actions, and the storage model they are
//! persisted into. Construction returns the entry synchronously; durability
//! is attempted separately and its failure never reaches the caller.

use vstd::prelude::*;
use crate::ids::{
    encode_ulid, id_lt, lemma_seq_char_lt_trans, lemma_seq_char_lt_trichotomy, seq_char_lt,
    ulid_id_chars, RAND_MOD, TIME_MOD,
};
use crate::permissions::OverrideField;
use crate::model::{
    FieldsChannel, FieldsMember, FieldsRole, FieldsServer, PartialChannel, PartialMember,
    PartialRole, PartialServer,
};
use crate::resolve::string_eq;

verus! {

/// One privileged mutation, described by the minimal identifiers and deltas
/// needed to audit it. A closed set: enrichment handles every variant
/// explicitly.
#[derive(Clone, Debug)]
pub enum AuditLogEntryAction {
    MessageDelete { author: String, channel: String },
    MessageBulkDelete { channel: String, count: usize },
    BanCreate { user: String },
    BanDelete { user: String },
    ChannelCreate { channel: String },
    ChannelEdit { channel: String, remove: Vec<FieldsChannel>, partial: PartialChannel },
    ChannelRolePermissionsEdit { channel: String, role: String, permissions: OverrideField },
    ChannelDelete { channel: String, name: String },
    MemberEdit { user: String, remove: Vec<FieldsMember>, partial: PartialMember },
    MemberKick { user: String },
    ServerEdit { remove: Vec<FieldsServer>, partial: PartialServer },
    RoleEdit { role: String, remove: Vec<FieldsRole>, partial: PartialRole },
    RoleCreate { role: String },
    RoleDelete { role: String, name: String },
    RolesReorder { positions: Vec<String> },
    InviteDelete { invite: String, channel: String },
    WebhookCreate { webhook: String, channel: String },
    WebhookDelete { webhook: String, name: String, channel: String },
    EmojiDelete { emoji: String, name: String },
}

/// A record of one privileged mutation: unique sortable id, expiry
/// timestamp in milliseconds, owning server, optional free-text reason,
/// acting user and the action itself. Created once, immutable thereafter.
#[derive(Clone, Debug)]
pub struct AuditLogEntry {
    pub id: String,
    pub expires_at: u64,
    pub server: String,
    pub reason: Option<String>,
    pub user: String,
    pub action: AuditLogEntryAction,
}

impl AuditLogEntryAction {
    /// The user id referenced by the action's payload, beyond the actor:
    /// the target of a ban, kick or member edit, or the author of a deleted
    /// message. Every variant is handled explicitly.
    pub open spec fn referenced_user(self) -> Option<Seq<char>> {
        match self {
            AuditLogEntryAction::MessageDelete { author, .. } => Some(author@),
            AuditLogEntryAction::MessageBulkDelete { .. } => None,
            AuditLogEntryAction::BanCreate { user } => Some(user@),
            AuditLogEntryAction::BanDelete { user } => Some(user@),
            AuditLogEntryAction::ChannelCreate { .. } => None,
            AuditLogEntryAction::ChannelEdit { .. } => None,
            AuditLogEntryAction::ChannelRolePermissionsEdit { .. } => None,
            AuditLogEntryAction::ChannelDelete { .. } => None,
            AuditLogEntryAction::MemberEdit { user, .. } => Some(user@),
            AuditLogEntryAction::MemberKick { user } => Some(user@),
            AuditLogEntryAction::ServerEdit { .. } => None,
            AuditLogEntryAction::RoleEdit { .. } => None,
            AuditLogEntryAction::RoleCreate { .. } => None,
            AuditLogEntryAction::RoleDelete { .. } => None,
            AuditLogEntryAction::RolesReorder { .. } => None,
            AuditLogEntryAction::InviteDelete { .. } => None,
            AuditLogEntryAction::WebhookCreate { .. } => None,
            AuditLogEntryAction::WebhookDelete { .. } => None,
            AuditLogEntryAction::EmojiDelete { .. } => None,
        }
    }

    /// The action-type tag of this variant, in spec form.
    pub open spec fn tag_spec(self) -> Seq<char> {
        match self {
            AuditLogEntryAction::MessageDelete { .. } => "MessageDelete"@,
            AuditLogEntryAction::MessageBulkDelete { .. } => "MessageBulkDelete"@,
            AuditLogEntryAction::BanCreate { .. } => "BanCreate"@,
            AuditLogEntryAction::BanDelete { .. } => "BanDelete"@,
            AuditLogEntryAction::ChannelCreate { .. } => "ChannelCreate"@,
            AuditLogEntryAction::ChannelEdit { .. } => "ChannelEdit"@,
            AuditLogEntryAction::ChannelRolePermissionsEdit { .. } => "ChannelRolePermissionsEdit"@,
            AuditLogEntryAction::ChannelDelete { .. } => "ChannelDelete"@,
            AuditLogEntryAction::MemberEdit { .. } => "MemberEdit"@,
            AuditLogEntryAction::MemberKick { .. } => "MemberKick"@,
            AuditLogEntryAction::ServerEdit { .. } => "ServerEdit"@,
            AuditLogEntryAction::RoleEdit { .. } => "RoleEdit"@,
            AuditLogEntryAction::RoleCreate { .. } => "RoleCreate"@,
            AuditLogEntryAction::RoleDelete { .. } => "RoleDelete"@,
            AuditLogEntryAction::RolesReorder { .. } => "RolesReorder"@,
            AuditLogEntryAction::InviteDelete { .. } => "InviteDelete"@,
            AuditLogEntryAction::WebhookCreate { .. } => "WebhookCreate"@,
            AuditLogEntryAction::WebhookDelete { .. } => "WebhookDelete"@,
            AuditLogEntryAction::EmojiDelete { .. } => "EmojiDelete"@,
        }
    }

    /// The action-type tag of this variant; what a query's type filter
    /// matches against.
    pub fn tag(&self) -> (r: &'static str)
        ensures
            r@ == self.tag_spec(),
    {
        match self {
            AuditLogEntryAction::MessageDelete { .. } => "MessageDelete",
            AuditLogEntryAction::MessageBulkDelete { .. } => "MessageBulkDelete",
            AuditLogEntryAction::BanCreate { .. } => "BanCreate",
            AuditLogEntryAction::BanDelete { .. } => "BanDelete",
            AuditLogEntryAction::ChannelCreate { .. } => "ChannelCreate",
            AuditLogEntryAction::ChannelEdit { .. } => "ChannelEdit",
            AuditLogEntryAction::ChannelRolePermissionsEdit { .. } => "ChannelRolePermissionsEdit",
            AuditLogEntryAction::ChannelDelete { .. } => "ChannelDelete",
            AuditLogEntryAction::MemberEdit { .. } => "MemberEdit",
            AuditLogEntryAction::MemberKick { .. } => "MemberKick",
            AuditLogEntryAction::ServerEdit { .. } => "ServerEdit",
            AuditLogEntryAction::RoleEdit { .. } => "RoleEdit",
            AuditLogEntryAction::RoleCreate { .. } => "RoleCreate",
            AuditLogEntryAction::RoleDelete { .. } => "RoleDelete",
            AuditLogEntryAction::RolesReorder { .. } => "RolesReorder",
            AuditLogEntryAction::InviteDelete { .. } => "InviteDelete",
            AuditLogEntryAction::WebhookCreate { .. } => "WebhookCreate",
            AuditLogEntryAction::WebhookDelete { .. } => "WebhookDelete",
            AuditLogEntryAction::EmojiDelete { .. } => "EmojiDelete",
        }
    }
}

/// Relies on ulid::Ulid::generate: a fresh identifier drawn from the system
/// clock and a random source. Ulid::timestamp_ms returns the 48 most
/// significant of the 128 bits, Ulid::random the 80 least significant, so
/// the timestamp is below 2^48 and the random component below 2^80; nothing
/// more is assumed of either.
#[verifier::external_body]
fn fresh_ulid_parts() -> (r: (u64, u128))
    ensures
        r.0 < TIME_MOD,
        r.1 < RAND_MOD,
{
    let u = ulid::Ulid::generate();
    (u.timestamp_ms(), u.random())
}

/// Assemble the immutable audit log entry for the given creation instant:
/// the id encodes the timestamp and the random tie-break, and the expiry is
/// exactly the creation time plus the retention duration.
pub fn build_entry(
    action: AuditLogEntryAction,
    server: String,
    reason: Option<String>,
    user: String,
    ts_ms: u64,
    random: u128,
    retention_secs: u64,
) -> (r: AuditLogEntry)
    requires
        ts_ms < TIME_MOD,
        random < RAND_MOD,
        ts_ms + retention_secs * 1000 <= u64::MAX,
    ensures
        r.id@ == ulid_id_chars(ts_ms, random),
        r.id@.len() == 26,
        r.expires_at == ts_ms + retention_secs * 1000,
        r.server == server,
        r.reason == reason,
        r.user == user,
        r.action == action,
{
    let id = encode_ulid(ts_ms, random);
    let expires_at = ts_ms + retention_secs * 1000;
    AuditLogEntry { id, expires_at, server, reason, user, action }
}

impl AuditLogEntryAction {
    /// Construct the audit log entry for this action at a fresh creation
    /// instant and return it to the caller synchronously, before any
    /// durability attempt: persistence is a separate, best-effort step that
    /// can neither change nor fail this result.
    pub fn insert(self, server: String, reason: Option<String>, user: String, retention_secs: u64)
        -> (r: AuditLogEntry)
        requires
            retention_secs * 1000 + TIME_MOD <= u64::MAX,
        ensures
            r.server == server,
            r.reason == reason,
            r.user == user,
            r.action == self,
            r.id@.len() == 26,
            exists|ts: u64, random: u128|
                ts < TIME_MOD && random < RAND_MOD && r.id@ == #[trigger] ulid_id_chars(
                    ts,
                    random,
                ) && r.expires_at == ts + retention_secs * 1000,
    {
        let (ts_ms, random) = fresh_ulid_parts();
        let r = build_entry(self, server, reason, user, ts_ms, random, retention_secs);
        proof {
            assert(r.id@ == ulid_id_chars(ts_ms, random));
        }
        r
    }
}

/// Why a persistence attempt failed.
#[derive(Clone, Copy, Debug, PartialEq, Eq, Structural)]
pub enum StorageError {
    /// The storage backend was unavailable.
    Unavailable,
    /// An entry with the same id is already stored.
    DuplicateId,
}

/// The durable audit log storage model: entries kept sorted strictly
/// ascending by id, and an availability flag under which persistence
/// failures are injected. A failed insert leaves the store unchanged and is
/// reported only through its own result, never to the caller of the
/// triggering mutation.
pub struct AuditLogStore {
    pub entries: Vec<AuditLogEntry>,
    pub healthy: bool,
}

impl AuditLogStore {
    /// Entries are sorted strictly ascending by id; ids are unique.
    pub open spec fn wf(self) -> bool {
        forall|i: int, j: int|
            0 <= i < j < self.entries@.len() ==> seq_char_lt(
                (#[trigger] self.entries@[i]).id@,
                (#[trigger] self.entries@[j]).id@,
            )
    }

    /// An entry with this id is stored.
    pub open spec fn has_id(self, id: Seq<char>) -> bool {
        exists|i: int| 0 <= i < self.entries@.len() && (#[trigger] self.entries@[i]).id@ == id
    }

    /// An empty, available store.
    pub fn new() -> (r: AuditLogStore)
        ensures
            r.wf(),
            r.entries@.len() == 0,
            r.healthy,
    {
        AuditLogStore { entries: Vec::new(), healthy: true }
    }

    /// Attempt to persist one entry, exactly once. Succeeds if and only if
    /// the store is available and no entry with the same id is stored; any
    /// failure leaves the stored entries unchanged.
    pub fn insert_audit_log_entry(&mut self, entry: AuditLogEntry) -> (r: Result<
        (),
        StorageError,
    >)
        requires
            old(self).wf(),
        ensures
            final(self).wf(),
            final(self).healthy == old(self).healthy,
            r is Ok <==> (old(self).healthy && !old(self).has_id(entry.id@)),
            !old(self).healthy ==> r == Err::<(), StorageError>(StorageError::Unavailable),
            old(self).healthy && old(self).has_id(entry.id@) ==> r == Err::<(), StorageError>(
                StorageError::DuplicateId,
            ),
            r is Err ==> final(self).entries == old(self).entries,
            r is Ok ==> exists|k: int|
                0 <= k <= old(self).entries@.len() && final(self).entries@ == old(
                    self,
                ).entries@.insert(k, entry),
    {
        if !self.healthy {
            return Err(StorageError::Unavailable);
        }
        let n = self.entries.len();
        let mut i: usize = 0;
        while i < n && id_lt(self.entries[i].id.as_str(), entry.id.as_str())
            invariant
                i <= n,
                n == self.entries@.len(),
                forall|j: int|
                    0 <= j < i ==> seq_char_lt((#[trigger] self.entries@[j]).id@, entry.id@),
            decreases n - i,
        {
            i = i + 1;
        }
        if i < n {
            if string_eq(&self.entries[i].id, &entry.id) {
                return Err(StorageError::DuplicateId);
            }
            proof {
                lemma_seq_char_lt_trichotomy(entry.id@, self.entries@[i as int].id@);
                assert(seq_char_lt(entry.id@, self.entries@[i as int].id@));
            }
        }
        proof {
            let es = self.entries@;
            assert forall|j: int| i <= j < es.len() implies seq_char_lt(
                entry.id@,
                (#[trigger] es[j]).id@,
            ) by {
                if j > i {
                    lemma_seq_char_lt_trans(entry.id@, es[i as int].id@, es[j].id@);
                }
            }
            assert forall|j: int| 0 <= j < es.len() implies (#[trigger] es[j]).id@ != entry.id@ by {
                crate::ids::lemma_seq_char_lt_irrefl(entry.id@);
                if es[j].id@ == entry.id@ {
                    if j < i {
                        assert(seq_char_lt(entry.id@, entry.id@));
                    } else {
                        assert(seq_char_lt(entry.id@, entry.id@));
                    }
                }
            }
            assert(!old(self).has_id(entry.id@));
        }
        let ghost before = self.entries@;
        self.entries.insert(i, entry);
        proof {
            let after = self.entries@;
            assert forall|x: int, y: int| 0 <= x < y < after.len() implies seq_char_lt(
                (#[trigger] after[x]).id@,
                (#[trigger] after[y]).id@,
            ) by {
                assert(after == before.insert(i as int, entry));
            }
        }
        Ok(())
    }
}

} // verus!
