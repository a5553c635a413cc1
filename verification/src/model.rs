//! Domain model: roles, members, servers, channels, users, the partial /
//! removed-field payloads carried by audit actions, and the error taxonomy.

use vstd::prelude::*;
use crate::permissions::{Override, OverrideField, Permission};

verus! {

/// The error taxonomy of the core. Authorization and validation errors abort
/// the mutation before any state change; storage errors in the audit path are
/// reported but never surfaced to the caller of the triggering mutation.
#[derive(Clone, Debug)]
pub enum Error {
    /// A referenced role, channel or server is absent.
    NotFound,
    /// Scope mismatch, e.g. a channel not attached to the server at hand.
    InvalidOperation,
    /// The effective permission set lacks the named capability bit.
    PermissionDenied { permission: Permission },
    /// Rank or delegation violation.
    NotElevated,
    /// Malformed query parameters.
    FailedValidation,
}

/// A role: identity, display name, base override and integer rank. A lower
/// rank means greater authority.
#[derive(Clone, Debug)]
pub struct Role {
    pub id: String,
    pub name: String,
    pub permissions: OverrideField,
    pub rank: i64,
}

/// A user's association with a server: a set of held role ids.
#[derive(Clone, Debug)]
pub struct Member {
    pub user: String,
    pub roles: Vec<String>,
}

/// A server: owner, default (@everyone) permission set, and its roles held
/// sorted ascending by `(rank, id)` with unique ids.
#[derive(Clone, Debug)]
pub struct Server {
    pub id: String,
    pub owner: String,
    pub default_permissions: u64,
    pub roles: Vec<Role>,
}

/// A per-role override attached to a channel.
#[derive(Clone, Debug)]
pub struct ChannelRoleOverride {
    pub role: String,
    pub permissions: OverrideField,
}

/// A channel owned by a server, optionally carrying per-role overrides and a
/// default override layered on top of server-level permissions.
#[derive(Clone, Debug)]
pub struct Channel {
    pub id: String,
    pub server: String,
    pub role_permissions: Vec<ChannelRoleOverride>,
    pub default_permissions: Option<OverrideField>,
}

/// A user profile record, as far as audit enrichment needs it.
#[derive(Clone, Debug)]
pub struct User {
    pub id: String,
    pub username: String,
}

/// Strict order on stored roles: ascending rank, ties broken by id, so any
/// two roles of a well-formed server differ in rank or id.
pub open spec fn role_before(a: Role, b: Role) -> bool {
    a.rank < b.rank || (a.rank == b.rank && crate::ids::seq_char_lt(a.id@, b.id@))
}

impl Server {
    /// The server's roles are sorted strictly ascending by `(rank, id)` and
    /// their ids are unique.
    pub open spec fn wf(self) -> bool {
        &&& forall|i: int, j: int|
            0 <= i < j < self.roles@.len() ==> role_before(
                #[trigger] self.roles@[i],
                #[trigger] self.roles@[j],
            )
        &&& forall|i: int, j: int|
            0 <= i < j < self.roles@.len() ==> (#[trigger] self.roles@[i].id@)
                != (#[trigger] self.roles@[j].id@)
    }

    /// The position of the role with the given id, if any.
    pub open spec fn role_index(self, id: Seq<char>) -> int {
        choose|i: int| 0 <= i < self.roles@.len() && self.roles@[i].id@ == id
    }

    /// Whether a role with the given id exists.
    pub open spec fn has_role(self, id: Seq<char>) -> bool {
        exists|i: int| 0 <= i < self.roles@.len() && #[trigger] self.roles@[i].id@ == id
    }
}

/// Optional channel fields an edit can clear.
#[derive(Clone, Copy, Debug, PartialEq, Eq, Structural)]
pub enum FieldsChannel {
    Description,
    Icon,
    DefaultPermissions,
}

/// Optional member fields an edit can clear.
#[derive(Clone, Copy, Debug, PartialEq, Eq, Structural)]
pub enum FieldsMember {
    Nickname,
    Avatar,
    Roles,
    Timeout,
}

/// Optional role fields an edit can clear.
#[derive(Clone, Copy, Debug, PartialEq, Eq, Structural)]
pub enum FieldsRole {
    Colour,
}

/// Optional server fields an edit can clear.
#[derive(Clone, Copy, Debug, PartialEq, Eq, Structural)]
pub enum FieldsServer {
    Description,
    Icon,
    Banner,
    SystemMessages,
}

/// Partial new values carried by a channel edit.
#[derive(Clone, Debug)]
pub struct PartialChannel {
    pub name: Option<String>,
    pub description: Option<String>,
    pub nsfw: Option<bool>,
}

/// Partial new values carried by a member edit.
#[derive(Clone, Debug)]
pub struct PartialMember {
    pub nickname: Option<String>,
    pub roles: Option<Vec<String>>,
    pub timeout_until_ms: Option<u64>,
}

/// Partial new values carried by a role edit.
#[derive(Clone, Debug)]
pub struct PartialRole {
    pub name: Option<String>,
    pub permissions: Option<OverrideField>,
    pub rank: Option<i64>,
}

/// Partial new values carried by a server edit.
#[derive(Clone, Debug)]
pub struct PartialServer {
    pub name: Option<String>,
    pub description: Option<String>,
    pub default_permissions: Option<u64>,
}

/// The requested new override for a role in a channel.
#[derive(Clone, Copy, Debug)]
pub struct DataSetRolePermissions {
    pub permissions: Override,
}

/// The requested new override for a role in a server.
#[derive(Clone, Copy, Debug)]
pub struct DataSetServerRolePermission {
    pub permissions: Override,
}

} // verus!
