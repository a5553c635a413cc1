//! Authorization and audit core for a multi-tenant communication platform.
//!
//! The crate decides whether an acting principal may perform a privileged
//! mutation against a server/channel/role hierarchy, and records every
//! privileged mutation as a time-ordered, TTL-bounded audit trail.

pub mod audit;
pub mod ids;
pub mod model;
pub mod permissions;
pub mod resolve;
pub mod retrieval;
pub mod routes;
