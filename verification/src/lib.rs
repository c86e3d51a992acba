//! Server status aggregation engine.
//!
//! A role-filtered registry of game servers combined with TTL caches for a
//! caller's authorization roles and for each backend's live status.  All
//! decisions (which entries a caller may see, which backends must be fetched,
//! how a failed fetch degrades, when a cache entry expires, when a reloaded
//! registry file replaces the current one) are made here and verified; the
//! asynchronous edges (HTTP, the remote console connection, the file watcher)
//! live outside and hand plain values in and out, with time as an explicit
//! millisecond count so that every expiry statement is a theorem.
//!
//! The pieces, leaf first:
//! - [`ids`], [`secret`], [`status`], [`config`]: the data model and its
//!   mathematical views;
//! - [`text`], [`json`], [`registry`], [`roles`]: the document grammars
//!   (registry file, identity response, console answers), each a spec
//!   function with an executable parser proved equal to it;
//! - [`cache`], [`pool`], [`store`]: the TTL caches, the connection pool,
//!   and the hot-reloadable registry store;
//! - [`manager`]: the aggregator that composes them, and the laws that hold
//!   of a request;
//! - [`errors`], [`auth`]: the error taxonomy and the login collaborator's
//!   data.

pub mod auth;
pub mod cache;
pub mod config;
pub mod errors;
pub mod fetch;
pub mod ids;
pub mod json;
pub mod manager;
pub mod pool;
pub mod registry;
pub mod roles;
pub mod secret;
pub mod status;
pub mod store;
pub mod text;

pub use ids::{GuildId, RoleId, UserId};
