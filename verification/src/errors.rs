//! The error taxonomy of the system.
//!
//! Every failure of the engine's collaborators is recoverable and degrades a
//! value rather than a call: an unreadable or invalid registry keeps the
//! last good configuration, a failed role resolution becomes the empty role
//! set, a failed backend fetch degrades that one entry to Unknown health,
//! and a closed watch channel leaves the store serving stale data without
//! reloads.  These variants name those failures for the layers that log or
//! report them.

use vstd::prelude::*;

verus! {

pub enum AppError {
    /// The registry file could not be read or did not parse.
    Config(String),
    /// The identity provider's role lookup failed.
    IdentityLookup(String),
    /// A backend connection could not be opened.
    BackendConnect(String),
    /// A command on a live backend connection failed.
    BackendCommand(String),
    /// The registry watch channel closed; reloads stop until restart.
    FatalWatcher,
}

impl AppError {
    /// The detail text carried by the error, if any.
    pub open spec fn spec_detail(&self) -> Seq<char> {
        match *self {
            AppError::Config(m) => m@,
            AppError::IdentityLookup(m) => m@,
            AppError::BackendConnect(m) => m@,
            AppError::BackendCommand(m) => m@,
            AppError::FatalWatcher => Seq::empty(),
        }
    }

    /// A short name for the kind of failure.
    pub fn kind_text(&self) -> (r: &'static str)
        ensures
            *self matches AppError::Config(_) ==> r@ == "config"@,
            *self matches AppError::IdentityLookup(_) ==> r@ == "identity lookup"@,
            *self matches AppError::BackendConnect(_) ==> r@ == "backend connect"@,
            *self matches AppError::BackendCommand(_) ==> r@ == "backend command"@,
            *self is FatalWatcher ==> r@ == "watcher closed"@,
    {
        match self {
            AppError::Config(_) => "config",
            AppError::IdentityLookup(_) => "identity lookup",
            AppError::BackendConnect(_) => "backend connect",
            AppError::BackendCommand(_) => "backend command",
            AppError::FatalWatcher => "watcher closed",
        }
    }

    /// The detail text carried by the error, if any.
    pub fn detail(&self) -> (r: &str)
        ensures
            r@ == self.spec_detail(),
    {
        match self {
            AppError::Config(m) => m.as_str(),
            AppError::IdentityLookup(m) => m.as_str(),
            AppError::BackendConnect(m) => m.as_str(),
            AppError::BackendCommand(m) => m.as_str(),
            AppError::FatalWatcher => {
                proof {
                    reveal_strlit("");
                }
                ""
            },
        }
    }
}

} // verus!
