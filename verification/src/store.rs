//! Hot-reloadable registry of server entries.
//!
//! The entry list is replaced wholesale when the registry file changes and
//! its new content parses; on a parse or read failure the previous good list
//! stays in effect, so a bad edit never empties the registry.  Readers get a
//! snapshot: they never observe a partial list.  If the file watcher shuts
//! down, the store keeps serving its last snapshot in a degraded,
//! non-reloading mode.

use vstd::prelude::*;

use crate::config::{ServerConfig, ServerConfigV};
use crate::registry::{parse_registry, spec_registry};

verus! {

/// Kind of a filesystem event on the registry path.  Only creation and
/// modification qualify for a reload; every other kind is ignored.
#[derive(Clone, Copy, Debug, PartialEq, Eq, Structural)]
pub enum FileEventKind {
    Create,
    Modify,
    Other,
}

impl FileEventKind {
    /// Whether an event of this kind triggers a reparse.
    pub open spec fn spec_qualifies(&self) -> bool {
        *self is Create || *self is Modify
    }

    /// Whether an event of this kind triggers a reparse.
    pub fn qualifies(&self) -> (r: bool)
        ensures
            r == self.spec_qualifies(),
    {
        match self {
            FileEventKind::Create => true,
            FileEventKind::Modify => true,
            FileEventKind::Other => false,
        }
    }
}

/// In-memory registry of server entries.
pub struct ConfigStore {
    pub entries: Vec<ServerConfig>,
    /// Set when the watch channel closed: the store still serves its last
    /// snapshot but will not reload until restart.
    pub reload_lost: bool,
}

impl ConfigStore {
    /// The current entry list.
    pub open spec fn view(&self) -> Seq<ServerConfigV> {
        self.entries.deep_view()
    }

    /// A store starts empty: no registry content has loaded yet.
    pub fn new() -> (r: ConfigStore)
        ensures
            r@ == Seq::<ServerConfigV>::empty(),
            !r.reload_lost,
    {
        let r = ConfigStore { entries: Vec::new(), reload_lost: false };
        proof {
            assert(r@ =~= Seq::<ServerConfigV>::empty());
        }
        r
    }

    /// A read-only snapshot of the entries, replaced atomically by reloads.
    pub fn configs(&self) -> (r: Vec<ServerConfig>)
        ensures
            r.deep_view() == self@,
    {
        let r = self.entries.clone();
        proof {
            assert(r.deep_view() =~= self.entries.deep_view());
        }
        r
    }

    /// Reparses the registry text and replaces the whole entry list when the
    /// text is a valid registry; invalid text leaves the previous good
    /// configuration in effect, so a bad edit never empties the registry.
    pub fn load_config_file(&mut self, contents: &str) -> (ok: bool)
        ensures
            final(self).reload_lost == old(self).reload_lost,
            match spec_registry(contents@) {
                Some(cs) => ok && final(self)@ == cs,
                None => !ok && final(self)@ == old(self)@ && final(self).entries@ == old(
                    self,
                ).entries@,
            },
    {
        match parse_registry(contents) {
            Some(cs) => {
                self.entries = cs;
                true
            },
            None => false,
        }
    }

    /// Applies one filesystem event on the registry path: a qualifying event
    /// whose file could be read triggers a full reparse; every other event,
    /// and an unreadable file, leaves the store unchanged.
    pub fn handle_event(&mut self, kind: FileEventKind, contents: Option<&str>) -> (ok: bool)
        ensures
            final(self).reload_lost == old(self).reload_lost,
            !kind.spec_qualifies() || contents is None ==> !ok && final(self)@ == old(self)@
                && final(self).entries@ == old(self).entries@,
            kind.spec_qualifies() ==> (contents matches Some(text) ==> match spec_registry(
                text@,
            ) {
                Some(cs) => ok && final(self)@ == cs,
                None => !ok && final(self)@ == old(self)@ && final(self).entries@ == old(
                    self,
                ).entries@,
            }),
    {
        if !kind.qualifies() {
            return false;
        }
        match contents {
            Some(text) => self.load_config_file(text),
            None => false,
        }
    }

    /// Marks the store degraded after the watch channel closed; the entries
    /// are untouched.
    pub fn note_watcher_closed(&mut self)
        ensures
            final(self)@ == old(self)@,
            final(self).entries@ == old(self).entries@,
            final(self).reload_lost,
    {
        self.reload_lost = true;
    }
}

} // verus!
