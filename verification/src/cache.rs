//! TTL caches with explicit time.
//!
//! A cache entry is a value with an absolute expiry instant; an entry is live
//! at instant `now` exactly when `now` lies strictly before its expiry.  Each
//! entry expires independently of the others.  Time is a plain millisecond
//! count handed in by the caller, so every statement about expiry is a theorem
//! rather than a property of a hidden clock.
//!
//! Two caches exist: one from caller identity to role set, one from backend
//! configuration to its last fetched status.

use vstd::pervasive::VecAdditionalExecFns;
use vstd::prelude::*;

use crate::config::{GameConfig, GameConfigV};
use crate::ids::{role_views, RoleId, UserId};
use crate::status::{ServerStatus, ServerStatusV};

verus! {

/// `a + b`, stopping at the largest representable instant.
pub open spec fn spec_sat_add(a: u64, b: u64) -> u64 {
    if a + b > u64::MAX {
        u64::MAX
    } else {
        (a + b) as u64
    }
}

/// Absolute expiry instant for a value stored at `now` with time to live `ttl`.
pub fn expiry_instant(now: u64, ttl: u64) -> (r: u64)
    ensures
        r == spec_sat_add(now, ttl),
{
    if now > u64::MAX - ttl {
        u64::MAX
    } else {
        now + ttl
    }
}

/// Copy of a role list.
pub fn copy_roles(v: &Vec<RoleId>) -> (r: Vec<RoleId>)
    ensures
        r@ == v@,
{
    let mut out: Vec<RoleId> = Vec::new();
    let mut i: usize = 0;
    while i < v.len()
        invariant
            0 <= i <= v@.len(),
            out@ == v@.take(i as int),
        decreases v@.len() - i,
    {
        out.push(v[i]);
        proof {
            assert(out@ =~= v@.take(i + 1));
        }
        i += 1;
    }
    proof {
        assert(out@ =~= v@);
    }
    out
}

/// One cached role set: the caller it belongs to, the roles, and when the
/// entry stops being served.
pub struct RoleCacheEntry {
    pub user: u64,
    pub roles: Vec<RoleId>,
    pub expiry: u64,
}

/// TTL cache from caller identity to role set.
///
/// The key is strictly the caller identity, not the bearer credential: a
/// rotated credential keeps the cached roles until they expire.
pub struct RoleCache {
    pub entries: Vec<RoleCacheEntry>,
}

impl RoleCache {
    /// At most one entry per caller.
    pub open spec fn wf(&self) -> bool {
        forall|i: int, j: int|
            0 <= i < j < self.entries@.len() ==> (#[trigger] self.entries@[i]).user != (
            #[trigger] self.entries@[j]).user
    }

    /// Whether some entry (live or expired) exists for this caller.
    pub open spec fn has_user(&self, user: u64) -> bool {
        exists|i: int| 0 <= i < self.entries@.len() && (#[trigger] self.entries@[i]).user == user
    }

    /// Index of this caller's entry.
    pub open spec fn user_index(&self, user: u64) -> int {
        choose|i: int| 0 <= i < self.entries@.len() && (#[trigger] self.entries@[i]).user == user
    }

    /// Whether a live entry for this caller exists at instant `now`.
    pub open spec fn live(&self, user: u64, now: u64) -> bool {
        self.has_user(user) && now < self.entries@[self.user_index(user)].expiry
    }

    /// The cached role set, as raw role values.
    pub open spec fn cached_roles(&self, user: u64) -> Seq<u64> {
        role_views(self.entries@[self.user_index(user)].roles@)
    }

    /// When this caller's entry stops being served.
    pub open spec fn expiry_of(&self, user: u64) -> u64 {
        self.entries@[self.user_index(user)].expiry
    }

    proof fn lemma_index_unique(&self, user: u64)
        requires
            self.wf(),
            self.has_user(user),
        ensures
            forall|k: int|
                0 <= k < self.entries@.len() && (#[trigger] self.entries@[k]).user == user ==> k
                    == self.user_index(user),
    {
        let w = self.user_index(user);
        assert(0 <= w < self.entries@.len() && self.entries@[w].user == user);
    }

    pub fn new() -> (r: RoleCache)
        ensures
            r.wf(),
            forall|u: u64| !r.has_user(u),
    {
        RoleCache { entries: Vec::new() }
    }

    /// Serves the cached role set while it is live; a miss means the caller
    /// must resolve roles anew.
    pub fn lookup(&self, user: UserId, now: u64) -> (r: Option<&Vec<RoleId>>)
        requires
            self.wf(),
        ensures
            match r {
                Some(v) => self.live(user@, now) && role_views(v@) == self.cached_roles(user@),
                None => !self.live(user@, now),
            },
    {
        let mut i: usize = 0;
        while i < self.entries.len()
            invariant
                self.wf(),
                0 <= i <= self.entries@.len(),
                forall|j: int| 0 <= j < i ==> (#[trigger] self.entries@[j]).user != user@,
            decreases self.entries@.len() - i,
        {
            if self.entries[i].user == user.raw() {
                proof {
                    assert(self.has_user(user@));
                    self.lemma_index_unique(user@);
                    assert(self.user_index(user@) == i);
                }
                if now < self.entries[i].expiry {
                    return Some(&self.entries[i].roles);
                } else {
                    return None;
                }
            }
            i += 1;
        }
        proof {
            assert(!self.has_user(user@));
        }
        None
    }

    /// Stores (or replaces) this caller's role set.  Every other caller's
    /// entry is untouched.
    pub fn store(&mut self, user: UserId, roles: Vec<RoleId>, expiry: u64)
        requires
            old(self).wf(),
        ensures
            final(self).wf(),
            final(self).has_user(user@),
            final(self).cached_roles(user@) == role_views(roles@),
            final(self).expiry_of(user@) == expiry,
            forall|u: u64| u != user@ ==> final(self).has_user(u) == old(self).has_user(u),
            forall|u: u64|
                u != user@ && old(self).has_user(u) ==> final(self).cached_roles(u) == old(
                    self,
                ).cached_roles(u) && final(self).expiry_of(u) == old(self).expiry_of(u),
    {
        let ghost pre = *self;
        let entry = RoleCacheEntry { user: user.raw(), roles, expiry };
        let mut i: usize = 0;
        while i < self.entries.len()
            invariant
                *self == pre,
                pre == *old(self),
                pre.wf(),
                entry.user == user@,
                entry.roles@ == roles@,
                entry.expiry == expiry,
                0 <= i <= self.entries@.len(),
                forall|j: int| 0 <= j < i ==> (#[trigger] self.entries@[j]).user != user@,
            decreases self.entries@.len() - i,
        {
            if self.entries[i].user == user.raw() {
                proof {
                    assert(pre.has_user(user@));
                    pre.lemma_index_unique(user@);
                }
                self.entries.set(i, entry);
                proof {
                    Self::lemma_store_at(pre, *self, user@, i as int);
                }
                return ;
            }
            i += 1;
        }
        proof {
            assert(!pre.has_user(user@));
        }
        self.entries.push(entry);
        proof {
            Self::lemma_store_pushed(pre, *self, user@);
        }
    }

    proof fn lemma_store_at(pre: RoleCache, post: RoleCache, user: u64, i: int)
        requires
            pre.wf(),
            0 <= i < pre.entries@.len(),
            pre.entries@[i].user == user,
            post.entries@ == pre.entries@.update(i, post.entries@[i]),
            post.entries@[i].user == user,
        ensures
            post.wf(),
            post.has_user(user),
            post.user_index(user) == i,
            forall|u: u64| u != user ==> post.has_user(u) == pre.has_user(u),
            forall|u: u64|
                u != user && pre.has_user(u) ==> post.cached_roles(u) == pre.cached_roles(u)
                    && post.expiry_of(u) == pre.expiry_of(u),
    {
        assert(post.entries@.len() == pre.entries@.len());
        assert(forall|k: int|
            0 <= k < post.entries@.len() && k != i ==> post.entries@[k] == pre.entries@[k]);
        assert(post.wf());
        assert(post.has_user(user));
        post.lemma_index_unique(user);
        assert forall|u: u64| u != user implies post.has_user(u) == pre.has_user(u) by {
            if pre.has_user(u) {
                let k = pre.user_index(u);
                assert(k != i);
                assert(post.entries@[k].user == u);
            }
            if post.has_user(u) {
                let k = post.user_index(u);
                assert(k != i);
                assert(pre.entries@[k].user == u);
            }
        }
        assert forall|u: u64| u != user && pre.has_user(u) implies post.cached_roles(u)
            == pre.cached_roles(u) && post.expiry_of(u) == pre.expiry_of(u) by {
            let k = pre.user_index(u);
            assert(pre.entries@[k].user == u);
            assert(k != i);
            assert(post.entries@[k].user == u);
            post.lemma_index_unique(u);
            assert(post.user_index(u) == k);
        }
    }

    proof fn lemma_store_pushed(pre: RoleCache, post: RoleCache, user: u64)
        requires
            pre.wf(),
            !pre.has_user(user),
            post.entries@ == pre.entries@.push(post.entries@.last()),
            post.entries@.len() == pre.entries@.len() + 1,
            post.entries@.last().user == user,
        ensures
            post.wf(),
            post.has_user(user),
            post.user_index(user) == post.entries@.len() - 1,
            forall|u: u64| u != user ==> post.has_user(u) == pre.has_user(u),
            forall|u: u64|
                u != user && pre.has_user(u) ==> post.cached_roles(u) == pre.cached_roles(u)
                    && post.expiry_of(u) == pre.expiry_of(u),
    {
        let n = pre.entries@.len() as int;
        assert(forall|k: int| 0 <= k < n ==> post.entries@[k] == pre.entries@[k]);
        assert forall|i: int, j: int|
            0 <= i < j < post.entries@.len() implies (#[trigger] post.entries@[i]).user != (
        #[trigger] post.entries@[j]).user by {
            if j == n {
                assert(post.entries@[i].user != user) by {
                    if post.entries@[i].user == user {
                        assert(pre.entries@[i].user == user);
                        assert(pre.has_user(user));
                    }
                }
            }
        }
        assert(post.entries@[n].user == user);
        assert(post.has_user(user));
        post.lemma_index_unique(user);
        assert forall|u: u64| u != user implies post.has_user(u) == pre.has_user(u) by {
            if pre.has_user(u) {
                let k = pre.user_index(u);
                assert(post.entries@[k].user == u);
            }
            if post.has_user(u) {
                let k = post.user_index(u);
                assert(k != n);
                assert(pre.entries@[k].user == u);
            }
        }
        assert forall|u: u64| u != user && pre.has_user(u) implies post.cached_roles(u)
            == pre.cached_roles(u) && post.expiry_of(u) == pre.expiry_of(u) by {
            let k = pre.user_index(u);
            assert(pre.entries@[k].user == u);
            assert(post.entries@[k].user == u);
            post.lemma_index_unique(u);
            assert(post.user_index(u) == k);
        }
    }
}

/// A role-set lookup at any instant before the entry's expiry serves the
/// stored value without a new identity lookup; at the expiry instant and
/// after it, the entry is no longer served and exactly one re-fetch follows.
pub proof fn lemma_role_cache_ttl(c: RoleCache, user: u64, t: u64)
    requires
        c.wf(),
        c.has_user(user),
    ensures
        t < c.expiry_of(user) ==> c.live(user, t),
        t >= c.expiry_of(user) ==> !c.live(user, t),
{
}

/// One cached backend status: the configuration it was fetched for, the
/// normalized status, and when the entry stops being served.
pub struct StatusCacheEntry {
    pub game: GameConfig,
    pub status: ServerStatus,
    pub expiry: u64,
}

/// TTL cache from backend configuration to its last fetched status.
pub struct StatusCache {
    pub entries: Vec<StatusCacheEntry>,
}

impl StatusCache {
    /// At most one entry per backend configuration.
    pub open spec fn wf(&self) -> bool {
        forall|i: int, j: int|
            0 <= i < j < self.entries@.len() ==> (#[trigger] self.entries@[i]).game@ != (
            #[trigger] self.entries@[j]).game@
    }

    /// Whether some entry (live or expired) exists for this key.
    pub open spec fn has_key(&self, game: GameConfigV) -> bool {
        exists|i: int| 0 <= i < self.entries@.len() && (#[trigger] self.entries@[i]).game@ == game
    }

    /// Index of this key's entry.
    pub open spec fn key_index(&self, game: GameConfigV) -> int {
        choose|i: int| 0 <= i < self.entries@.len() && (#[trigger] self.entries@[i]).game@ == game
    }

    /// Whether a live entry for this key exists at instant `now`.
    pub open spec fn live(&self, game: GameConfigV, now: u64) -> bool {
        self.has_key(game) && now < self.entries@[self.key_index(game)].expiry
    }

    /// The cached status for this key.
    pub open spec fn cached_status(&self, game: GameConfigV) -> ServerStatusV {
        self.entries@[self.key_index(game)].status@
    }

    /// When this key's entry stops being served.
    pub open spec fn expiry_of(&self, game: GameConfigV) -> u64 {
        self.entries@[self.key_index(game)].expiry
    }

    proof fn lemma_index_unique(&self, game: GameConfigV)
        requires
            self.wf(),
            self.has_key(game),
        ensures
            forall|k: int|
                0 <= k < self.entries@.len() && (#[trigger] self.entries@[k]).game@ == game ==> k
                    == self.key_index(game),
    {
        let w = self.key_index(game);
        assert(0 <= w < self.entries@.len() && self.entries@[w].game@ == game);
    }

    pub fn new() -> (r: StatusCache)
        ensures
            r.wf(),
            forall|g: GameConfigV| !r.has_key(g),
    {
        StatusCache { entries: Vec::new() }
    }

    /// Serves the cached status while it is live; a miss means the backend
    /// must be fetched anew.
    pub fn lookup(&self, game: &GameConfig, now: u64) -> (r: Option<&ServerStatus>)
        requires
            self.wf(),
        ensures
            match r {
                Some(s) => self.live(game@, now) && s@ == self.cached_status(game@),
                None => !self.live(game@, now),
            },
    {
        let mut i: usize = 0;
        while i < self.entries.len()
            invariant
                self.wf(),
                0 <= i <= self.entries@.len(),
                forall|j: int| 0 <= j < i ==> (#[trigger] self.entries@[j]).game@ != game@,
            decreases self.entries@.len() - i,
        {
            if self.entries[i].game.key_eq(game) {
                proof {
                    assert(self.has_key(game@));
                    self.lemma_index_unique(game@);
                    assert(self.key_index(game@) == i);
                }
                if now < self.entries[i].expiry {
                    return Some(&self.entries[i].status);
                } else {
                    return None;
                }
            }
            i += 1;
        }
        proof {
            assert(!self.has_key(game@));
        }
        None
    }

    /// Stores (or replaces) the status for this key.  Every other key's entry
    /// is untouched.
    pub fn store(&mut self, game: GameConfig, status: ServerStatus, expiry: u64)
        requires
            old(self).wf(),
        ensures
            final(self).wf(),
            final(self).has_key(game@),
            final(self).cached_status(game@) == status@,
            final(self).expiry_of(game@) == expiry,
            forall|g: GameConfigV| g != game@ ==> final(self).has_key(g) == old(self).has_key(g),
            forall|g: GameConfigV|
                g != game@ && old(self).has_key(g) ==> final(self).cached_status(g) == old(
                    self,
                ).cached_status(g) && final(self).expiry_of(g) == old(self).expiry_of(g),
    {
        let ghost pre = *self;
        let ghost gv = game@;
        let mut i: usize = 0;
        while i < self.entries.len()
            invariant
                *self == pre,
                pre == *old(self),
                pre.wf(),
                game@ == gv,
                0 <= i <= self.entries@.len(),
                forall|j: int| 0 <= j < i ==> (#[trigger] self.entries@[j]).game@ != gv,
            decreases self.entries@.len() - i,
        {
            if self.entries[i].game.key_eq(&game) {
                proof {
                    assert(pre.has_key(gv));
                    pre.lemma_index_unique(gv);
                }
                let entry = StatusCacheEntry { game, status, expiry };
                self.entries.set(i, entry);
                proof {
                    Self::lemma_store_at(pre, *self, gv, i as int);
                }
                return ;
            }
            i += 1;
        }
        proof {
            assert(!pre.has_key(gv));
        }
        let entry = StatusCacheEntry { game, status, expiry };
        self.entries.push(entry);
        proof {
            Self::lemma_store_pushed(pre, *self, gv);
        }
    }

    proof fn lemma_store_at(pre: StatusCache, post: StatusCache, game: GameConfigV, i: int)
        requires
            pre.wf(),
            0 <= i < pre.entries@.len(),
            pre.entries@[i].game@ == game,
            post.entries@ == pre.entries@.update(i, post.entries@[i]),
            post.entries@[i].game@ == game,
        ensures
            post.wf(),
            post.has_key(game),
            post.key_index(game) == i,
            forall|g: GameConfigV| g != game ==> post.has_key(g) == pre.has_key(g),
            forall|g: GameConfigV|
                g != game && pre.has_key(g) ==> post.cached_status(g) == pre.cached_status(g)
                    && post.expiry_of(g) == pre.expiry_of(g),
    {
        assert(post.entries@.len() == pre.entries@.len());
        assert(forall|k: int|
            0 <= k < post.entries@.len() && k != i ==> post.entries@[k] == pre.entries@[k]);
        assert(post.wf());
        assert(post.has_key(game));
        post.lemma_index_unique(game);
        assert forall|g: GameConfigV| g != game implies post.has_key(g) == pre.has_key(g) by {
            if pre.has_key(g) {
                let k = pre.key_index(g);
                assert(k != i);
                assert(post.entries@[k].game@ == g);
            }
            if post.has_key(g) {
                let k = post.key_index(g);
                assert(k != i);
                assert(pre.entries@[k].game@ == g);
            }
        }
        assert forall|g: GameConfigV| g != game && pre.has_key(g) implies post.cached_status(g)
            == pre.cached_status(g) && post.expiry_of(g) == pre.expiry_of(g) by {
            let k = pre.key_index(g);
            assert(pre.entries@[k].game@ == g);
            assert(k != i);
            assert(post.entries@[k].game@ == g);
            post.lemma_index_unique(g);
            assert(post.key_index(g) == k);
        }
    }

    proof fn lemma_store_pushed(pre: StatusCache, post: StatusCache, game: GameConfigV)
        requires
            pre.wf(),
            !pre.has_key(game),
            post.entries@ == pre.entries@.push(post.entries@.last()),
            post.entries@.len() == pre.entries@.len() + 1,
            post.entries@.last().game@ == game,
        ensures
            post.wf(),
            post.has_key(game),
            post.key_index(game) == post.entries@.len() - 1,
            forall|g: GameConfigV| g != game ==> post.has_key(g) == pre.has_key(g),
            forall|g: GameConfigV|
                g != game && pre.has_key(g) ==> post.cached_status(g) == pre.cached_status(g)
                    && post.expiry_of(g) == pre.expiry_of(g),
    {
        let n = pre.entries@.len() as int;
        assert(forall|k: int| 0 <= k < n ==> post.entries@[k] == pre.entries@[k]);
        assert forall|i: int, j: int|
            0 <= i < j < post.entries@.len() implies (#[trigger] post.entries@[i]).game@ != (
        #[trigger] post.entries@[j]).game@ by {
            if j == n {
                assert(post.entries@[i].game@ != game) by {
                    if post.entries@[i].game@ == game {
                        assert(pre.entries@[i].game@ == game);
                        assert(pre.has_key(game));
                    }
                }
            }
        }
        assert(post.entries@[n].game@ == game);
        assert(post.has_key(game));
        post.lemma_index_unique(game);
        assert forall|g: GameConfigV| g != game implies post.has_key(g) == pre.has_key(g) by {
            if pre.has_key(g) {
                let k = pre.key_index(g);
                assert(post.entries@[k].game@ == g);
            }
            if post.has_key(g) {
                let k = post.key_index(g);
                assert(k != n);
                assert(pre.entries@[k].game@ == g);
            }
        }
        assert forall|g: GameConfigV| g != game && pre.has_key(g) implies post.cached_status(g)
            == pre.cached_status(g) && post.expiry_of(g) == pre.expiry_of(g) by {
            let k = pre.key_index(g);
            assert(pre.entries@[k].game@ == g);
            assert(post.entries@[k].game@ == g);
            post.lemma_index_unique(g);
            assert(post.key_index(g) == k);
        }
    }
}

/// A status lookup at any instant before the entry's expiry serves the stored
/// value without a new backend fetch; at the expiry instant and after it, the
/// entry is no longer served.
pub proof fn lemma_status_cache_ttl(c: StatusCache, game: GameConfigV, t: u64)
    requires
        c.wf(),
        c.has_key(game),
    ensures
        t < c.expiry_of(game) ==> c.live(game, t),
        t >= c.expiry_of(game) ==> !c.live(game, t),
{
}

} // verus!
