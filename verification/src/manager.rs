//! The aggregator: which servers can a caller see, and with what status.
//!
//! A request runs in stages, each a verified decision over plain values:
//! resolve the caller's roles (serving a live cache entry if one exists,
//! coalescing concurrent resolutions onto one in-flight marker, and failing
//! open to the empty role set when the identity lookup fails), filter the
//! registry to the entries whose required role the caller holds, plan the
//! backend fetches (one per distinct backend key that no live cache entry
//! serves and no other request is already fetching), store each raw outcome
//! (a failure degrades only its own key), and assemble the results in
//! registry order — overlaying each entry's own display identity — whatever
//! order the fetches completed in.

use vstd::prelude::*;

use crate::cache::{copy_roles, expiry_instant, spec_sat_add, RoleCache, StatusCache};
use crate::config::{GameConfig, GameConfigV, ServerConfig, ServerConfigV};
use crate::fetch::{degraded_status, overlay_status, raw_degraded_status, spec_degraded,
    spec_overlay, spec_raw_degraded};
use crate::ids::{role_views, roles_contain, RoleId, UserId};
use crate::pool::ConnectionPool;
use crate::status::{ServerStatus, ServerStatusV};
use crate::store::ConfigStore;

verus! {

/// The entries of `configs` visible to a caller holding `roles`, in registry
/// order: exactly those whose required role is one the caller holds.
pub open spec fn spec_visible(configs: Seq<ServerConfigV>, roles: Seq<u64>) -> Seq<ServerConfigV> {
    configs.filter(|c: ServerConfigV| c.visible_to(roles))
}

/// The status assembled for a visible entry: the live cached record of its
/// backend with the entry's own identity overlaid, or the degraded record
/// when none is live.
pub open spec fn spec_status_for(cache: StatusCache, c: ServerConfigV, now: u64) -> ServerStatusV {
    if cache.live(c.game, now) {
        spec_overlay(c, cache.cached_status(c.game))
    } else {
        spec_degraded(c)
    }
}

proof fn lemma_visible_take_step(configs: Seq<ServerConfigV>, roles: Seq<u64>, i: int)
    requires
        0 <= i < configs.len(),
    ensures
        spec_visible(configs.take(i + 1), roles) == if configs[i].visible_to(roles) {
            spec_visible(configs.take(i), roles).push(configs[i])
        } else {
            spec_visible(configs.take(i), roles)
        },
{
    let p = |c: ServerConfigV| c.visible_to(roles);
    let t = configs.take(i + 1);
    assert(t.drop_last() =~= configs.take(i));
    assert(t.last() == configs[i]);
    reveal_with_fuel(Seq::filter, 2);
}

/// Filters a registry snapshot to the entries visible to a caller.
pub fn visible_entries(configs: &Vec<ServerConfig>, roles: &Vec<RoleId>) -> (r: Vec<ServerConfig>)
    ensures
        r.deep_view() == spec_visible(configs.deep_view(), role_views(roles@)),
{
    let ghost cs = configs.deep_view();
    let ghost rs = role_views(roles@);
    let mut r: Vec<ServerConfig> = Vec::new();
    let mut i: usize = 0;
    proof {
        assert(cs.take(0) =~= Seq::<ServerConfigV>::empty());
        assert(r.deep_view() =~= spec_visible(cs.take(0), rs)) by {
            reveal_with_fuel(Seq::filter, 1);
        }
    }
    while i < configs.len()
        invariant
            cs == configs.deep_view(),
            rs == role_views(roles@),
            0 <= i <= configs@.len(),
            cs.len() == configs@.len(),
            r.deep_view() == spec_visible(cs.take(i as int), rs),
        decreases configs@.len() - i,
    {
        let c = &configs[i];
        proof {
            assert(c.deep_view() == cs[i as int]);
            lemma_visible_take_step(cs, rs, i as int);
        }
        let vis = match &c.required_role {
            Some(role) => roles_contain(roles, *role),
            None => false,
        };
        proof {
            match c.required_role {
                Some(role) => crate::ids::lemma_roles_contain_views(roles@, role@),
                None => (),
            }
            assert(vis == cs[i as int].visible_to(rs));
        }
        if vis {
            let ghost old_dv = r.deep_view();
            r.push(c.clone());
            proof {
                assert(r.deep_view() =~= old_dv.push(cs[i as int]));
            }
        }
        i += 1;
    }
    proof {
        assert(cs.take(cs.len() as int) =~= cs);
    }
    r
}

/// The aggregator: registry, role cache, status cache, connection pool, and
/// the in-flight markers that coalesce concurrent resolutions, owned by one
/// instance and shared by handle.
pub struct ServerManager {
    pub config_store: ConfigStore,
    pub statuses: StatusCache,
    pub user_roles: RoleCache,
    pub pool: ConnectionPool,
    /// Backend keys some handed-out fetch plan covers, until their outcomes
    /// are stored.  A key in flight is never planned again, so overlapping
    /// requests coalesce onto the one fetch underway.
    pub inflight_statuses: Vec<GameConfig>,
    /// Callers whose role resolution is underway, until its outcome is
    /// stored.
    pub inflight_roles: Vec<u64>,
    /// Time to live of a cached status, in the caller's time unit.
    pub status_ttl: u64,
    /// Time to live of a cached role set, in the caller's time unit.
    pub role_ttl: u64,
}

impl ServerManager {
    pub open spec fn wf(&self) -> bool {
        &&& self.statuses.wf()
        &&& self.user_roles.wf()
        &&& self.pool.wf()
        &&& forall|i: int, j: int|
            0 <= i < j < self.inflight_statuses@.len() ==> (
            #[trigger] self.inflight_statuses@[i])@ != (#[trigger] self.inflight_statuses@[j])@
        &&& forall|i: int, j: int|
            0 <= i < j < self.inflight_roles@.len() ==> (#[trigger] self.inflight_roles@[i]) != (
            #[trigger] self.inflight_roles@[j])
    }

    /// Whether a fetch for backend `g` is underway: some request was handed
    /// a plan naming `g` whose outcome is not yet stored.
    pub open spec fn status_inflight(&self, g: GameConfigV) -> bool {
        exists|i: int|
            0 <= i < self.inflight_statuses@.len() && (#[trigger] self.inflight_statuses@[i])@
                == g
    }

    /// Whether a role resolution for caller `u` is underway.
    pub open spec fn role_inflight(&self, u: u64) -> bool {
        exists|i: int|
            0 <= i < self.inflight_roles@.len() && (#[trigger] self.inflight_roles@[i]) == u
    }

    /// Whether a request by a caller holding `roles` at instant `now` must
    /// fetch backend `g` live: some visible entry uses `g`, no live cache
    /// entry serves it, and no fetch for it is already underway.
    pub open spec fn spec_needs_fetch(&self, roles: Seq<u64>, now: u64, g: GameConfigV) -> bool {
        &&& !self.statuses.live(g, now)
        &&& !self.status_inflight(g)
        &&& exists|i: int|
            0 <= i < self.config_store@.len() && (#[trigger] self.config_store@[i]).visible_to(
                roles,
            ) && self.config_store@[i].game == g
    }

    /// The result a request assembles for a caller holding `roles` at instant
    /// `now`: one status per visible entry, in registry order.
    pub open spec fn spec_get_servers(&self, roles: Seq<u64>, now: u64) -> Seq<ServerStatusV> {
        spec_visible(self.config_store@, roles).map(
            |i: int, c: ServerConfigV| spec_status_for(self.statuses, c, now),
        )
    }

    /// A fresh aggregator: empty registry, cold caches, empty pool, nothing
    /// in flight.
    pub fn new(role_ttl: u64, status_ttl: u64, idle_ttl: u64) -> (r: ServerManager)
        ensures
            r.wf(),
            r.config_store@ == Seq::<ServerConfigV>::empty(),
            !r.config_store.reload_lost,
            r.role_ttl == role_ttl,
            r.status_ttl == status_ttl,
            r.pool.idle_ttl == idle_ttl,
            forall|u: u64| !r.user_roles.has_user(u),
            forall|g: GameConfigV| !r.statuses.has_key(g),
            forall|g: GameConfigV| !r.status_inflight(g),
            forall|u: u64| !r.role_inflight(u),
    {
        ServerManager {
            config_store: ConfigStore::new(),
            statuses: StatusCache::new(),
            user_roles: RoleCache::new(),
            pool: ConnectionPool::new(idle_ttl),
            inflight_statuses: Vec::new(),
            inflight_roles: Vec::new(),
            status_ttl,
            role_ttl,
        }
    }

    /// Whether a fetch for this key is underway.
    pub fn status_inflight_contains(&self, game: &GameConfig) -> (r: bool)
        ensures
            r == self.status_inflight(game@),
    {
        let mut i: usize = 0;
        while i < self.inflight_statuses.len()
            invariant
                0 <= i <= self.inflight_statuses@.len(),
                forall|j: int|
                    0 <= j < i ==> (#[trigger] self.inflight_statuses@[j])@ != game@,
            decreases self.inflight_statuses@.len() - i,
        {
            if self.inflight_statuses[i].key_eq(game) {
                return true;
            }
            i += 1;
        }
        false
    }

    /// Whether a role resolution for this caller is underway.
    pub fn role_inflight_contains(&self, user: UserId) -> (r: bool)
        ensures
            r == self.role_inflight(user@),
    {
        let mut i: usize = 0;
        while i < self.inflight_roles.len()
            invariant
                0 <= i <= self.inflight_roles@.len(),
                forall|j: int| 0 <= j < i ==> (#[trigger] self.inflight_roles@[j]) != user@,
            decreases self.inflight_roles@.len() - i,
        {
            if self.inflight_roles[i] == user.raw() {
                return true;
            }
            i += 1;
        }
        false
    }

    /// Serves the caller's cached role set while it is live.  A miss means
    /// the caller's roles must be resolved against the identity provider —
    /// by whichever request [`Self::role_fetch_due`] elects — and stored with
    /// [`Self::store_roles`].
    pub fn roles_if_cached(&self, user: UserId, now: u64) -> (r: Option<Vec<RoleId>>)
        requires
            self.wf(),
        ensures
            match r {
                Some(v) => self.user_roles.live(user@, now) && role_views(v@)
                    == self.user_roles.cached_roles(user@),
                None => !self.user_roles.live(user@, now),
            },
    {
        match self.user_roles.lookup(user, now) {
            Some(v) => Some(copy_roles(v)),
            None => None,
        }
    }

    /// Elects the one request that resolves this caller's roles: `true`
    /// exactly when no live cache entry serves the caller and no resolution
    /// is already underway, and a `true` marks the resolution in flight, so
    /// of any number of concurrent requests exactly the first is elected.
    /// The marker clears when [`Self::store_roles`] stores the outcome.
    pub fn role_fetch_due(&mut self, user: UserId, now: u64) -> (due: bool)
        requires
            old(self).wf(),
        ensures
            final(self).wf(),
            due == (!old(self).user_roles.live(user@, now) && !old(self).role_inflight(user@)),
            final(self).config_store == old(self).config_store,
            final(self).statuses == old(self).statuses,
            final(self).user_roles == old(self).user_roles,
            final(self).pool == old(self).pool,
            final(self).inflight_statuses == old(self).inflight_statuses,
            final(self).role_ttl == old(self).role_ttl,
            final(self).status_ttl == old(self).status_ttl,
            due ==> final(self).role_inflight(user@),
            forall|u: u64| u != user@ ==> final(self).role_inflight(u) == old(self).role_inflight(u),
            !due ==> final(self).inflight_roles == old(self).inflight_roles,
    {
        if self.user_roles.lookup(user, now).is_some() {
            return false;
        }
        if self.role_inflight_contains(user) {
            return false;
        }
        let ghost pre = self.inflight_roles@;
        self.inflight_roles.push(user.raw());
        proof {
            assert(self.inflight_roles@ == pre.push(user@));
            assert(forall|j: int| 0 <= j < pre.len() ==> self.inflight_roles@[j] == pre[j]);
            assert(self.inflight_roles@[pre.len() as int] == user@);
            assert forall|u: u64| u != user@ implies self.role_inflight(u) == old(self).role_inflight(u) by {
                if old(self).role_inflight(u) {
                    let j = choose|j: int| 0 <= j < pre.len() && pre[j] == u;
                    assert(self.inflight_roles@[j] == u);
                }
                if self.role_inflight(u) {
                    let j = choose|j: int|
                        0 <= j < self.inflight_roles@.len() && self.inflight_roles@[j] == u;
                    assert(j < pre.len());
                    assert(pre[j] == u);
                }
            }
        }
        true
    }

    /// Removes this caller's in-flight marker, if present.
    fn clear_role_inflight(&mut self, user: UserId)
        requires
            forall|i: int, j: int|
                0 <= i < j < old(self).inflight_roles@.len() ==> (#[trigger] old(self).inflight_roles@[i]) != (#[trigger] old(self).inflight_roles@[j]),
        ensures
            final(self).config_store == old(self).config_store,
            final(self).statuses == old(self).statuses,
            final(self).user_roles == old(self).user_roles,
            final(self).pool == old(self).pool,
            final(self).inflight_statuses == old(self).inflight_statuses,
            final(self).role_ttl == old(self).role_ttl,
            final(self).status_ttl == old(self).status_ttl,
            forall|i: int, j: int|
                0 <= i < j < final(self).inflight_roles@.len() ==> (#[trigger] final(self).inflight_roles@[i]) != (#[trigger] final(self).inflight_roles@[j]),
            !final(self).role_inflight(user@),
            forall|u: u64| u != user@ ==> final(self).role_inflight(u) == old(self).role_inflight(u),
    {
        let ghost pre = self.inflight_roles@;
        let mut i: usize = 0;
        while i < self.inflight_roles.len()
            invariant
                *self == *old(self),
                pre == self.inflight_roles@,
                forall|x: int, y: int|
                    0 <= x < y < pre.len() ==> (#[trigger] pre[x]) != (#[trigger] pre[y]),
                0 <= i <= self.inflight_roles@.len(),
                forall|j: int| 0 <= j < i ==> (#[trigger] self.inflight_roles@[j]) != user@,
            decreases self.inflight_roles@.len() - i,
        {
            if self.inflight_roles[i] == user.raw() {
                self.inflight_roles.remove(i);
                proof {
                    let post = self.inflight_roles@;
                    assert(post == pre.remove(i as int));
                    assert(post.len() == pre.len() - 1);
                    assert(forall|x: int, y: int|
                        0 <= x < y < pre.len() ==> (#[trigger] pre[x]) != (#[trigger] pre[y]));
                    assert(forall|k: int| 0 <= k < i ==> post[k] == pre[k]);
                    assert(forall|k: int| i <= k < post.len() ==> post[k] == pre[k + 1]);
                    assert forall|a: int, b: int|
                        0 <= a < b < post.len() implies (#[trigger] post[a]) != (
                    #[trigger] post[b]) by {
                        let a0: int = if a < i { a } else { a + 1 };
                        let b0: int = if b < i { b } else { b + 1 };
                        assert(post[a] == pre[a0] && post[b] == pre[b0]);
                    }
                    assert forall|k: int| 0 <= k < post.len() implies (#[trigger] post[k])
                        != user@ by {
                        let k0: int = if k < i { k } else { k + 1 };
                        assert(post[k] == pre[k0]);
                        if k0 < i {
                            assert(pre[k0] != user@);
                        } else {
                            assert(pre[i as int] == user@);
                        }
                    }
                    assert forall|u: u64| u != user@ implies self.role_inflight(u) == old(self).role_inflight(u) by {
                        if old(self).role_inflight(u) {
                            let j = choose|j: int| 0 <= j < pre.len() && pre[j] == u;
                            assert(j != i);
                            if j < i {
                                assert(post[j] == u);
                            } else {
                                assert(post[j - 1] == u);
                            }
                        }
                        if self.role_inflight(u) {
                            let j = choose|j: int| 0 <= j < post.len() && post[j] == u;
                            let j0: int = if j < i { j } else { j + 1 };
                            assert(pre[j0] == u);
                        }
                    }
                }
                return ;
            }
            i += 1;
        }
    }

    /// Removes this key's in-flight marker, if present.
    fn clear_status_inflight(&mut self, game: &GameConfig)
        requires
            forall|i: int, j: int|
                0 <= i < j < old(self).inflight_statuses@.len() ==> (#[trigger] old(self).inflight_statuses@[i])@ != (#[trigger] old(self).inflight_statuses@[j])@,
        ensures
            final(self).config_store == old(self).config_store,
            final(self).statuses == old(self).statuses,
            final(self).user_roles == old(self).user_roles,
            final(self).pool == old(self).pool,
            final(self).inflight_roles == old(self).inflight_roles,
            final(self).role_ttl == old(self).role_ttl,
            final(self).status_ttl == old(self).status_ttl,
            forall|i: int, j: int|
                0 <= i < j < final(self).inflight_statuses@.len() ==> (#[trigger] final(self).inflight_statuses@[i])@ != (#[trigger] final(self).inflight_statuses@[j])@,
            !final(self).status_inflight(game@),
            forall|g: GameConfigV|
                g != game@ ==> final(self).status_inflight(g) == old(self).status_inflight(g),
    {
        let ghost pre = self.inflight_statuses@;
        let mut i: usize = 0;
        while i < self.inflight_statuses.len()
            invariant
                *self == *old(self),
                pre == self.inflight_statuses@,
                forall|x: int, y: int|
                    0 <= x < y < pre.len() ==> (#[trigger] pre[x])@ != (#[trigger] pre[y])@,
                0 <= i <= self.inflight_statuses@.len(),
                forall|j: int|
                    0 <= j < i ==> (#[trigger] self.inflight_statuses@[j])@ != game@,
            decreases self.inflight_statuses@.len() - i,
        {
            if self.inflight_statuses[i].key_eq(game) {
                proof {
                    assert(pre[i as int]@ == game@);
                }
                self.inflight_statuses.remove(i);
                proof {
                    let post = self.inflight_statuses@;
                    assert(post == pre.remove(i as int));
                    assert(post.len() == pre.len() - 1);
                    assert(forall|x: int, y: int|
                        0 <= x < y < pre.len() ==> (#[trigger] pre[x])@ != (#[trigger] pre[y])@);
                    assert(forall|k: int| 0 <= k < i ==> post[k] == pre[k]);
                    assert(forall|k: int| i <= k < post.len() ==> post[k] == pre[k + 1]);
                    assert forall|a: int, b: int|
                        0 <= a < b < post.len() implies (#[trigger] post[a])@ != (
                    #[trigger] post[b])@ by {
                        let a0: int = if a < i { a } else { a + 1 };
                        let b0: int = if b < i { b } else { b + 1 };
                        assert(post[a] == pre[a0] && post[b] == pre[b0]);
                    }
                    assert forall|k: int| 0 <= k < post.len() implies (#[trigger] post[k])@
                        != game@ by {
                        let k0: int = if k < i { k } else { k + 1 };
                        assert(post[k] == pre[k0]);
                        if k0 < i {
                            assert(pre[k0]@ != game@);
                        } else {
                            assert(pre[i as int]@ == game@);
                        }
                    }
                    assert forall|g: GameConfigV| g != game@ implies self.status_inflight(g)
                        == old(self).status_inflight(g) by {
                        if old(self).status_inflight(g) {
                            let j = choose|j: int| 0 <= j < pre.len() && pre[j]@ == g;
                            assert(j != i);
                            if j < i {
                                assert(post[j]@ == g);
                            } else {
                                assert(post[j - 1]@ == g);
                            }
                        }
                        if self.status_inflight(g) {
                            let j = choose|j: int| 0 <= j < post.len() && post[j]@ == g;
                            let j0: int = if j < i { j } else { j + 1 };
                            assert(pre[j0]@ == g);
                        }
                    }
                }
                return ;
            }
            i += 1;
        }
    }

    /// Stores the outcome of a role resolution, clears the caller's
    /// in-flight marker, and returns the effective role set.  A failed
    /// resolution (`None`) fails open to the empty role set: the caller is
    /// treated as having no elevated access rather than seeing an error.
    /// Every other caller's entry and marker is untouched.
    pub fn store_roles(&mut self, user: UserId, fetched: Option<Vec<RoleId>>, now: u64) -> (r: Vec<
        RoleId,
    >)
        requires
            old(self).wf(),
        ensures
            final(self).wf(),
            final(self).config_store == old(self).config_store,
            final(self).statuses == old(self).statuses,
            final(self).pool == old(self).pool,
            final(self).inflight_statuses == old(self).inflight_statuses,
            final(self).role_ttl == old(self).role_ttl,
            final(self).status_ttl == old(self).status_ttl,
            r@ == match fetched {
                Some(v) => v@,
                None => Seq::<RoleId>::empty(),
            },
            final(self).user_roles.has_user(user@),
            final(self).user_roles.cached_roles(user@) == role_views(r@),
            final(self).user_roles.expiry_of(user@) == spec_sat_add(now, old(self).role_ttl),
            forall|u: u64|
                u != user@ ==> final(self).user_roles.has_user(u) == old(self).user_roles.has_user(
                    u,
                ),
            forall|u: u64|
                u != user@ && old(self).user_roles.has_user(u) ==> final(self).user_roles.cached_roles(u) == old(self).user_roles.cached_roles(u) && final(self).user_roles.expiry_of(u) == old(self).user_roles.expiry_of(u),
            !final(self).role_inflight(user@),
            forall|u: u64| u != user@ ==> final(self).role_inflight(u) == old(self).role_inflight(u),
    {
        let roles = match fetched {
            Some(v) => v,
            None => Vec::new(),
        };
        let r = copy_roles(&roles);
        let expiry = expiry_instant(now, self.role_ttl);
        self.user_roles.store(user, roles, expiry);
        self.clear_role_inflight(user);
        r
    }

    /// Plans the live fetches of a request: one registry entry per distinct
    /// backend key that some visible entry uses, that no live cache entry
    /// serves, and that no other request is already fetching.  Every planned
    /// key is marked in flight before the plan is handed out, so N requests
    /// within one TTL window cause at most one fetch per key, however they
    /// overlap; [`Self::store_status`] clears the marker.
    pub fn pending_fetches(&mut self, roles: &Vec<RoleId>, now: u64) -> (r: Vec<ServerConfig>)
        requires
            old(self).wf(),
        ensures
            final(self).wf(),
            final(self).config_store == old(self).config_store,
            final(self).statuses == old(self).statuses,
            final(self).user_roles == old(self).user_roles,
            final(self).pool == old(self).pool,
            final(self).inflight_roles == old(self).inflight_roles,
            final(self).role_ttl == old(self).role_ttl,
            final(self).status_ttl == old(self).status_ttl,
            forall|k: int|
                0 <= k < r.deep_view().len() ==> old(self).spec_needs_fetch(
                    role_views(roles@),
                    now,
                    (#[trigger] r.deep_view()[k]).game,
                ) && old(self).config_store@.contains(r.deep_view()[k]) && r.deep_view()[k].visible_to(
                    role_views(roles@),
                ),
            forall|g: GameConfigV|
                old(self).spec_needs_fetch(role_views(roles@), now, g) ==> exists|k: int|
                    0 <= k < r.deep_view().len() && (#[trigger] r.deep_view()[k]).game == g,
            forall|k1: int, k2: int|
                0 <= k1 < k2 < r.deep_view().len() ==> (#[trigger] r.deep_view()[k1]).game != (
                #[trigger] r.deep_view()[k2]).game,
            forall|g: GameConfigV|
                final(self).status_inflight(g) <==> (old(self).status_inflight(g) || exists|k: int|
                    0 <= k < r.deep_view().len() && (#[trigger] r.deep_view()[k]).game == g),
    {
        let ghost cs = self.config_store@;
        let ghost rs = role_views(roles@);
        let mut r: Vec<ServerConfig> = Vec::new();
        let mut i: usize = 0;
        while i < self.config_store.entries.len()
            invariant
                *self == *old(self),
                self.wf(),
                cs == self.config_store@,
                rs == role_views(roles@),
                0 <= i <= self.config_store.entries@.len(),
                cs.len() == self.config_store.entries@.len(),
                forall|k: int|
                    0 <= k < r.deep_view().len() ==> self.spec_needs_fetch(
                        rs,
                        now,
                        (#[trigger] r.deep_view()[k]).game,
                    ) && cs.contains(r.deep_view()[k]) && r.deep_view()[k].visible_to(rs),
                forall|g: GameConfigV|
                    (!self.statuses.live(g, now) && !self.status_inflight(g) && exists|j: int|
                        0 <= j < i && (#[trigger] cs[j]).visible_to(rs) && cs[j].game == g)
                        ==> exists|k: int|
                        0 <= k < r.deep_view().len() && (#[trigger] r.deep_view()[k]).game == g,
                forall|k1: int, k2: int|
                    0 <= k1 < k2 < r.deep_view().len() ==> (#[trigger] r.deep_view()[k1]).game != (
                    #[trigger] r.deep_view()[k2]).game,
            decreases self.config_store.entries@.len() - i,
        {
            let c = &self.config_store.entries[i];
            proof {
                assert(c.deep_view() == cs[i as int]);
            }
            let vis = match &c.required_role {
                Some(role) => roles_contain(roles, *role),
                None => false,
            };
            proof {
                match c.required_role {
                    Some(role) => crate::ids::lemma_roles_contain_views(roles@, role@),
                    None => (),
                }
                assert(vis == cs[i as int].visible_to(rs));
            }
            let ghost r_head = r.deep_view();
            if vis {
                let cached = self.statuses.lookup(&c.game, now);
                match cached {
                    Some(_) => {
                        proof {
                            assert(self.statuses.live(cs[i as int].game, now));
                        }
                    },
                    None => {
                        if self.status_inflight_contains(&c.game) {
                            proof {
                                assert(self.status_inflight(cs[i as int].game));
                            }
                        } else {
                            let mut seen = false;
                            let mut k: usize = 0;
                            while k < r.len()
                                invariant
                                    0 <= k <= r@.len(),
                                    0 <= i < self.config_store.entries@.len(),
                                    cs.len() == self.config_store.entries@.len(),
                                    c == &self.config_store.entries[i as int],
                                    c.deep_view() == cs[i as int],
                                    seen <==> exists|k2: int|
                                        0 <= k2 < k && (#[trigger] r.deep_view()[k2]).game == cs[i as int].game,
                                decreases r@.len() - k,
                            {
                                if r[k].game.key_eq(&c.game) {
                                    proof {
                                        assert(r.deep_view()[k as int].game == cs[i as int].game);
                                    }
                                    seen = true;
                                }
                                k += 1;
                            }
                            if !seen {
                                let ghost old_dv = r.deep_view();
                                r.push(c.clone());
                                proof {
                                    assert(r.deep_view() =~= old_dv.push(cs[i as int]));
                                    assert(forall|k2: int|
                                        0 <= k2 < old_dv.len() ==> r.deep_view()[k2] == old_dv[k2]);
                                    assert(r.deep_view()[old_dv.len() as int] == cs[i as int]);
                                    assert(cs[i as int].visible_to(rs));
                                    assert(cs.contains(cs[i as int]));
                                }
                            }
                        }
                    },
                }
            }
            proof {
                assert forall|g: GameConfigV|
                    (!self.statuses.live(g, now) && !self.status_inflight(g) && exists|j: int|
                        0 <= j < i + 1 && (#[trigger] cs[j]).visible_to(rs) && cs[j].game == g)
                    implies exists|k: int|
                    0 <= k < r.deep_view().len() && (#[trigger] r.deep_view()[k]).game == g by {
                    let j = choose|j: int|
                        0 <= j < i + 1 && (#[trigger] cs[j]).visible_to(rs) && cs[j].game == g;
                    if j < i {
                        let k = choose|k: int|
                            0 <= k < r_head.len() && (#[trigger] r_head[k]).game == g;
                        assert(r.deep_view()[k].game == g);
                    } else {
                        assert(cs[i as int].visible_to(rs) && cs[i as int].game == g);
                    }
                }
            }
            i += 1;
        }
        proof {
            assert forall|g: GameConfigV|
                self.spec_needs_fetch(rs, now, g) implies exists|k: int|
                0 <= k < r.deep_view().len() && (#[trigger] r.deep_view()[k]).game == g by {
                let j = choose|j: int|
                    0 <= j < cs.len() && (#[trigger] cs[j]).visible_to(rs) && cs[j].game == g;
                assert(0 <= j < i);
            }
        }
        // mark every planned key as in flight before handing the plan out
        let ghost plan_v = r.deep_view();
        let mut k: usize = 0;
        while k < r.len()
            invariant
                r.deep_view() == plan_v,
                self.config_store == old(self).config_store,
                self.statuses == old(self).statuses,
                self.user_roles == old(self).user_roles,
                self.pool == old(self).pool,
                self.inflight_roles == old(self).inflight_roles,
                self.role_ttl == old(self).role_ttl,
                self.status_ttl == old(self).status_ttl,
                0 <= k <= r@.len(),
                r@.len() == plan_v.len(),
                forall|t: int|
                    0 <= t < plan_v.len() ==> !old(self).status_inflight(
                        (#[trigger] plan_v[t]).game,
                    ),
                forall|t1: int, t2: int|
                    0 <= t1 < t2 < plan_v.len() ==> (#[trigger] plan_v[t1]).game != (
                    #[trigger] plan_v[t2]).game,
                forall|i2: int, j2: int|
                    0 <= i2 < j2 < self.inflight_statuses@.len() ==> (
                    #[trigger] self.inflight_statuses@[i2])@ != (
                    #[trigger] self.inflight_statuses@[j2])@,
                forall|g: GameConfigV|
                    self.status_inflight(g) <==> (old(self).status_inflight(g) || exists|j: int|
                        0 <= j < k && (#[trigger] plan_v[j]).game == g),
            decreases r@.len() - k,
        {
            let ghost pre_in = self.inflight_statuses@;
            let key = r[k].game.clone();
            proof {
                assert(r@[k as int].deep_view() == plan_v[k as int]);
                assert(key@ == plan_v[k as int].game);
                assert(!old(self).status_inflight(plan_v[k as int].game));
                assert(!self.status_inflight(plan_v[k as int].game));
                assert(forall|j: int| 0 <= j < pre_in.len() ==> (#[trigger] pre_in[j])@ != key@);
            }
            self.inflight_statuses.push(key);
            proof {
                let post = self.inflight_statuses@;
                assert(forall|j: int| 0 <= j < pre_in.len() ==> post[j] == pre_in[j]);
                assert(post[pre_in.len() as int]@ == plan_v[k as int].game);
                assert forall|g: GameConfigV| self.status_inflight(g) <==> (old(self).status_inflight(g) || exists|j: int|
                    0 <= j < k + 1 && (#[trigger] plan_v[j]).game == g) by {
                    if self.status_inflight(g) {
                        let j = choose|j: int| 0 <= j < post.len() && (#[trigger] post[j])@ == g;
                        if j < pre_in.len() {
                            assert(pre_in[j]@ == g);
                        } else {
                            assert(plan_v[k as int].game == g);
                        }
                    }
                    if old(self).status_inflight(g) || (exists|j: int|
                        0 <= j < k + 1 && (#[trigger] plan_v[j]).game == g) {
                        if exists|j: int| 0 <= j < k + 1 && (#[trigger] plan_v[j]).game == g {
                            let j = choose|j: int|
                                0 <= j < k + 1 && (#[trigger] plan_v[j]).game == g;
                            if j == k {
                                assert(post[pre_in.len() as int]@ == g);
                            }
                        }
                    }
                }
            }
            k += 1;
        }
        r
    }

    /// Stores the raw outcome of one backend fetch under its key and clears
    /// the key's in-flight marker: a successful status is cached as fetched
    /// (entry identities are overlaid at assembly), a failure becomes the
    /// raw degraded record for that key.  Either way the value is cached
    /// until `now` plus the status TTL.  Every other key's entry and marker
    /// is untouched.
    pub fn store_status(&mut self, game: &GameConfig, fetched: Option<ServerStatus>, now: u64)
        requires
            old(self).wf(),
        ensures
            final(self).wf(),
            final(self).config_store == old(self).config_store,
            final(self).user_roles == old(self).user_roles,
            final(self).pool == old(self).pool,
            final(self).inflight_roles == old(self).inflight_roles,
            final(self).role_ttl == old(self).role_ttl,
            final(self).status_ttl == old(self).status_ttl,
            final(self).statuses.has_key(game@),
            final(self).statuses.cached_status(game@) == match fetched {
                Some(s) => s@,
                None => spec_raw_degraded(game@),
            },
            final(self).statuses.expiry_of(game@) == spec_sat_add(now, old(self).status_ttl),
            forall|g: GameConfigV|
                g != game@ ==> final(self).statuses.has_key(g) == old(self).statuses.has_key(g),
            forall|g: GameConfigV|
                g != game@ && old(self).statuses.has_key(g) ==> final(self).statuses.cached_status(
                    g,
                ) == old(self).statuses.cached_status(g) && final(self).statuses.expiry_of(g)
                    == old(self).statuses.expiry_of(g),
            !final(self).status_inflight(game@),
            forall|g: GameConfigV|
                g != game@ ==> final(self).status_inflight(g) == old(self).status_inflight(g),
    {
        let status = match fetched {
            Some(s) => s,
            None => raw_degraded_status(game),
        };
        let expiry = expiry_instant(now, self.status_ttl);
        self.statuses.store(game.clone(), status, expiry);
        self.clear_status_inflight(game);
    }

    /// Assembles the result for a caller holding `roles` at instant `now`:
    /// one status per visible entry, in registry order, each the live cached
    /// record of its backend with the entry's own display name and public
    /// address overlaid, or the degraded record when none is live.
    pub fn get_servers(&self, roles: &Vec<RoleId>, now: u64) -> (r: Vec<ServerStatus>)
        requires
            self.wf(),
        ensures
            r.deep_view() == self.spec_get_servers(role_views(roles@), now),
    {
        let ghost cs = self.config_store@;
        let ghost rs = role_views(roles@);
        let configs = &self.config_store.entries;
        let mut r: Vec<ServerStatus> = Vec::new();
        let mut i: usize = 0;
        proof {
            assert(cs.take(0) =~= Seq::<ServerConfigV>::empty());
            assert(spec_visible(cs.take(0), rs) =~= Seq::<ServerConfigV>::empty()) by {
                reveal_with_fuel(Seq::filter, 1);
            }
            assert(r.deep_view() =~= spec_visible(cs.take(0), rs).map(
                |i: int, c: ServerConfigV| spec_status_for(self.statuses, c, now),
            ));
        }
        while i < configs.len()
            invariant
                self.wf(),
                cs == self.config_store@,
                rs == role_views(roles@),
                configs == &self.config_store.entries,
                0 <= i <= configs@.len(),
                cs.len() == configs@.len(),
                r.deep_view() == spec_visible(cs.take(i as int), rs).map(
                    |i: int, c: ServerConfigV| spec_status_for(self.statuses, c, now),
                ),
            decreases configs@.len() - i,
        {
            let c = &configs[i];
            proof {
                assert(c.deep_view() == cs[i as int]);
                lemma_visible_take_step(cs, rs, i as int);
            }
            let vis = match &c.required_role {
                Some(role) => roles_contain(roles, *role),
                None => false,
            };
            proof {
                match c.required_role {
                    Some(role) => crate::ids::lemma_roles_contain_views(roles@, role@),
                    None => (),
                }
                assert(vis == cs[i as int].visible_to(rs));
            }
            if vis {
                let status = match self.statuses.lookup(&c.game, now) {
                    Some(s) => overlay_status(c, s.clone()),
                    None => degraded_status(c),
                };
                proof {
                    assert(status@ == spec_status_for(self.statuses, cs[i as int], now));
                }
                let ghost old_dv = r.deep_view();
                r.push(status);
                proof {
                    assert(r.deep_view() =~= old_dv.push(spec_status_for(
                        self.statuses,
                        cs[i as int],
                        now,
                    )));
                    assert(r.deep_view() =~= spec_visible(cs.take(i + 1), rs).map(
                        |i: int, c: ServerConfigV| spec_status_for(self.statuses, c, now),
                    ));
                }
            } else {
                proof {
                    assert(r.deep_view() =~= spec_visible(cs.take(i + 1), rs).map(
                        |i: int, c: ServerConfigV| spec_status_for(self.statuses, c, now),
                    ));
                }
            }
            i += 1;
        }
        proof {
            assert(cs.take(cs.len() as int) =~= cs);
        }
        r
    }

    /// Answers a request from the caches alone: the caller's cached role set,
    /// if live, determines the visible entries and their statuses.  A `None`
    /// means the caller's roles are not cached and must be resolved first.
    pub fn get_servers_for_user(&self, user: UserId, now: u64) -> (r: Option<Vec<ServerStatus>>)
        requires
            self.wf(),
        ensures
            match r {
                Some(v) => self.user_roles.live(user@, now) && v.deep_view()
                    == self.spec_get_servers(self.user_roles.cached_roles(user@), now),
                None => !self.user_roles.live(user@, now),
            },
    {
        match self.roles_if_cached(user, now) {
            Some(roles) => Some(self.get_servers(&roles, now)),
            None => None,
        }
    }
}

/// Coalescing law: while a key's cached status is live, or while a fetch for
/// it is already underway, no request plans a fetch for it; so any number of
/// requests, however they overlap, cause at most one fetch per key — the one
/// whose plan marked the key — until its outcome is stored.
pub proof fn lemma_single_flight(m: ServerManager, roles: Seq<u64>, now: u64, g: GameConfigV)
    requires
        m.wf(),
        m.statuses.live(g, now) || m.status_inflight(g),
    ensures
        !m.spec_needs_fetch(roles, now, g),
{
}

/// TTL window law: once a fetch outcome for a key is stored, every request
/// at any instant before the entry's expiry plans no fetch for that key,
/// whatever roles the callers hold.
pub proof fn lemma_ttl_window_no_fetch(m: ServerManager, g: GameConfigV, t: u64)
    requires
        m.wf(),
        m.statuses.has_key(g),
        t < m.statuses.expiry_of(g),
    ensures
        forall|roles: Seq<u64>| !m.spec_needs_fetch(roles, t, g),
{
}

/// Visibility law: the visible set holds exactly the entries whose required
/// role the caller has; an entry that requires no role is visible to nobody.
pub proof fn lemma_visibility(configs: Seq<ServerConfigV>, roles: Seq<u64>)
    ensures
        forall|k: int|
            0 <= k < spec_visible(configs, roles).len() ==> (#[trigger] spec_visible(
                configs,
                roles,
            )[k]).visible_to(roles),
        forall|i: int|
            0 <= i < configs.len() && (#[trigger] configs[i]).visible_to(roles) ==> spec_visible(
                configs,
                roles,
            ).contains(configs[i]),
        forall|i: int|
            0 <= i < configs.len() && (#[trigger] configs[i]).required_role is None
                ==> !configs[i].visible_to(roles),
{
    let p = |c: ServerConfigV| c.visible_to(roles);
    broadcast use vstd::seq_lib::group_seq_lib_default;

    assert forall|k: int| 0 <= k < spec_visible(configs, roles).len() implies (
    #[trigger] spec_visible(configs, roles)[k]).visible_to(roles) by {
        configs.lemma_filter_pred(p, k);
    }
    assert forall|i: int|
        0 <= i < configs.len() && (#[trigger] configs[i]).visible_to(roles) implies spec_visible(
        configs,
        roles,
    ).contains(configs[i]) by {
        configs.lemma_filter_contains(p, i);
    }
}

/// Idempotence law: with unchanged roles and every visible backend's cache
/// entry live at both instants, two requests assemble the identical ordered
/// list.
pub proof fn lemma_idempotent(m: ServerManager, roles: Seq<u64>, t1: u64, t2: u64)
    requires
        m.wf(),
        forall|k: int|
            0 <= k < spec_visible(m.config_store@, roles).len() ==> m.statuses.live(
                (#[trigger] spec_visible(m.config_store@, roles)[k]).game,
                t1,
            ) && m.statuses.live(spec_visible(m.config_store@, roles)[k].game, t2),
    ensures
        m.spec_get_servers(roles, t1) == m.spec_get_servers(roles, t2),
{
    let vis = spec_visible(m.config_store@, roles);
    assert(m.spec_get_servers(roles, t1) =~= m.spec_get_servers(roles, t2));
}

/// Failure isolation law: the degraded record of an entry keeps the entry's
/// display name and public address and has Unknown health; and by
/// [`ServerManager::store_status`]'s contract, storing a failure touches no
/// other key's cached status.
pub proof fn lemma_failure_isolation(c: ServerConfigV)
    ensures
        spec_degraded(c).health() is Unknown,
        spec_degraded(c).name() == c.name,
        spec_degraded(c).url() == c.public_dns,
{
}

} // verus!
