//! Pool of persistent backend connections, keyed by backend configuration.
//!
//! The pool holds at most one connection per configuration.  The connection
//! object itself lives with the caller (it is an open socket the verifier
//! never sees); the pool tracks it by an opaque token.  An entry is served
//! while its idle time is under the pool's idle timeout, and each successful
//! checkout restarts that clock.  A failed connection attempt is never
//! inserted, so the next request retries immediately.

use vstd::pervasive::VecAdditionalExecFns;
use vstd::prelude::*;

use crate::cache::spec_sat_add;
use crate::config::{GameConfig, GameConfigV};

verus! {

/// One pooled connection: its key, the caller's token for the live
/// connection object, and the instant of its last use.
pub struct PoolEntry {
    pub game: GameConfig,
    pub token: u64,
    pub last_used: u64,
}

/// Pool of persistent connections with idle-time eviction.
pub struct ConnectionPool {
    pub entries: Vec<PoolEntry>,
    pub idle_ttl: u64,
}

impl ConnectionPool {
    /// At most one entry per backend configuration.
    pub open spec fn wf(&self) -> bool {
        forall|i: int, j: int|
            0 <= i < j < self.entries@.len() ==> (#[trigger] self.entries@[i]).game@ != (
            #[trigger] self.entries@[j]).game@
    }

    /// Whether some entry (idle-expired or not) exists for this key.
    pub open spec fn has_key(&self, game: GameConfigV) -> bool {
        exists|i: int| 0 <= i < self.entries@.len() && (#[trigger] self.entries@[i]).game@ == game
    }

    /// Index of this key's entry.
    pub open spec fn key_index(&self, game: GameConfigV) -> int {
        choose|i: int| 0 <= i < self.entries@.len() && (#[trigger] self.entries@[i]).game@ == game
    }

    /// The caller's token for this key's connection.
    pub open spec fn token_of(&self, game: GameConfigV) -> u64 {
        self.entries@[self.key_index(game)].token
    }

    /// The instant of this key's last use.
    pub open spec fn last_used_of(&self, game: GameConfigV) -> u64 {
        self.entries@[self.key_index(game)].last_used
    }

    /// Whether this key's connection is still pooled at instant `now`: it
    /// exists and its idle time is under the idle timeout.
    pub open spec fn live(&self, game: GameConfigV, now: u64) -> bool {
        self.has_key(game) && now < spec_sat_add(self.last_used_of(game), self.idle_ttl)
    }

    proof fn lemma_index_unique(&self, game: GameConfigV)
        requires
            self.wf(),
            self.has_key(game),
        ensures
            forall|k: int|
                0 <= k < self.entries@.len() && (#[trigger] self.entries@[k]).game@ == game ==> k
                    == self.key_index(game),
    {
        let w = self.key_index(game);
        assert(0 <= w < self.entries@.len() && self.entries@[w].game@ == game);
    }

    pub fn new(idle_ttl: u64) -> (r: ConnectionPool)
        ensures
            r.wf(),
            r.idle_ttl == idle_ttl,
            forall|g: GameConfigV| !r.has_key(g),
    {
        ConnectionPool { entries: Vec::new(), idle_ttl }
    }

    /// Hands out the pooled connection token for this key if it is still
    /// live, restarting its idle clock; otherwise the caller must open a new
    /// connection (the entry, if any, is treated as evicted).
    pub fn checkout(&mut self, game: &GameConfig, now: u64) -> (r: Option<u64>)
        requires
            old(self).wf(),
        ensures
            final(self).wf(),
            final(self).idle_ttl == old(self).idle_ttl,
            match r {
                Some(t) => {
                    &&& old(self).live(game@, now)
                    &&& t == old(self).token_of(game@)
                    &&& final(self).has_key(game@)
                    &&& final(self).token_of(game@) == t
                    &&& final(self).last_used_of(game@) == now
                },
                None => {
                    &&& !old(self).live(game@, now)
                    &&& *final(self) == *old(self)
                },
            },
            forall|g: GameConfigV| g != game@ ==> final(self).has_key(g) == old(self).has_key(g),
            forall|g: GameConfigV|
                g != game@ && old(self).has_key(g) ==> final(self).token_of(g) == old(
                    self,
                ).token_of(g) && final(self).last_used_of(g) == old(self).last_used_of(g),
    {
        let ghost pre = *self;
        let mut i: usize = 0;
        while i < self.entries.len()
            invariant
                *self == pre,
                pre == *old(self),
                pre.wf(),
                0 <= i <= self.entries@.len(),
                forall|j: int| 0 <= j < i ==> (#[trigger] self.entries@[j]).game@ != game@,
            decreases self.entries@.len() - i,
        {
            if self.entries[i].game.key_eq(game) {
                proof {
                    assert(pre.has_key(game@));
                    pre.lemma_index_unique(game@);
                    assert(pre.key_index(game@) == i);
                }
                let deadline = crate::cache::expiry_instant(self.entries[i].last_used, self.idle_ttl);
                if now < deadline {
                    let token = self.entries[i].token;
                    let entry = PoolEntry {
                        game: self.entries[i].game.clone(),
                        token,
                        last_used: now,
                    };
                    self.entries.set(i, entry);
                    proof {
                        Self::lemma_replace_at(pre, *self, game@, i as int);
                    }
                    return Some(token);
                } else {
                    return None;
                }
            }
            i += 1;
        }
        proof {
            assert(!pre.has_key(game@));
        }
        None
    }

    /// Pools a freshly opened connection under this key, replacing whatever
    /// was there.  Every other key's entry is untouched.
    pub fn insert(&mut self, game: GameConfig, token: u64, now: u64)
        requires
            old(self).wf(),
        ensures
            final(self).wf(),
            final(self).idle_ttl == old(self).idle_ttl,
            final(self).has_key(game@),
            final(self).token_of(game@) == token,
            final(self).last_used_of(game@) == now,
            forall|g: GameConfigV| g != game@ ==> final(self).has_key(g) == old(self).has_key(g),
            forall|g: GameConfigV|
                g != game@ && old(self).has_key(g) ==> final(self).token_of(g) == old(
                    self,
                ).token_of(g) && final(self).last_used_of(g) == old(self).last_used_of(g),
    {
        let ghost pre = *self;
        let ghost gv = game@;
        let mut i: usize = 0;
        while i < self.entries.len()
            invariant
                *self == pre,
                pre == *old(self),
                pre.wf(),
                game@ == gv,
                0 <= i <= self.entries@.len(),
                forall|j: int| 0 <= j < i ==> (#[trigger] self.entries@[j]).game@ != gv,
            decreases self.entries@.len() - i,
        {
            if self.entries[i].game.key_eq(&game) {
                proof {
                    assert(pre.has_key(gv));
                    pre.lemma_index_unique(gv);
                }
                let entry = PoolEntry { game, token, last_used: now };
                self.entries.set(i, entry);
                proof {
                    Self::lemma_replace_at(pre, *self, gv, i as int);
                }
                return ;
            }
            i += 1;
        }
        proof {
            assert(!pre.has_key(gv));
        }
        let entry = PoolEntry { game, token, last_used: now };
        self.entries.push(entry);
        proof {
            Self::lemma_pushed(pre, *self, gv);
        }
    }

    proof fn lemma_replace_at(pre: ConnectionPool, post: ConnectionPool, game: GameConfigV, i: int)
        requires
            pre.wf(),
            0 <= i < pre.entries@.len(),
            pre.entries@[i].game@ == game,
            post.entries@ == pre.entries@.update(i, post.entries@[i]),
            post.entries@[i].game@ == game,
        ensures
            post.wf(),
            post.has_key(game),
            post.key_index(game) == i,
            forall|g: GameConfigV| g != game ==> post.has_key(g) == pre.has_key(g),
            forall|g: GameConfigV|
                g != game && pre.has_key(g) ==> post.token_of(g) == pre.token_of(g)
                    && post.last_used_of(g) == pre.last_used_of(g),
    {
        assert(post.entries@.len() == pre.entries@.len());
        assert(forall|k: int|
            0 <= k < post.entries@.len() && k != i ==> post.entries@[k] == pre.entries@[k]);
        assert(post.wf());
        assert(post.has_key(game));
        post.lemma_index_unique(game);
        assert forall|g: GameConfigV| g != game implies post.has_key(g) == pre.has_key(g) by {
            if pre.has_key(g) {
                let k = pre.key_index(g);
                assert(k != i);
                assert(post.entries@[k].game@ == g);
            }
            if post.has_key(g) {
                let k = post.key_index(g);
                assert(k != i);
                assert(pre.entries@[k].game@ == g);
            }
        }
        assert forall|g: GameConfigV| g != game && pre.has_key(g) implies post.token_of(g)
            == pre.token_of(g) && post.last_used_of(g) == pre.last_used_of(g) by {
            let k = pre.key_index(g);
            assert(pre.entries@[k].game@ == g);
            assert(k != i);
            assert(post.entries@[k].game@ == g);
            post.lemma_index_unique(g);
            assert(post.key_index(g) == k);
        }
    }

    proof fn lemma_pushed(pre: ConnectionPool, post: ConnectionPool, game: GameConfigV)
        requires
            pre.wf(),
            !pre.has_key(game),
            post.entries@ == pre.entries@.push(post.entries@.last()),
            post.entries@.len() == pre.entries@.len() + 1,
            post.entries@.last().game@ == game,
        ensures
            post.wf(),
            post.has_key(game),
            post.key_index(game) == post.entries@.len() - 1,
            forall|g: GameConfigV| g != game ==> post.has_key(g) == pre.has_key(g),
            forall|g: GameConfigV|
                g != game && pre.has_key(g) ==> post.token_of(g) == pre.token_of(g)
                    && post.last_used_of(g) == pre.last_used_of(g),
    {
        let n = pre.entries@.len() as int;
        assert(forall|k: int| 0 <= k < n ==> post.entries@[k] == pre.entries@[k]);
        assert forall|i: int, j: int|
            0 <= i < j < post.entries@.len() implies (#[trigger] post.entries@[i]).game@ != (
        #[trigger] post.entries@[j]).game@ by {
            if j == n {
                assert(post.entries@[i].game@ != game) by {
                    if post.entries@[i].game@ == game {
                        assert(pre.entries@[i].game@ == game);
                        assert(pre.has_key(game));
                    }
                }
            }
        }
        assert(post.entries@[n].game@ == game);
        assert(post.has_key(game));
        post.lemma_index_unique(game);
        assert forall|g: GameConfigV| g != game implies post.has_key(g) == pre.has_key(g) by {
            if pre.has_key(g) {
                let k = pre.key_index(g);
                assert(post.entries@[k].game@ == g);
            }
            if post.has_key(g) {
                let k = post.key_index(g);
                assert(k != n);
                assert(pre.entries@[k].game@ == g);
            }
        }
        assert forall|g: GameConfigV| g != game && pre.has_key(g) implies post.token_of(g)
            == pre.token_of(g) && post.last_used_of(g) == pre.last_used_of(g) by {
            let k = pre.key_index(g);
            assert(pre.entries@[k].game@ == g);
            assert(post.entries@[k].game@ == g);
            post.lemma_index_unique(g);
            assert(post.key_index(g) == k);
        }
    }
}

/// Idle eviction law: a pooled connection last used at instant `u` is served
/// at every instant before `u + idle_ttl` and treated as evicted from that
/// instant on.
pub proof fn lemma_pool_idle_eviction(p: ConnectionPool, game: GameConfigV, t: u64)
    requires
        p.wf(),
        p.has_key(game),
    ensures
        t < spec_sat_add(p.last_used_of(game), p.idle_ttl) ==> p.live(game, t),
        t >= spec_sat_add(p.last_used_of(game), p.idle_ttl) ==> !p.live(game, t),
{
}

} // verus!
