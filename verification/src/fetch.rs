//! Building a normalized status from a backend's answers.
//!
//! A live fetch issues an ordered sequence of console commands and parses the
//! line-oriented answers.  Whatever the fetch outcome, the entry's static
//! identity (display name, public address) comes from the registry entry, and
//! a failed fetch degrades to Unknown health with that identity intact.

use vstd::prelude::*;

use crate::config::{FactorioConfig, FactorioConfigV, GameConfigV, GenericConfig, GenericConfigV,
    ServerConfig, ServerConfigV};
use crate::status::{FactorioStatus, FactorioStatusV, GenericStatus, GenericStatusV, HealthStatus,
    ServerStatus, ServerStatusV};
use crate::text::{first_token, spec_first_token, spec_split, spec_trim, split, trim};

verus! {

/// The ordered command sequence of a live fetch: the player list, the game
/// time, the game version.  If any one of them fails, the whole fetch fails.
pub fn rcon_commands() -> (r: Vec<&'static str>)
    ensures
        r@.len() == 3,
        r@[0]@ == "/players o"@,
        r@[1]@ == "/time"@,
        r@[2]@ == "/version"@,
{
    let mut r: Vec<&'static str> = Vec::new();
    r.push("/players o");
    r.push("/time");
    r.push("/version");
    r
}

/// The player names in the answer to the player-list command: every line
/// after the heading, trimmed, up to its first space.
pub open spec fn spec_players(resp: Seq<char>) -> Seq<Seq<char>> {
    let lines = spec_split(spec_trim(resp), '\n');
    if lines.len() <= 1 {
        Seq::empty()
    } else {
        Seq::new((lines.len() - 1) as nat, |i: int| spec_first_token(spec_trim(lines[i + 1])))
    }
}

/// Parses the player-list answer.
pub fn players_from_response(resp: &str) -> (r: Vec<String>)
    ensures
        r.deep_view() == spec_players(resp@),
{
    let t = trim(resp);
    let lines = split(t.as_str(), '\n');
    let ghost lines_v = spec_split(spec_trim(resp@), '\n');
    proof {
        assert(lines.deep_view() == lines_v);
    }
    let mut out: Vec<String> = Vec::new();
    let mut i: usize = 1;
    proof {
        assert(out.deep_view() =~= Seq::<Seq<char>>::empty());
    }
    while i < lines.len()
        invariant
            lines.deep_view() == lines_v,
            1 <= i <= lines@.len() || (i == 1 && lines@.len() == 0),
            out.deep_view() =~= Seq::new((i - 1) as nat, |k: int| spec_first_token(spec_trim(lines_v[k + 1]))),
        decreases lines@.len() - i,
    {
        let lt = trim(lines[i].as_str());
        let tok = first_token(lt.as_str());
        proof {
            assert(lines@[i as int].deep_view() == lines_v[i as int]);
            assert(tok@ == spec_first_token(spec_trim(lines_v[i as int])));
        }
        let ghost old_dv = out.deep_view();
        let ghost tok_v = tok@;
        out.push(tok);
        proof {
            assert(out.deep_view() =~= old_dv.push(tok_v));
        }
        i += 1;
    }
    proof {
        assert(out.deep_view() =~= spec_players(resp@));
    }
    out
}

/// The status a successful live fetch yields, before the entry's identity is
/// overlaid: Running health, the parsed player list, and the raw time and
/// version answers.
pub open spec fn spec_factorio_status(
    fc: FactorioConfigV,
    players_resp: Seq<char>,
    time_resp: Seq<char>,
    version_resp: Seq<char>,
) -> FactorioStatusV {
    FactorioStatusV {
        name: fc.rcon_host,
        health: HealthStatus::Running,
        url: Seq::empty(),
        game_password: fc.game_password,
        players_online: spec_players(players_resp),
        game_time: time_resp,
        game_version: version_resp,
    }
}

impl FactorioConfig {
    /// Normalized status from the answers to the three console commands.
    pub fn status_from_responses(
        &self,
        players_resp: &str,
        time_resp: &str,
        version_resp: &str,
    ) -> (r: FactorioStatus)
        ensures
            r@ == spec_factorio_status(self@, players_resp@, time_resp@, version_resp@),
    {
        FactorioStatus {
            name: self.rcon_host.clone(),
            health: HealthStatus::Running,
            url: String::new(),
            game_password: self.game_password.secret().clone(),
            players_online: players_from_response(players_resp),
            game_time: time_resp.to_owned(),
            game_version: version_resp.to_owned(),
        }
    }
}

/// The status of a backend with no live protocol: static registry data with
/// Unknown health.
pub open spec fn spec_generic_status(gc: GenericConfigV) -> GenericStatusV {
    GenericStatusV {
        name: Seq::empty(),
        game_name: gc.game_name,
        health: HealthStatus::Unknown,
        url: Seq::empty(),
        game_password: gc.game_password,
    }
}

impl GenericConfig {
    /// A generic backend has nothing to ask live; its status is built from
    /// the registry alone, with the entry's identity overlaid later.
    pub fn fetch_server_status(&self) -> (r: GenericStatus)
        ensures
            r@ == spec_generic_status(self@),
    {
        GenericStatus {
            name: String::new(),
            game_name: self.game_name.clone(),
            health: HealthStatus::Unknown,
            url: String::new(),
            game_password: self.game_password.secret().clone(),
        }
    }
}

/// A fetched status with the entry's display name and public address put in
/// place of whatever the fetch filled there.
pub open spec fn spec_overlay(c: ServerConfigV, s: ServerStatusV) -> ServerStatusV {
    match s {
        ServerStatusV::Factorio(f) => ServerStatusV::Factorio(
            FactorioStatusV {
                name: c.name,
                health: f.health,
                url: c.public_dns,
                game_password: f.game_password,
                players_online: f.players_online,
                game_time: f.game_time,
                game_version: f.game_version,
            },
        ),
        ServerStatusV::Generic(g) => ServerStatusV::Generic(
            GenericStatusV {
                name: c.name,
                game_name: g.game_name,
                health: g.health,
                url: c.public_dns,
                game_password: g.game_password,
            },
        ),
    }
}

/// The record served when an entry's live fetch failed: Unknown health, the
/// entry's identity intact, and placeholders for the dynamic fields.
pub open spec fn spec_degraded(c: ServerConfigV) -> ServerStatusV {
    match c.game {
        GameConfigV::Factorio(fc) => ServerStatusV::Factorio(
            FactorioStatusV {
                name: c.name,
                health: HealthStatus::Unknown,
                url: c.public_dns,
                game_password: fc.game_password,
                players_online: Seq::empty(),
                game_time: "unknown"@,
                game_version: "unknown"@,
            },
        ),
        GameConfigV::Generic(gc) => ServerStatusV::Generic(
            GenericStatusV {
                name: c.name,
                game_name: gc.game_name,
                health: HealthStatus::Unknown,
                url: c.public_dns,
                game_password: gc.game_password,
            },
        ),
    }
}

/// The record served when an entry's live fetch failed.
pub fn degraded_status(config: &ServerConfig) -> (r: ServerStatus)
    ensures
        r@ == spec_degraded(config@),
{
    match &config.game {
        crate::config::GameConfig::Factorio(fc) => {
            let players: Vec<String> = Vec::new();
            proof {
                assert(players.deep_view() =~= Seq::<Seq<char>>::empty());
            }
            ServerStatus::Factorio(
                FactorioStatus {
                    name: config.name.clone(),
                    health: HealthStatus::Unknown,
                    url: config.public_dns.clone(),
                    game_password: fc.game_password.secret().clone(),
                    players_online: players,
                    game_time: "unknown".to_owned(),
                    game_version: "unknown".to_owned(),
                },
            )
        },
        crate::config::GameConfig::Generic(gc) => ServerStatus::Generic(
            GenericStatus {
                name: config.name.clone(),
                game_name: gc.game_name.clone(),
                health: HealthStatus::Unknown,
                url: config.public_dns.clone(),
                game_password: gc.game_password.secret().clone(),
            },
        ),
    }
}

/// The status the cache holds for a backend whose fetch failed: Unknown
/// health and placeholders, with no entry identity yet — that is overlaid
/// per entry when results are assembled.
pub open spec fn spec_raw_degraded(g: GameConfigV) -> ServerStatusV {
    match g {
        GameConfigV::Factorio(fc) => ServerStatusV::Factorio(
            FactorioStatusV {
                name: fc.rcon_host,
                health: HealthStatus::Unknown,
                url: Seq::empty(),
                game_password: fc.game_password,
                players_online: Seq::empty(),
                game_time: "unknown"@,
                game_version: "unknown"@,
            },
        ),
        GameConfigV::Generic(gc) => ServerStatusV::Generic(spec_generic_status(gc)),
    }
}

/// The record cached for a backend whose fetch failed.
pub fn raw_degraded_status(game: &crate::config::GameConfig) -> (r: ServerStatus)
    ensures
        r@ == spec_raw_degraded(game@),
{
    match game {
        crate::config::GameConfig::Factorio(fc) => {
            let players: Vec<String> = Vec::new();
            proof {
                assert(players.deep_view() =~= Seq::<Seq<char>>::empty());
            }
            ServerStatus::Factorio(
                FactorioStatus {
                    name: fc.rcon_host.clone(),
                    health: HealthStatus::Unknown,
                    url: String::new(),
                    game_password: fc.game_password.secret().clone(),
                    players_online: players,
                    game_time: "unknown".to_owned(),
                    game_version: "unknown".to_owned(),
                },
            )
        },
        crate::config::GameConfig::Generic(gc) => ServerStatus::Generic(gc.fetch_server_status()),
    }
}

/// A status with the entry's display name and public address put in place.
pub fn overlay_status(config: &ServerConfig, s: ServerStatus) -> (r: ServerStatus)
    ensures
        r@ == spec_overlay(config@, s@),
{
    match s {
        ServerStatus::Factorio(f) => ServerStatus::Factorio(
            FactorioStatus {
                name: config.name.clone(),
                health: f.health,
                url: config.public_dns.clone(),
                game_password: f.game_password,
                players_online: f.players_online,
                game_time: f.game_time,
                game_version: f.game_version,
            },
        ),
        ServerStatus::Generic(g) => ServerStatus::Generic(
            GenericStatus {
                name: config.name.clone(),
                game_name: g.game_name,
                health: g.health,
                url: config.public_dns.clone(),
                game_password: g.game_password,
            },
        ),
    }
}

/// The record one entry shows for a fetch outcome: a successful fetch
/// overlaid with the entry's identity, or the degraded record when the fetch
/// failed.  A single backend failure thus degrades only its own entry and
/// never errors.
pub fn resolve_status(config: &ServerConfig, fetched: Option<ServerStatus>) -> (r: ServerStatus)
    ensures
        match fetched {
            Some(s) => r@ == spec_overlay(config@, s@),
            None => r@ == spec_degraded(config@),
        },
{
    match fetched {
        None => degraded_status(config),
        Some(s) => overlay_status(config, s),
    }
}

/// A stored failure and a missing cache entry show the same record: the
/// degraded record of an entry is its identity overlaid on the raw degraded
/// record of its backend.
pub proof fn lemma_degraded_coherence(c: ServerConfigV)
    ensures
        spec_overlay(c, spec_raw_degraded(c.game)) == spec_degraded(c),
{
}

} // verus!
