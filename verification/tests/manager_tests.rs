use server_status::config::{FactorioConfig, GameConfig, ServerConfig};
use server_status::manager::{visible_entries, ServerManager};
use server_status::secret::Secret;
use server_status::status::{HealthStatus, ServerStatus};
use server_status::{RoleId, UserId};

fn role(id: u64) -> RoleId {
    RoleId::from_raw(id).unwrap()
}

fn user(id: u64) -> UserId {
    UserId::from_raw(id).unwrap()
}

fn entry(name: &str, host: &str, dns: &str, required: Option<u64>) -> ServerConfig {
    ServerConfig {
        name: String::from(name),
        game: GameConfig::Factorio(FactorioConfig {
            rcon_host: String::from(host),
            rcon_password: Secret::new(String::from("rcon-pw")),
            game_password: Secret::new(String::from("game-pw")),
        }),
        public_dns: String::from(dns),
        required_role: required.map(|r| RoleId::from_raw(r).unwrap()),
    }
}

fn manager_with(entries: Vec<ServerConfig>) -> ServerManager {
    let mut m = ServerManager::new(10, 5, 300);
    m.config_store.entries = entries;
    m
}

#[test]
fn visibility_is_exactly_the_required_role_subset() {
    let configs = vec![
        entry("Alpha", "a:1", "a.net", Some(111)),
        entry("Beta", "b:1", "b.net", Some(222)),
        entry("Open", "o:1", "o.net", None),
    ];
    let roles = vec![role(111), role(333)];
    let visible = visible_entries(&configs, &roles);
    assert_eq!(visible.len(), 1);
    assert_eq!(visible[0].name, "Alpha");

    // an entry without a required role is excluded for every caller
    let all_roles = vec![role(111), role(222), role(333)];
    let visible = visible_entries(&configs, &all_roles);
    assert_eq!(visible.len(), 2);
    assert_eq!(visible[0].name, "Alpha");
    assert_eq!(visible[1].name, "Beta");

    let no_roles: Vec<RoleId> = Vec::new();
    assert!(visible_entries(&configs, &no_roles).is_empty());
}

#[test]
fn role_cache_serves_until_expiry_and_misses_after() {
    let mut m = manager_with(vec![]);
    let u = user(42);
    assert!(m.roles_if_cached(u, 100).is_none());
    let effective = m.store_roles(u, Some(vec![role(111)]), 100);
    assert_eq!(effective, vec![role(111)]);
    // before expiry: the cached set is reused, no re-fetch
    let hit = m.roles_if_cached(u, 105).expect("live entry");
    assert_eq!(hit, vec![role(111)]);
    let hit = m.roles_if_cached(u, 109).expect("live entry");
    assert_eq!(hit, vec![role(111)]);
    // at and after the expiry instant: a re-fetch is due
    assert!(m.roles_if_cached(u, 110).is_none());
    assert!(m.roles_if_cached(u, 200).is_none());
    // another caller's entry is independent
    assert!(m.roles_if_cached(user(43), 105).is_none());
}

#[test]
fn failed_role_resolution_fails_open_to_empty_set() {
    let mut m = manager_with(vec![entry("Alpha", "a:1", "a.net", Some(111))]);
    let u = user(42);
    let effective = m.store_roles(u, None, 100);
    assert!(effective.is_empty());
    let cached = m.roles_if_cached(u, 101).expect("live entry");
    assert!(cached.is_empty());
    // and the caller sees no servers rather than an error
    let result = m.get_servers(&cached, 101);
    assert!(result.is_empty());
}

#[test]
fn one_fetch_per_key_within_a_ttl_window() {
    let shared_host = "shared:27015";
    let mut m = manager_with(vec![
        entry("Alpha", shared_host, "a.net", Some(111)),
        entry("Mirror", shared_host, "m.net", Some(111)),
        entry("Beta", "b:1", "b.net", Some(111)),
    ]);
    let roles = vec![role(111)];
    // cold cache: one fetch per distinct backend key, duplicates coalesced
    let plan = m.pending_fetches(&roles, 1000);
    assert_eq!(plan.len(), 2);
    assert_eq!(plan[0].name, "Alpha");
    assert_eq!(plan[1].name, "Beta");
    // the keys are now marked in flight: an overlapping request plans nothing
    assert!(m.pending_fetches(&roles, 1000).is_empty());
    // the fetches complete and are stored, clearing the markers
    for e in &plan {
        m.store_status(&e.game, None, 1000);
    }
    // within the TTL window no further fetch is planned for any key
    assert!(m.pending_fetches(&roles, 1000).is_empty());
    assert!(m.pending_fetches(&roles, 1004).is_empty());
    // once the entries expire, fetches are due again
    let plan = m.pending_fetches(&roles, 1005);
    assert_eq!(plan.len(), 2);
}

#[test]
fn entries_sharing_a_backend_keep_their_own_identity() {
    let shared_host = "shared:27015";
    let mut m = manager_with(vec![
        entry("Alpha", shared_host, "a.net", Some(111)),
        entry("Mirror", shared_host, "m.net", Some(111)),
    ]);
    let roles = vec![role(111)];
    let plan = m.pending_fetches(&roles, 100);
    assert_eq!(plan.len(), 1);
    let raw = match &plan[0].game {
        GameConfig::Factorio(c) => {
            ServerStatus::Factorio(c.status_from_responses("Online players (0):", "9", "2.0"))
        }
        GameConfig::Generic(_) => unreachable!(),
    };
    m.store_status(&plan[0].game, Some(raw), 100);
    let result = m.get_servers(&roles, 101);
    assert_eq!(result.len(), 2);
    match (&result[0], &result[1]) {
        (ServerStatus::Factorio(a), ServerStatus::Factorio(b)) => {
            assert_eq!(a.name, "Alpha");
            assert_eq!(a.url, "a.net");
            assert_eq!(b.name, "Mirror");
            assert_eq!(b.url, "m.net");
            assert_eq!(a.health, HealthStatus::Running);
            assert_eq!(b.health, HealthStatus::Running);
            assert_eq!(a.game_time, b.game_time);
        }
        _ => panic!("wrong kinds"),
    }
}

#[test]
fn role_resolutions_coalesce_onto_one_marker() {
    let mut m = manager_with(vec![]);
    let u = user(9);
    // the first request with a cold cache is elected to resolve
    assert!(m.role_fetch_due(u, 100));
    // overlapping requests are not
    assert!(!m.role_fetch_due(u, 100));
    assert!(!m.role_fetch_due(u, 105));
    // another caller's resolution is independent
    assert!(m.role_fetch_due(user(10), 100));
    // storing the outcome clears the marker and serves from cache
    m.store_roles(u, Some(vec![role(1)]), 106);
    assert!(!m.role_fetch_due(u, 107));
    assert_eq!(m.roles_if_cached(u, 107), Some(vec![role(1)]));
    // after expiry a new resolution is due again
    assert!(m.role_fetch_due(u, 200));
}

#[test]
fn warm_caches_answer_identically() {
    let mut m = manager_with(vec![
        entry("Alpha", "a:1", "a.net", Some(111)),
        entry("Beta", "b:1", "b.net", Some(111)),
    ]);
    let roles = vec![role(111)];
    let plan = m.pending_fetches(&roles, 500);
    for e in plan {
        m.store_status(&e.game, None, 500);
    }
    let first = m.get_servers(&roles, 501);
    let second = m.get_servers(&roles, 502);
    let third = m.get_servers(&roles, 504);
    assert_eq!(first, second);
    assert_eq!(second, third);
    assert_eq!(first.len(), 2);
}

#[test]
fn backend_failure_degrades_only_its_entry() {
    let mut m = manager_with(vec![
        entry("Alpha", "a:1", "alpha.example.net", Some(111)),
        entry("Beta", "b:1", "beta.example.net", Some(111)),
    ]);
    let roles = vec![role(111)];
    let plan = m.pending_fetches(&roles, 100);
    assert_eq!(plan.len(), 2);
    // Alpha's fetch succeeds, Beta's connection fails
    let good = match &plan[0].game {
        GameConfig::Factorio(c) => {
            ServerStatus::Factorio(c.status_from_responses("Online players (0):", "100", "2.0"))
        }
        GameConfig::Generic(_) => unreachable!(),
    };
    m.store_status(&plan[0].game, Some(good), 100);
    m.store_status(&plan[1].game, None, 100);

    let result = m.get_servers(&roles, 101);
    assert_eq!(result.len(), 2);
    match &result[0] {
        ServerStatus::Factorio(s) => {
            assert_eq!(s.name, "Alpha");
            assert_eq!(s.health, HealthStatus::Running);
            assert_eq!(s.url, "alpha.example.net");
        }
        ServerStatus::Generic(_) => panic!("wrong kind"),
    }
    match &result[1] {
        ServerStatus::Factorio(s) => {
            assert_eq!(s.name, "Beta");
            assert_eq!(s.health, HealthStatus::Unknown);
            assert_eq!(s.url, "beta.example.net");
            assert!(s.players_online.is_empty());
            assert_eq!(s.game_time, "unknown");
        }
        ServerStatus::Generic(_) => panic!("wrong kind"),
    }
}

#[test]
fn end_to_end_single_visible_server() {
    let mut m = manager_with(vec![
        entry("Alpha", "a:1", "a.net", Some(111)),
        entry("Beta", "b:1", "b.net", Some(222)),
    ]);
    let u = user(7);
    // roles must be resolved first
    assert!(m.get_servers_for_user(u, 50).is_none());
    let roles = m.store_roles(u, Some(vec![role(111)]), 50);
    let plan = m.pending_fetches(&roles, 50);
    for e in plan {
        m.store_status(&e.game, None, 50);
    }
    let result = m.get_servers_for_user(u, 51).expect("roles cached");
    assert_eq!(result.len(), 1);
    match &result[0] {
        ServerStatus::Factorio(s) => assert_eq!(s.name, "Alpha"),
        ServerStatus::Generic(_) => panic!("wrong kind"),
    }
}

#[test]
fn pool_serves_while_idle_time_is_under_the_timeout() {
    let mut m = manager_with(vec![]);
    let game = entry("Alpha", "a:1", "a.net", Some(1)).game;
    assert!(m.pool.checkout(&game, 1000).is_none());
    m.pool.insert(game.clone(), 77, 1000);
    // used again before the idle timeout: same connection, clock restarts
    assert_eq!(m.pool.checkout(&game, 1200), Some(77));
    assert_eq!(m.pool.checkout(&game, 1200 + 299), Some(77));
    // idle too long: treated as evicted
    assert!(m.pool.checkout(&game, 1499 + 301).is_none());
    // a fresh connection replaces it
    m.pool.insert(game.clone(), 78, 2000);
    assert_eq!(m.pool.checkout(&game, 2001), Some(78));
}

#[test]
fn identifiers_reject_zero() {
    assert!(RoleId::from_raw(0).is_none());
    assert!(UserId::from_raw(0).is_none());
    assert_eq!(RoleId::from_raw(9).unwrap().raw(), 9);
}
