use server_status::config::{FactorioConfig, GameConfig, GenericConfig, ServerConfig};
use server_status::fetch::{degraded_status, players_from_response, rcon_commands, resolve_status};
use server_status::secret::Secret;
use server_status::status::{filter_by_game, FactorioStatus, GenericStatus, HealthStatus, ServerStatus};
use server_status::RoleId;

fn factorio_config() -> FactorioConfig {
    FactorioConfig {
        rcon_host: String::from("game.example.net:27015"),
        rcon_password: Secret::new(String::from("rcon-pw")),
        game_password: Secret::new(String::from("game-pw")),
    }
}

fn entry() -> ServerConfig {
    ServerConfig {
        name: String::from("Alpha"),
        game: GameConfig::Factorio(factorio_config()),
        public_dns: String::from("alpha.example.net"),
        required_role: Some(RoleId::from_raw(1).unwrap()),
    }
}

#[test]
fn command_sequence_is_players_time_version() {
    let cmds = rcon_commands();
    assert_eq!(cmds, vec!["/players o", "/time", "/version"]);
}

#[test]
fn player_list_parses_name_per_line() {
    let resp = "Online players (2):\n  alice (online)\n  bob (online)\n";
    assert_eq!(players_from_response(resp), vec!["alice", "bob"]);
}

#[test]
fn player_list_empty_when_heading_only() {
    assert_eq!(players_from_response("Online players (0):"), Vec::<String>::new());
    assert_eq!(players_from_response("heading\n  solo  \n"), vec!["solo"]);
    assert_eq!(players_from_response(""), Vec::<String>::new());
}

#[test]
fn successful_fetch_builds_running_status() {
    let cfg = factorio_config();
    let status = cfg.status_from_responses(
        "Online players (1):\n  alice (online)",
        "Map time: 42 hours",
        "Version: 1.1.110",
    );
    assert_eq!(status.health, HealthStatus::Running);
    assert_eq!(status.name, "game.example.net:27015");
    assert_eq!(status.players_online, vec!["alice"]);
    assert_eq!(status.game_time, "Map time: 42 hours");
    assert_eq!(status.game_version, "Version: 1.1.110");
    assert_eq!(status.game_password, "game-pw");
}

#[test]
fn overlay_puts_entry_identity_on_fetched_status() {
    let cfg = entry();
    let fetched = ServerStatus::Factorio(factorio_config().status_from_responses(
        "Online players (0):",
        "1",
        "2",
    ));
    let resolved = resolve_status(&cfg, Some(fetched));
    match resolved {
        ServerStatus::Factorio(s) => {
            assert_eq!(s.name, "Alpha");
            assert_eq!(s.url, "alpha.example.net");
            assert_eq!(s.health, HealthStatus::Running);
        }
        ServerStatus::Generic(_) => panic!("wrong kind"),
    }
}

#[test]
fn failed_fetch_degrades_with_identity_intact() {
    let cfg = entry();
    let resolved = resolve_status(&cfg, None);
    match resolved {
        ServerStatus::Factorio(s) => {
            assert_eq!(s.name, "Alpha");
            assert_eq!(s.url, "alpha.example.net");
            assert_eq!(s.health, HealthStatus::Unknown);
            assert!(s.players_online.is_empty());
            assert_eq!(s.game_time, "unknown");
            assert_eq!(s.game_version, "unknown");
            assert_eq!(s.game_password, "game-pw");
        }
        ServerStatus::Generic(_) => panic!("wrong kind"),
    }
    assert!(resolve_status(&cfg, None) == degraded_status(&cfg));
}

#[test]
fn generic_backend_reports_static_data() {
    let cfg = GenericConfig {
        game_name: String::from("Chess"),
        game_password: Secret::new(String::from("pw")),
    };
    let status = cfg.fetch_server_status();
    assert_eq!(status.game_name, "Chess");
    assert_eq!(status.health, HealthStatus::Unknown);
    assert_eq!(status.game_password, "pw");
}

#[test]
fn filter_by_game_keeps_only_the_named_kind() {
    let f = ServerStatus::Factorio(FactorioStatus {
        name: String::from("A"),
        health: HealthStatus::Running,
        url: String::new(),
        game_password: String::new(),
        players_online: vec![],
        game_time: String::new(),
        game_version: String::new(),
    });
    let g = ServerStatus::Generic(GenericStatus {
        name: String::from("B"),
        game_name: String::from("Chess"),
        health: HealthStatus::Unknown,
        url: String::new(),
        game_password: String::new(),
    });
    assert_eq!(f.kind_name(), "Factorio");
    assert_eq!(g.kind_name(), "Generic");
    let all = vec![f.clone(), g.clone()];
    assert_eq!(filter_by_game(all.clone(), None), all);
    assert_eq!(filter_by_game(all.clone(), Some("Factorio")), vec![f]);
    assert_eq!(filter_by_game(all.clone(), Some("Generic")), vec![g]);
    assert_eq!(filter_by_game(all, Some("Doom")), Vec::<ServerStatus>::new());
}

#[test]
fn health_labels() {
    assert_eq!(HealthStatus::Running.label(), "Running");
    assert_eq!(HealthStatus::Starting.label(), "Starting");
    assert_eq!(HealthStatus::Offline.label(), "Offline");
    assert_eq!(HealthStatus::Unknown.label(), "Unknown");
}

#[test]
fn secret_redacts_its_debug_text() {
    let s = Secret::new(String::from("hunter2"));
    assert_eq!(s.secret(), "hunter2");
    assert_eq!(s.debug_text(), "Secret(<redacted>)");
}
