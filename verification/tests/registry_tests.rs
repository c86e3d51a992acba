use server_status::config::{GameConfig, ServerConfig};
use server_status::secret::Secret;
use server_status::store::{ConfigStore, FileEventKind};
use server_status::registry::parse_registry;
use server_status::RoleId;

fn alpha_beta_json() -> String {
    String::from(
        r#"[
            {"name":"Alpha",
             "game":{"Factorio":{"rcon_host":"alpha:27015","rcon_password":"rp1","game_password":"gp1"}},
             "public_dns":"alpha.example.net",
             "required_role":"111"},
            {"name":"Beta",
             "game":{"Factorio":{"rcon_host":"beta:27015","rcon_password":"rp2","game_password":"gp2"}},
             "public_dns":"beta.example.net",
             "required_role":"222"}
        ]"#,
    )
}

fn factorio_entry(name: &str, host: &str, dns: &str, role: Option<u64>) -> ServerConfig {
    ServerConfig {
        name: String::from(name),
        game: GameConfig::Factorio(server_status::config::FactorioConfig {
            rcon_host: String::from(host),
            rcon_password: Secret::new(String::from("rp")),
            game_password: Secret::new(String::from("gp")),
        }),
        public_dns: String::from(dns),
        required_role: role.map(|r| RoleId::from_raw(r).unwrap()),
    }
}

#[test]
fn parses_two_entry_registry() {
    let parsed = parse_registry(alpha_beta_json().as_str()).expect("valid registry");
    assert_eq!(parsed.len(), 2);
    assert_eq!(parsed[0].name, "Alpha");
    assert_eq!(parsed[0].public_dns, "alpha.example.net");
    assert_eq!(parsed[0].required_role, Some(RoleId::from_raw(111).unwrap()));
    match &parsed[0].game {
        GameConfig::Factorio(c) => {
            assert_eq!(c.rcon_host, "alpha:27015");
            assert_eq!(c.rcon_password.secret(), "rp1");
            assert_eq!(c.game_password.secret(), "gp1");
        }
        GameConfig::Generic(_) => panic!("wrong kind"),
    }
    assert_eq!(parsed[1].name, "Beta");
    assert_eq!(parsed[1].required_role, Some(RoleId::from_raw(222).unwrap()));
}

#[test]
fn parses_generic_kind_and_null_role() {
    let text = r#"[{"name":"Lounge",
        "game":{"Generic":{"game_name":"Chess","game_password":"pw"}},
        "public_dns":"lounge.example.net",
        "required_role":null}]"#;
    let parsed = parse_registry(text).expect("valid registry");
    assert_eq!(parsed.len(), 1);
    assert_eq!(parsed[0].required_role, None);
    match &parsed[0].game {
        GameConfig::Generic(c) => {
            assert_eq!(c.game_name, "Chess");
            assert_eq!(c.game_password.secret(), "pw");
        }
        GameConfig::Factorio(_) => panic!("wrong kind"),
    }
}

#[test]
fn missing_role_member_means_no_role() {
    let text = r#"[{"name":"A",
        "game":{"Generic":{"game_name":"G","game_password":"p"}},
        "public_dns":"a.example.net"}]"#;
    let parsed = parse_registry(text).expect("valid registry");
    assert_eq!(parsed[0].required_role, None);
}

#[test]
fn member_order_is_free_and_unknown_members_skip() {
    let text = r#"[{"required_role":"7",
        "color":{"nested":[1,2,{"x":true}],"f":1.5e3},
        "public_dns":"a.example.net",
        "game":{"Generic":{"extra":null,"game_name":"G","game_password":"p"}},
        "name":"A"}]"#;
    let parsed = parse_registry(text).expect("valid registry");
    assert_eq!(parsed[0].name, "A");
    assert_eq!(parsed[0].required_role, Some(RoleId::from_raw(7).unwrap()));
}

#[test]
fn empty_registry_parses() {
    let parsed = parse_registry("  [ ]  ").expect("valid registry");
    assert!(parsed.is_empty());
}

#[test]
fn rejects_bad_documents() {
    // not an array
    assert!(parse_registry(r#"{"name":"A"}"#).is_none());
    // truncated
    assert!(parse_registry(r#"[{"name":"A""#).is_none());
    // entry missing a required member
    assert!(parse_registry(r#"[{"name":"A","public_dns":"d"}]"#).is_none());
    // role zero is not a valid identifier
    assert!(parse_registry(
        r#"[{"name":"A","game":{"Generic":{"game_name":"G","game_password":"p"}},"public_dns":"d","required_role":"0"}]"#
    ).is_none());
    // role not numeric
    assert!(parse_registry(
        r#"[{"name":"A","game":{"Generic":{"game_name":"G","game_password":"p"}},"public_dns":"d","required_role":"abc"}]"#
    ).is_none());
    // role too large for 64 bits
    assert!(parse_registry(
        r#"[{"name":"A","game":{"Generic":{"game_name":"G","game_password":"p"}},"public_dns":"d","required_role":"18446744073709551616"}]"#
    ).is_none());
    // unknown game kind
    assert!(parse_registry(
        r#"[{"name":"A","game":{"Doom":{}},"public_dns":"d","required_role":"1"}]"#
    ).is_none());
    // trailing garbage after the array
    assert!(parse_registry("[] x").is_none());
}

#[test]
fn string_escapes_decode() {
    let text = r#"[{"name":"A\"B\\C\nD",
        "game":{"Generic":{"game_name":"Caf\u00e9","game_password":"\u0041\t"}},
        "public_dns":"d","required_role":"1"}]"#;
    let parsed = parse_registry(text).expect("valid registry");
    assert_eq!(parsed[0].name, "A\"B\\C\nD");
    match &parsed[0].game {
        GameConfig::Generic(c) => {
            assert_eq!(c.game_name, "Caf\u{e9}");
            assert_eq!(c.game_password.secret(), "A\t");
        }
        GameConfig::Factorio(_) => panic!("wrong kind"),
    }
}

#[test]
fn surrogate_pairs_decode_and_lone_surrogates_fail() {
    let ok = r#"[{"name":"\uD834\uDD1E",
        "game":{"Generic":{"game_name":"G","game_password":"p"}},
        "public_dns":"d","required_role":"1"}]"#;
    let parsed = parse_registry(ok).expect("valid registry");
    assert_eq!(parsed[0].name, "\u{1D11E}");
    // a lone high surrogate is invalid
    assert!(parse_registry(
        r#"[{"name":"\uD834","game":{"Generic":{"game_name":"G","game_password":"p"}},"public_dns":"d","required_role":"1"}]"#
    ).is_none());
    // a lone low surrogate is invalid
    assert!(parse_registry(
        r#"[{"name":"\uDD1E","game":{"Generic":{"game_name":"G","game_password":"p"}},"public_dns":"d","required_role":"1"}]"#
    ).is_none());
    // an unknown escape is invalid
    assert!(parse_registry(
        r#"[{"name":"\q","game":{"Generic":{"game_name":"G","game_password":"p"}},"public_dns":"d","required_role":"1"}]"#
    ).is_none());
    // a raw control character is invalid
    assert!(parse_registry(
        "[{\"name\":\"A\u{1}B\",\"game\":{\"Generic\":{\"game_name\":\"G\",\"game_password\":\"p\"}},\"public_dns\":\"d\",\"required_role\":\"1\"}]"
    ).is_none());
}

#[test]
fn role_at_u64_max_is_accepted() {
    let text = r#"[{"name":"A","game":{"Generic":{"game_name":"G","game_password":"p"}},"public_dns":"d","required_role":"18446744073709551615"}]"#;
    let parsed = parse_registry(text).expect("valid registry");
    assert_eq!(parsed[0].required_role, Some(RoleId::from_raw(u64::MAX).unwrap()));
}

#[test]
fn valid_reload_replaces_entries() {
    let mut store = ConfigStore::new();
    assert!(store.configs().is_empty());
    assert!(store.load_config_file(alpha_beta_json().as_str()));
    assert_eq!(store.configs().len(), 2);
    let newer = r#"[{"name":"Gamma",
        "game":{"Generic":{"game_name":"G","game_password":"p"}},
        "public_dns":"g.example.net","required_role":"9"}]"#;
    assert!(store.load_config_file(newer));
    let snapshot = store.configs();
    assert_eq!(snapshot.len(), 1);
    assert_eq!(snapshot[0].name, "Gamma");
}

#[test]
fn invalid_reload_keeps_previous_configuration() {
    let mut store = ConfigStore::new();
    assert!(store.load_config_file(alpha_beta_json().as_str()));
    let before = store.configs();
    assert!(!store.load_config_file("{ not json"));
    assert!(store.configs() == before);
    assert!(!store.load_config_file(""));
    assert!(store.configs() == before);
}

#[test]
fn only_create_and_modify_events_reload() {
    let mut store = ConfigStore::new();
    let text = alpha_beta_json();
    assert!(!store.handle_event(FileEventKind::Other, Some(text.as_str())));
    assert!(store.configs().is_empty());
    assert!(store.handle_event(FileEventKind::Create, Some(text.as_str())));
    assert_eq!(store.configs().len(), 2);
    // an unreadable file keeps the previous configuration
    assert!(!store.handle_event(FileEventKind::Modify, None));
    assert_eq!(store.configs().len(), 2);
    let newer = r#"[]"#;
    assert!(store.handle_event(FileEventKind::Modify, Some(newer)));
    assert!(store.configs().is_empty());
}

#[test]
fn watcher_loss_degrades_but_keeps_serving() {
    let mut store = ConfigStore::new();
    assert!(store.load_config_file(alpha_beta_json().as_str()));
    store.note_watcher_closed();
    assert!(store.reload_lost);
    assert_eq!(store.configs().len(), 2);
}

#[test]
fn entries_compare_by_value() {
    let a = factorio_entry("A", "h", "d", Some(5));
    let b = factorio_entry("A", "h", "d", Some(5));
    assert!(a.game.key_eq(&b.game));
    let c = factorio_entry("A", "other", "d", Some(5));
    assert!(!a.game.key_eq(&c.game));
}
