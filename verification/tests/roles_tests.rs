use server_status::roles::{parse_guild_member, roles_from_response};
use server_status::text::{parse_u64, str_eq, trim};
use server_status::RoleId;

fn role(id: u64) -> RoleId {
    RoleId::from_raw(id).unwrap()
}

#[test]
fn guild_member_parses_with_extra_members_skipped() {
    let body = r#"{
        "user": {
            "id": "80351110224678912",
            "username": "Nelly",
            "discriminator": "1337",
            "avatar": "8342729096ea3675442027381ff50dfe",
            "public_flags": 64,
            "banner": null
        },
        "nick": "NOT API SUPPORT",
        "joined_at": "2015-04-26T06:26:56.936000+00:00",
        "deaf": false,
        "mute": false,
        "roles": ["111", "222"]
    }"#;
    let gm = parse_guild_member(body).expect("valid document");
    assert_eq!(gm.user.id.raw(), 80351110224678912);
    assert_eq!(gm.user.username, "Nelly");
    assert_eq!(gm.user.discriminator, "1337");
    assert_eq!(gm.user.avatar.as_deref(), Some("8342729096ea3675442027381ff50dfe"));
    assert_eq!(gm.nick.as_deref(), Some("NOT API SUPPORT"));
    assert_eq!(gm.roles, vec![role(111), role(222)]);
}

#[test]
fn guild_member_minimal_fields() {
    let body = r#"{"roles":[],"user":{"id":"1","username":"u","discriminator":"0"}}"#;
    let gm = parse_guild_member(body).expect("valid document");
    assert!(gm.roles.is_empty());
    assert_eq!(gm.nick, None);
    assert_eq!(gm.user.avatar, None);
}

#[test]
fn guild_member_null_avatar_and_nick() {
    let body = r#"{"nick":null,
        "roles":["5"],
        "user":{"id":"2","username":"u","discriminator":"0","avatar":null}}"#;
    let gm = parse_guild_member(body).expect("valid document");
    assert_eq!(gm.nick, None);
    assert_eq!(gm.user.avatar, None);
    assert_eq!(gm.roles, vec![role(5)]);
}

#[test]
fn guild_member_rejects_bad_documents() {
    // user missing
    assert!(parse_guild_member(r#"{"roles":["1"]}"#).is_none());
    // roles missing
    assert!(parse_guild_member(r#"{"user":{"id":"1","username":"u","discriminator":"0"}}"#).is_none());
    // role zero
    assert!(parse_guild_member(
        r#"{"roles":["0"],"user":{"id":"1","username":"u","discriminator":"0"}}"#
    ).is_none());
    // role not a string
    assert!(parse_guild_member(
        r#"{"roles":[111],"user":{"id":"1","username":"u","discriminator":"0"}}"#
    ).is_none());
    // user id zero
    assert!(parse_guild_member(
        r#"{"roles":["1"],"user":{"id":"0","username":"u","discriminator":"0"}}"#
    ).is_none());
    // not an object
    assert!(parse_guild_member(r#"["roles"]"#).is_none());
    // truncated
    assert!(parse_guild_member(r#"{"roles":["1"]"#).is_none());
}

#[test]
fn guild_member_with_escaped_strings_parses() {
    // an escaped quote in the nickname must not cost the caller their roles
    let body = r#"{"nick":"say \"hi\" \u2014 box",
        "roles":["111","222"],
        "user":{"id":"4","username":"a\\b","discriminator":"0"}}"#;
    let gm = parse_guild_member(body).expect("valid document");
    assert_eq!(gm.nick.as_deref(), Some("say \"hi\" \u{2014} box"));
    assert_eq!(gm.user.username, "a\\b");
    assert_eq!(gm.roles, vec![role(111), role(222)]);
    assert_eq!(roles_from_response(body), Some(vec![role(111), role(222)]));
}

#[test]
fn roles_from_response_extracts_the_role_set() {
    let body = r#"{"roles":["7","9"],"user":{"id":"3","username":"u","discriminator":"0"}}"#;
    assert_eq!(roles_from_response(body), Some(vec![role(7), role(9)]));
    assert_eq!(roles_from_response("oops"), None);
}

#[test]
fn decimal_parsing_is_exact() {
    assert_eq!(parse_u64("0"), Some(0));
    assert_eq!(parse_u64("123456789"), Some(123456789));
    assert_eq!(parse_u64("18446744073709551615"), Some(u64::MAX));
    assert_eq!(parse_u64("18446744073709551616"), None);
    assert_eq!(parse_u64(""), None);
    assert_eq!(parse_u64("12a"), None);
    assert_eq!(parse_u64("-5"), None);
}

#[test]
fn text_helpers() {
    assert_eq!(trim("  \t hello \r\n"), "hello");
    assert_eq!(trim(""), "");
    assert_eq!(trim(" \n "), "");
    assert!(str_eq("abc", "abc"));
    assert!(!str_eq("abc", "abd"));
    assert!(!str_eq("abc", "abcd"));
}
