//! The registry document: a JSON array of server entries.
//!
//! An entry is an object with members `name` (string), `game` (an object
//! with exactly one member, whose key names the game kind and whose value is
//! that kind's configuration object), `public_dns` (string), and
//! `required_role` (a decimal string naming a role, or `null`, or absent).
//! Member order is free, a repeated member's last occurrence wins, and a
//! member with an unknown key is skipped, whatever its value.  A role
//! identifier must be a nonzero decimal that fits in 64 bits.
//!
//! As in the lexical layer, each production is a spec function (the grammar)
//! with an executable parser proved equal to it.

use vstd::prelude::*;

use crate::config::{FactorioConfig, FactorioConfigV, GameConfig, GameConfigV, GenericConfig,
    GenericConfigV, ServerConfig, ServerConfigV};
use crate::ids::RoleId;
use crate::json::{at_least, lit_at, pstring, rem, skip_value, skip_ws, spec_lit_at, spec_pstring,
    spec_skip_value, spec_ws};
use crate::secret::Secret;
use crate::text::{parse_u64, spec_decimal_value, spec_is_digits};

verus! {

/// A complete backend configuration for the console-driven kind, once all
/// three members have appeared.
pub open spec fn spec_factorio_finish(
    host: Option<Seq<char>>,
    rpw: Option<Seq<char>>,
    gpw: Option<Seq<char>>,
) -> Option<FactorioConfigV> {
    match (host, rpw, gpw) {
        (Some(h), Some(r), Some(g)) => Some(
            FactorioConfigV { rcon_host: h, rcon_password: r, game_password: g },
        ),
        _ => None,
    }
}

/// Members of the console-kind configuration object, from just after `{` or
/// just after a comma, through the closing `}`.
pub open spec fn spec_factorio_members(
    s: Seq<char>,
    i: nat,
    host: Option<Seq<char>>,
    rpw: Option<Seq<char>>,
    gpw: Option<Seq<char>>,
) -> Option<(FactorioConfigV, nat)>
    decreases rem(s, i), 4nat,
{
    let p = (i + spec_ws(s, i)) as nat;
    if p < s.len() && s[p as int] == '}' {
        match spec_factorio_finish(host, rpw, gpw) {
            Some(c) => Some((c, (p + 1) as nat)),
            None => None,
        }
    } else {
        match spec_pstring(s, p) {
            None => None,
            Some((key, q0)) => {
                let q = at_least(q0, (p + 1) as nat);
                let p1 = (q + spec_ws(s, q)) as nat;
                if p1 < s.len() && s[p1 as int] == ':' {
                    let p2 = ((p1 + 1) + spec_ws(s, (p1 + 1) as nat)) as nat;
                    if key == "rcon_host"@ {
                        match spec_pstring(s, p2) {
                            None => None,
                            Some((v, e0)) => spec_factorio_tail(
                                s,
                                at_least(e0, (p2 + 1) as nat),
                                Some(v),
                                rpw,
                                gpw,
                            ),
                        }
                    } else if key == "rcon_password"@ {
                        match spec_pstring(s, p2) {
                            None => None,
                            Some((v, e0)) => spec_factorio_tail(
                                s,
                                at_least(e0, (p2 + 1) as nat),
                                host,
                                Some(v),
                                gpw,
                            ),
                        }
                    } else if key == "game_password"@ {
                        match spec_pstring(s, p2) {
                            None => None,
                            Some((v, e0)) => spec_factorio_tail(
                                s,
                                at_least(e0, (p2 + 1) as nat),
                                host,
                                rpw,
                                Some(v),
                            ),
                        }
                    } else {
                        match spec_skip_value(s, p2) {
                            None => None,
                            Some(e0) => spec_factorio_tail(
                                s,
                                at_least(e0, (p2 + 1) as nat),
                                host,
                                rpw,
                                gpw,
                            ),
                        }
                    }
                } else {
                    None
                }
            },
        }
    }
}

/// After one member: a comma continues the object, a brace closes it.
pub open spec fn spec_factorio_tail(
    s: Seq<char>,
    e: nat,
    host: Option<Seq<char>>,
    rpw: Option<Seq<char>>,
    gpw: Option<Seq<char>>,
) -> Option<(FactorioConfigV, nat)>
    decreases rem(s, e), 3nat,
{
    let p3 = (e + spec_ws(s, e)) as nat;
    if p3 < s.len() && s[p3 as int] == ',' {
        spec_factorio_members(s, (p3 + 1) as nat, host, rpw, gpw)
    } else if p3 < s.len() && s[p3 as int] == '}' {
        match spec_factorio_finish(host, rpw, gpw) {
            Some(c) => Some((c, (p3 + 1) as nat)),
            None => None,
        }
    } else {
        None
    }
}

/// A complete backend configuration for the generic kind.
pub open spec fn spec_generic_finish(
    gname: Option<Seq<char>>,
    gpw: Option<Seq<char>>,
) -> Option<GenericConfigV> {
    match (gname, gpw) {
        (Some(n), Some(g)) => Some(GenericConfigV { game_name: n, game_password: g }),
        _ => None,
    }
}

/// Members of the generic-kind configuration object.
pub open spec fn spec_generic_members(
    s: Seq<char>,
    i: nat,
    gname: Option<Seq<char>>,
    gpw: Option<Seq<char>>,
) -> Option<(GenericConfigV, nat)>
    decreases rem(s, i), 4nat,
{
    let p = (i + spec_ws(s, i)) as nat;
    if p < s.len() && s[p as int] == '}' {
        match spec_generic_finish(gname, gpw) {
            Some(c) => Some((c, (p + 1) as nat)),
            None => None,
        }
    } else {
        match spec_pstring(s, p) {
            None => None,
            Some((key, q0)) => {
                let q = at_least(q0, (p + 1) as nat);
                let p1 = (q + spec_ws(s, q)) as nat;
                if p1 < s.len() && s[p1 as int] == ':' {
                    let p2 = ((p1 + 1) + spec_ws(s, (p1 + 1) as nat)) as nat;
                    if key == "game_name"@ {
                        match spec_pstring(s, p2) {
                            None => None,
                            Some((v, e0)) => spec_generic_tail(
                                s,
                                at_least(e0, (p2 + 1) as nat),
                                Some(v),
                                gpw,
                            ),
                        }
                    } else if key == "game_password"@ {
                        match spec_pstring(s, p2) {
                            None => None,
                            Some((v, e0)) => spec_generic_tail(
                                s,
                                at_least(e0, (p2 + 1) as nat),
                                gname,
                                Some(v),
                            ),
                        }
                    } else {
                        match spec_skip_value(s, p2) {
                            None => None,
                            Some(e0) => spec_generic_tail(
                                s,
                                at_least(e0, (p2 + 1) as nat),
                                gname,
                                gpw,
                            ),
                        }
                    }
                } else {
                    None
                }
            },
        }
    }
}

/// After one member: a comma continues the object, a brace closes it.
pub open spec fn spec_generic_tail(
    s: Seq<char>,
    e: nat,
    gname: Option<Seq<char>>,
    gpw: Option<Seq<char>>,
) -> Option<(GenericConfigV, nat)>
    decreases rem(s, e), 3nat,
{
    let p3 = (e + spec_ws(s, e)) as nat;
    if p3 < s.len() && s[p3 as int] == ',' {
        spec_generic_members(s, (p3 + 1) as nat, gname, gpw)
    } else if p3 < s.len() && s[p3 as int] == '}' {
        match spec_generic_finish(gname, gpw) {
            Some(c) => Some((c, (p3 + 1) as nat)),
            None => None,
        }
    } else {
        None
    }
}

/// A `game` member's value: an object with exactly one member whose key
/// names the game kind.
pub open spec fn spec_game(s: Seq<char>, i: nat) -> Option<(GameConfigV, nat)>
    decreases rem(s, i), 6nat,
{
    if i < s.len() && s[i as int] == '{' {
        let p = ((i + 1) + spec_ws(s, (i + 1) as nat)) as nat;
        match spec_pstring(s, p) {
            None => None,
            Some((kind, q0)) => {
                let q = at_least(q0, (p + 1) as nat);
                let p1 = (q + spec_ws(s, q)) as nat;
                if p1 < s.len() && s[p1 as int] == ':' {
                    let p2 = ((p1 + 1) + spec_ws(s, (p1 + 1) as nat)) as nat;
                    if p2 < s.len() && s[p2 as int] == '{' {
                        let inner: Option<(GameConfigV, nat)> = if kind == "Factorio"@ {
                            match spec_factorio_members(s, (p2 + 1) as nat, None, None, None) {
                                None => None,
                                Some((c, e)) => Some((GameConfigV::Factorio(c), e)),
                            }
                        } else if kind == "Generic"@ {
                            match spec_generic_members(s, (p2 + 1) as nat, None, None) {
                                None => None,
                                Some((c, e)) => Some((GameConfigV::Generic(c), e)),
                            }
                        } else {
                            None
                        };
                        match inner {
                            None => None,
                            Some((c, e0)) => {
                                let e = at_least(e0, (p2 + 1) as nat);
                                let p3 = (e + spec_ws(s, e)) as nat;
                                if p3 < s.len() && s[p3 as int] == '}' {
                                    Some((c, (p3 + 1) as nat))
                                } else {
                                    None
                                }
                            },
                        }
                    } else {
                        None
                    }
                } else {
                    None
                }
            },
        }
    } else {
        None
    }
}

/// A `required_role` member's value: `null` (no role required) or a decimal
/// string naming a nonzero 64-bit role.
pub open spec fn spec_role_value(s: Seq<char>, i: nat) -> Option<(Option<u64>, nat)> {
    if i < s.len() && s[i as int] == '"' {
        match spec_pstring(s, i) {
            None => None,
            Some((c, e)) => if spec_is_digits(c) && 0 < spec_decimal_value(c) && spec_decimal_value(
                c,
            ) <= u64::MAX {
                Some((Some(spec_decimal_value(c) as u64), e))
            } else {
                None
            },
        }
    } else if spec_lit_at(s, i, "null"@) {
        Some((None, (i + 4) as nat))
    } else {
        None
    }
}

/// What has been collected of one entry while its members parse.
pub ghost struct EntryAcc {
    pub name: Option<Seq<char>>,
    pub game: Option<GameConfigV>,
    pub public_dns: Option<Seq<char>>,
    pub required_role: Option<u64>,
}

/// A complete entry, once `name`, `game` and `public_dns` have appeared.
pub open spec fn spec_entry_finish(acc: EntryAcc) -> Option<ServerConfigV> {
    match (acc.name, acc.game, acc.public_dns) {
        (Some(n), Some(g), Some(d)) => Some(
            ServerConfigV { name: n, game: g, public_dns: d, required_role: acc.required_role },
        ),
        _ => None,
    }
}

/// Members of one entry object.
pub open spec fn spec_entry_members(s: Seq<char>, i: nat, acc: EntryAcc) -> Option<
    (ServerConfigV, nat),
>
    decreases rem(s, i), 7nat,
{
    let p = (i + spec_ws(s, i)) as nat;
    if p < s.len() && s[p as int] == '}' {
        match spec_entry_finish(acc) {
            Some(c) => Some((c, (p + 1) as nat)),
            None => None,
        }
    } else {
        match spec_pstring(s, p) {
            None => None,
            Some((key, q0)) => {
                let q = at_least(q0, (p + 1) as nat);
                let p1 = (q + spec_ws(s, q)) as nat;
                if p1 < s.len() && s[p1 as int] == ':' {
                    let p2 = ((p1 + 1) + spec_ws(s, (p1 + 1) as nat)) as nat;
                    let step: Option<(EntryAcc, nat)> = if key == "name"@ {
                        match spec_pstring(s, p2) {
                            None => None,
                            Some((v, e0)) => Some((EntryAcc { name: Some(v), ..acc }, e0)),
                        }
                    } else if key == "public_dns"@ {
                        match spec_pstring(s, p2) {
                            None => None,
                            Some((v, e0)) => Some((EntryAcc { public_dns: Some(v), ..acc }, e0)),
                        }
                    } else if key == "game"@ {
                        match spec_game(s, p2) {
                            None => None,
                            Some((g, e0)) => Some((EntryAcc { game: Some(g), ..acc }, e0)),
                        }
                    } else if key == "required_role"@ {
                        match spec_role_value(s, p2) {
                            None => None,
                            Some((ro, e0)) => Some((EntryAcc { required_role: ro, ..acc }, e0)),
                        }
                    } else {
                        match spec_skip_value(s, p2) {
                            None => None,
                            Some(e0) => Some((acc, e0)),
                        }
                    };
                    match step {
                        None => None,
                        Some((acc2, e0)) => {
                            let e = at_least(e0, (p2 + 1) as nat);
                            let p3 = (e + spec_ws(s, e)) as nat;
                            if p3 < s.len() && s[p3 as int] == ',' {
                                spec_entry_members(s, (p3 + 1) as nat, acc2)
                            } else if p3 < s.len() && s[p3 as int] == '}' {
                                match spec_entry_finish(acc2) {
                                    Some(c) => Some((c, (p3 + 1) as nat)),
                                    None => None,
                                }
                            } else {
                                None
                            }
                        },
                    }
                } else {
                    None
                }
            },
        }
    }
}

/// The entries of the top-level array, from just after `[` or just after a
/// comma, through the closing `]`.
pub open spec fn spec_entries(s: Seq<char>, i: nat, acc: Seq<ServerConfigV>) -> Option<
    (Seq<ServerConfigV>, nat),
>
    decreases rem(s, i), 8nat,
{
    let p = (i + spec_ws(s, i)) as nat;
    if p < s.len() && s[p as int] == ']' {
        Some((acc, (p + 1) as nat))
    } else if p < s.len() && s[p as int] == '{' {
        match spec_entry_members(s, (p + 1) as nat, EntryAcc { name: None, game: None, public_dns: None, required_role: None }) {
            None => None,
            Some((c, e0)) => {
                let e = at_least(e0, (p + 1) as nat);
                let p2 = (e + spec_ws(s, e)) as nat;
                if p2 < s.len() && s[p2 as int] == ',' {
                    spec_entries(s, (p2 + 1) as nat, acc.push(c))
                } else if p2 < s.len() && s[p2 as int] == ']' {
                    Some((acc.push(c), (p2 + 1) as nat))
                } else {
                    None
                }
            },
        }
    } else {
        None
    }
}

/// The whole registry document: optional whitespace, the entry array,
/// optional whitespace, end of input.
pub open spec fn spec_registry(s: Seq<char>) -> Option<Seq<ServerConfigV>> {
    let p = spec_ws(s, 0);
    if p < s.len() && s[p as int] == '[' {
        match spec_entries(s, (p + 1) as nat, Seq::empty()) {
            None => None,
            Some((cs, e)) => if e + spec_ws(s, e) == s.len() {
                Some(cs)
            } else {
                None
            },
        }
    } else {
        None
    }
}

/// The view of a collected optional string member.
pub open spec fn opt_str_view(o: Option<String>) -> Option<Seq<char>> {
    match o {
        Some(s) => Some(s@),
        None => None,
    }
}

fn factorio_finish(host: Option<String>, rpw: Option<String>, gpw: Option<String>) -> (r: Option<
    FactorioConfig,
>)
    ensures
        match r {
            Some(c) => spec_factorio_finish(
                opt_str_view(host),
                opt_str_view(rpw),
                opt_str_view(gpw),
            ) == Some(c@),
            None => spec_factorio_finish(
                opt_str_view(host),
                opt_str_view(rpw),
                opt_str_view(gpw),
            ) is None,
        },
{
    match (host, rpw, gpw) {
        (Some(h), Some(rp), Some(g)) => Some(
            FactorioConfig {
                rcon_host: h,
                rcon_password: Secret::new(rp),
                game_password: Secret::new(g),
            },
        ),
        _ => None,
    }
}

fn generic_finish(gname: Option<String>, gpw: Option<String>) -> (r: Option<GenericConfig>)
    ensures
        match r {
            Some(c) => spec_generic_finish(opt_str_view(gname), opt_str_view(gpw)) == Some(c@),
            None => spec_generic_finish(opt_str_view(gname), opt_str_view(gpw)) is None,
        },
{
    match (gname, gpw) {
        (Some(gn), Some(g)) => Some(
            GenericConfig { game_name: gn, game_password: Secret::new(g) },
        ),
        _ => None,
    }
}

fn factorio_members(
    s: &str,
    n: usize,
    i: usize,
    host: Option<String>,
    rpw: Option<String>,
    gpw: Option<String>,
) -> (r: Option<(FactorioConfig, usize)>)
    requires
        n == s@.len(),
        i <= n,
    ensures
        match r {
            Some(v) => spec_factorio_members(
                s@,
                i as nat,
                opt_str_view(host),
                opt_str_view(rpw),
                opt_str_view(gpw),
            ) == Some((v.0@, v.1 as nat)) && i < v.1 <= n,
            None => spec_factorio_members(
                s@,
                i as nat,
                opt_str_view(host),
                opt_str_view(rpw),
                opt_str_view(gpw),
            ) is None,
        },
    decreases rem(s@, i as nat), 4nat,
{
    let p = skip_ws(s, n, i);
    if p < n && s.get_char(p) == '}' {
        return match factorio_finish(host, rpw, gpw) {
            Some(cfg) => Some((cfg, p + 1)),
            None => None,
        };
    }
    match pstring(s, n, p) {
        None => None,
        Some((key, q)) => {
            proof {
                assert(at_least(q as nat, (p + 1) as nat) == q as nat);
            }
            let p1 = skip_ws(s, n, q);
            if p1 < n && s.get_char(p1) == ':' {
                let p2 = skip_ws(s, n, p1 + 1);
                if crate::text::str_eq(key.as_str(), "rcon_host") {
                    match pstring(s, n, p2) {
                        None => None,
                        Some((v, e)) => {
                            proof {
                                assert(at_least(e as nat, (p2 + 1) as nat) == e as nat);
                            }
                            factorio_tail(s, n, e, Some(v), rpw, gpw)
                        },
                    }
                } else if crate::text::str_eq(key.as_str(), "rcon_password") {
                    match pstring(s, n, p2) {
                        None => None,
                        Some((v, e)) => {
                            proof {
                                assert(at_least(e as nat, (p2 + 1) as nat) == e as nat);
                            }
                            factorio_tail(s, n, e, host, Some(v), gpw)
                        },
                    }
                } else if crate::text::str_eq(key.as_str(), "game_password") {
                    match pstring(s, n, p2) {
                        None => None,
                        Some((v, e)) => {
                            proof {
                                assert(at_least(e as nat, (p2 + 1) as nat) == e as nat);
                            }
                            factorio_tail(s, n, e, host, rpw, Some(v))
                        },
                    }
                } else {
                    match skip_value(s, n, p2) {
                        None => None,
                        Some(e) => {
                            proof {
                                assert(at_least(e as nat, (p2 + 1) as nat) == e as nat);
                            }
                            factorio_tail(s, n, e, host, rpw, gpw)
                        },
                    }
                }
            } else {
                None
            }
        },
    }
}

fn factorio_tail(
    s: &str,
    n: usize,
    e: usize,
    host: Option<String>,
    rpw: Option<String>,
    gpw: Option<String>,
) -> (r: Option<(FactorioConfig, usize)>)
    requires
        n == s@.len(),
        e <= n,
    ensures
        match r {
            Some(v) => spec_factorio_tail(
                s@,
                e as nat,
                opt_str_view(host),
                opt_str_view(rpw),
                opt_str_view(gpw),
            ) == Some((v.0@, v.1 as nat)) && e < v.1 <= n,
            None => spec_factorio_tail(
                s@,
                e as nat,
                opt_str_view(host),
                opt_str_view(rpw),
                opt_str_view(gpw),
            ) is None,
        },
    decreases rem(s@, e as nat), 3nat,
{
    let p3 = skip_ws(s, n, e);
    if p3 < n && s.get_char(p3) == ',' {
        factorio_members(s, n, p3 + 1, host, rpw, gpw)
    } else if p3 < n && s.get_char(p3) == '}' {
        match factorio_finish(host, rpw, gpw) {
            Some(cfg) => Some((cfg, p3 + 1)),
            None => None,
        }
    } else {
        None
    }
}

fn generic_members(
    s: &str,
    n: usize,
    i: usize,
    gname: Option<String>,
    gpw: Option<String>,
) -> (r: Option<(GenericConfig, usize)>)
    requires
        n == s@.len(),
        i <= n,
    ensures
        match r {
            Some(v) => spec_generic_members(
                s@,
                i as nat,
                opt_str_view(gname),
                opt_str_view(gpw),
            ) == Some((v.0@, v.1 as nat)) && i < v.1 <= n,
            None => spec_generic_members(
                s@,
                i as nat,
                opt_str_view(gname),
                opt_str_view(gpw),
            ) is None,
        },
    decreases rem(s@, i as nat), 4nat,
{
    let p = skip_ws(s, n, i);
    if p < n && s.get_char(p) == '}' {
        return match generic_finish(gname, gpw) {
            Some(cfg) => Some((cfg, p + 1)),
            None => None,
        };
    }
    match pstring(s, n, p) {
        None => None,
        Some((key, q)) => {
            proof {
                assert(at_least(q as nat, (p + 1) as nat) == q as nat);
            }
            let p1 = skip_ws(s, n, q);
            if p1 < n && s.get_char(p1) == ':' {
                let p2 = skip_ws(s, n, p1 + 1);
                if crate::text::str_eq(key.as_str(), "game_name") {
                    match pstring(s, n, p2) {
                        None => None,
                        Some((v, e)) => {
                            proof {
                                assert(at_least(e as nat, (p2 + 1) as nat) == e as nat);
                            }
                            generic_tail(s, n, e, Some(v), gpw)
                        },
                    }
                } else if crate::text::str_eq(key.as_str(), "game_password") {
                    match pstring(s, n, p2) {
                        None => None,
                        Some((v, e)) => {
                            proof {
                                assert(at_least(e as nat, (p2 + 1) as nat) == e as nat);
                            }
                            generic_tail(s, n, e, gname, Some(v))
                        },
                    }
                } else {
                    match skip_value(s, n, p2) {
                        None => None,
                        Some(e) => {
                            proof {
                                assert(at_least(e as nat, (p2 + 1) as nat) == e as nat);
                            }
                            generic_tail(s, n, e, gname, gpw)
                        },
                    }
                }
            } else {
                None
            }
        },
    }
}

fn generic_tail(
    s: &str,
    n: usize,
    e: usize,
    gname: Option<String>,
    gpw: Option<String>,
) -> (r: Option<(GenericConfig, usize)>)
    requires
        n == s@.len(),
        e <= n,
    ensures
        match r {
            Some(v) => spec_generic_tail(
                s@,
                e as nat,
                opt_str_view(gname),
                opt_str_view(gpw),
            ) == Some((v.0@, v.1 as nat)) && e < v.1 <= n,
            None => spec_generic_tail(
                s@,
                e as nat,
                opt_str_view(gname),
                opt_str_view(gpw),
            ) is None,
        },
    decreases rem(s@, e as nat), 3nat,
{
    let p3 = skip_ws(s, n, e);
    if p3 < n && s.get_char(p3) == ',' {
        generic_members(s, n, p3 + 1, gname, gpw)
    } else if p3 < n && s.get_char(p3) == '}' {
        match generic_finish(gname, gpw) {
            Some(cfg) => Some((cfg, p3 + 1)),
            None => None,
        }
    } else {
        None
    }
}

fn game_value(s: &str, n: usize, i: usize) -> (r: Option<(GameConfig, usize)>)
    requires
        n == s@.len(),
        i <= n,
    ensures
        match r {
            Some(v) => spec_game(s@, i as nat) == Some((v.0@, v.1 as nat)) && i < v.1 <= n,
            None => spec_game(s@, i as nat) is None,
        },
    decreases rem(s@, i as nat), 6nat,
{
    if i < n && s.get_char(i) == '{' {
        let p = skip_ws(s, n, i + 1);
        match pstring(s, n, p) {
            None => None,
            Some((kind, q)) => {
                proof {
                    assert(at_least(q as nat, (p + 1) as nat) == q as nat);
                }
                let p1 = skip_ws(s, n, q);
                if p1 < n && s.get_char(p1) == ':' {
                    let p2 = skip_ws(s, n, p1 + 1);
                    if p2 < n && s.get_char(p2) == '{' {
                        let k1 = crate::text::str_eq(kind.as_str(), "Factorio");
                        let k2 = crate::text::str_eq(kind.as_str(), "Generic");
                        proof {
                            reveal_strlit("Factorio");
                            reveal_strlit("Generic");
                        }
                        let inner: Option<(GameConfig, usize)> = if k1 {
                            match factorio_members(s, n, p2 + 1, None, None, None) {
                                None => None,
                                Some((c, e)) => Some((GameConfig::Factorio(c), e)),
                            }
                        } else if k2 {
                            match generic_members(s, n, p2 + 1, None, None) {
                                None => None,
                                Some((c, e)) => Some((GameConfig::Generic(c), e)),
                            }
                        } else {
                            None
                        };
                        match inner {
                            None => None,
                            Some((c, e)) => {
                                proof {
                                    assert(at_least(e as nat, (p2 + 1) as nat) == e as nat);
                                }
                                let p3 = skip_ws(s, n, e);
                                if p3 < n && s.get_char(p3) == '}' {
                                    Some((c, p3 + 1))
                                } else {
                                    None
                                }
                            },
                        }
                    } else {
                        None
                    }
                } else {
                    None
                }
            },
        }
    } else {
        None
    }
}

fn role_value(s: &str, n: usize, i: usize) -> (r: Option<(Option<RoleId>, usize)>)
    requires
        n == s@.len(),
        i <= n,
    ensures
        match r {
            Some(v) => spec_role_value(s@, i as nat) == Some(
                (
                    match v.0 {
                        Some(id) => Some(id@),
                        None => None,
                    },
                    v.1 as nat,
                ),
            ) && i < v.1 <= n,
            None => spec_role_value(s@, i as nat) is None,
        },
{
    if i < n && s.get_char(i) == '"' {
        match pstring(s, n, i) {
            None => None,
            Some((c, e)) => match parse_u64(c.as_str()) {
                None => None,
                Some(v) => match RoleId::from_raw(v) {
                    None => None,
                    Some(id) => Some((Some(id), e)),
                },
            },
        }
    } else {
        proof {
            reveal_strlit("null");
        }
        if lit_at(s, n, i, "null") {
            Some((None, i + 4))
        } else {
            None
        }
    }
}

/// What has been collected of one entry while its members parse.
struct EntryFields {
    name: Option<String>,
    game: Option<GameConfig>,
    public_dns: Option<String>,
    required_role: Option<RoleId>,
}

impl EntryFields {
    spec fn view(&self) -> EntryAcc {
        EntryAcc {
            name: opt_str_view(self.name),
            game: match self.game {
                Some(g) => Some(g@),
                None => None,
            },
            public_dns: opt_str_view(self.public_dns),
            required_role: match self.required_role {
                Some(id) => Some(id@),
                None => None,
            },
        }
    }

    fn finish(self) -> (r: Option<ServerConfig>)
        ensures
            match r {
                Some(c) => spec_entry_finish(self@) == Some(c@),
                None => spec_entry_finish(self@) is None,
            },
    {
        match (self.name, self.game, self.public_dns) {
            (Some(n), Some(g), Some(d)) => Some(
                ServerConfig {
                    name: n,
                    game: g,
                    public_dns: d,
                    required_role: self.required_role,
                },
            ),
            _ => None,
        }
    }
}

fn entry_members(s: &str, n: usize, i: usize, acc: EntryFields) -> (r: Option<
    (ServerConfig, usize),
>)
    requires
        n == s@.len(),
        i <= n,
    ensures
        match r {
            Some(v) => spec_entry_members(s@, i as nat, acc@) == Some((v.0@, v.1 as nat)) && i
                < v.1 <= n,
            None => spec_entry_members(s@, i as nat, acc@) is None,
        },
    decreases rem(s@, i as nat), 7nat,
{
    let p = skip_ws(s, n, i);
    if p < n && s.get_char(p) == '}' {
        return match acc.finish() {
            Some(c) => Some((c, p + 1)),
            None => None,
        };
    }
    match pstring(s, n, p) {
        None => None,
        Some((key, q)) => {
            proof {
                assert(at_least(q as nat, (p + 1) as nat) == q as nat);
            }
            let p1 = skip_ws(s, n, q);
            if p1 < n && s.get_char(p1) == ':' {
                let p2 = skip_ws(s, n, p1 + 1);
                let k_name = crate::text::str_eq(key.as_str(), "name");
                let k_dns = crate::text::str_eq(key.as_str(), "public_dns");
                let k_game = crate::text::str_eq(key.as_str(), "game");
                let k_role = crate::text::str_eq(key.as_str(), "required_role");
                proof {
                    reveal_strlit("name");
                    reveal_strlit("public_dns");
                    reveal_strlit("game");
                    reveal_strlit("required_role");
                }
                let step: Option<(EntryFields, usize)> = if k_name {
                    match pstring(s, n, p2) {
                        None => None,
                        Some((v, e)) => Some((EntryFields { name: Some(v), ..acc }, e)),
                    }
                } else if k_dns {
                    match pstring(s, n, p2) {
                        None => None,
                        Some((v, e)) => Some((EntryFields { public_dns: Some(v), ..acc }, e)),
                    }
                } else if k_game {
                    match game_value(s, n, p2) {
                        None => None,
                        Some((g, e)) => Some((EntryFields { game: Some(g), ..acc }, e)),
                    }
                } else if k_role {
                    match role_value(s, n, p2) {
                        None => None,
                        Some((ro, e)) => Some((EntryFields { required_role: ro, ..acc }, e)),
                    }
                } else {
                    match skip_value(s, n, p2) {
                        None => None,
                        Some(e) => Some((acc, e)),
                    }
                };
                match step {
                    None => None,
                    Some((acc2, e)) => {
                        proof {
                            assert(at_least(e as nat, (p2 + 1) as nat) == e as nat);
                        }
                        let p3 = skip_ws(s, n, e);
                        if p3 < n && s.get_char(p3) == ',' {
                            entry_members(s, n, p3 + 1, acc2)
                        } else if p3 < n && s.get_char(p3) == '}' {
                            match acc2.finish() {
                                Some(c) => Some((c, p3 + 1)),
                                None => None,
                            }
                        } else {
                            None
                        }
                    },
                }
            } else {
                None
            }
        },
    }
}

fn entries(s: &str, n: usize, i: usize, acc: Vec<ServerConfig>) -> (r: Option<
    (Vec<ServerConfig>, usize),
>)
    requires
        n == s@.len(),
        i <= n,
    ensures
        match r {
            Some(v) => spec_entries(s@, i as nat, acc.deep_view()) == Some(
                (v.0.deep_view(), v.1 as nat),
            ) && i < v.1 <= n,
            None => spec_entries(s@, i as nat, acc.deep_view()) is None,
        },
    decreases rem(s@, i as nat), 8nat,
{
    let p = skip_ws(s, n, i);
    if p < n && s.get_char(p) == ']' {
        return Some((acc, p + 1));
    }
    if p < n && s.get_char(p) == '{' {
        let fields = EntryFields { name: None, game: None, public_dns: None, required_role: None };
        match entry_members(s, n, p + 1, fields) {
            None => None,
            Some((c, e)) => {
                proof {
                    assert(at_least(e as nat, (p + 1) as nat) == e as nat);
                }
                let ghost acc_v = acc.deep_view();
                let ghost c_v = c@;
                let mut acc = acc;
                acc.push(c);
                proof {
                    assert(acc.deep_view() =~= acc_v.push(c_v));
                }
                let p2 = skip_ws(s, n, e);
                if p2 < n && s.get_char(p2) == ',' {
                    entries(s, n, p2 + 1, acc)
                } else if p2 < n && s.get_char(p2) == ']' {
                    Some((acc, p2 + 1))
                } else {
                    None
                }
            },
        }
    } else {
        None
    }
}

/// Parses a registry document.  Returns the entry list exactly when the text
/// is a well-formed registry per [`spec_registry`].
pub fn parse_registry(s: &str) -> (r: Option<Vec<ServerConfig>>)
    ensures
        match r {
            Some(v) => spec_registry(s@) == Some(v.deep_view()),
            None => spec_registry(s@) is None,
        },
{
    let n = s.unicode_len();
    let p = skip_ws(s, n, 0);
    if p < n && s.get_char(p) == '[' {
        let acc: Vec<ServerConfig> = Vec::new();
        proof {
            assert(acc.deep_view() =~= Seq::<ServerConfigV>::empty());
        }
        match entries(s, n, p + 1, acc) {
            None => None,
            Some((v, e)) => {
                let e2 = skip_ws(s, n, e);
                if e2 == n {
                    Some(v)
                } else {
                    None
                }
            },
        }
    } else {
        None
    }
}

} // verus!
