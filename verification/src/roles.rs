//! The identity provider's guild-member document.
//!
//! The membership endpoint answers with a JSON object carrying a `user`
//! object, an optional `nick`, and a `roles` array of decimal strings.  Only
//! those members are read; every other member is skipped, whatever its
//! value, since the provider adds fields freely.  Role and user identifiers
//! must be nonzero decimals that fit in 64 bits.
//!
//! Each production is a spec function (the grammar) with an executable
//! parser proved equal to it.

use vstd::prelude::*;

use crate::ids::{RoleId, UserId};
use crate::json::{at_least, lit_at, pstring, rem, skip_value, skip_ws, spec_lit_at, spec_pstring,
    spec_skip_value, spec_ws};
use crate::registry::opt_str_view;
use crate::text::{parse_u64, spec_decimal_value, spec_is_digits};

verus! {

/// Mathematical model of a [`DiscordUserData`].
pub ghost struct DiscordUserDataV {
    pub id: u64,
    pub avatar: Option<Seq<char>>,
    pub username: Seq<char>,
    pub discriminator: Seq<char>,
}

/// The user object inside a guild-member document.
pub struct DiscordUserData {
    pub id: UserId,
    pub avatar: Option<String>,
    pub username: String,
    pub discriminator: String,
}

impl View for DiscordUserData {
    type V = DiscordUserDataV;

    open spec fn view(&self) -> DiscordUserDataV {
        DiscordUserDataV {
            id: self.id@,
            avatar: opt_str_view(self.avatar),
            username: self.username@,
            discriminator: self.discriminator@,
        }
    }
}

/// Mathematical model of a [`GuildMember`].
pub ghost struct GuildMemberV {
    pub user: DiscordUserDataV,
    pub nick: Option<Seq<char>>,
    pub roles: Seq<u64>,
}

/// One member of the guild: the user, an optional nickname, and the user's
/// role identifiers.
pub struct GuildMember {
    pub user: DiscordUserData,
    pub nick: Option<String>,
    pub roles: Vec<RoleId>,
}

impl View for GuildMember {
    type V = GuildMemberV;

    open spec fn view(&self) -> GuildMemberV {
        GuildMemberV {
            user: self.user@,
            nick: opt_str_view(self.nick),
            roles: crate::ids::role_views(self.roles@),
        }
    }
}

/// A string value, or `null` standing for no value.
pub open spec fn spec_opt_string(s: Seq<char>, i: nat) -> Option<(Option<Seq<char>>, nat)> {
    if i < s.len() && s[i as int] == '"' {
        match spec_pstring(s, i) {
            None => None,
            Some((v, e)) => Some((Some(v), e)),
        }
    } else if spec_lit_at(s, i, "null"@) {
        Some((None, (i + 4) as nat))
    } else {
        None
    }
}

fn opt_string(s: &str, n: usize, i: usize) -> (r: Option<(Option<String>, usize)>)
    requires
        n == s@.len(),
        i <= n,
    ensures
        match r {
            Some(v) => spec_opt_string(s@, i as nat) == Some((opt_str_view(v.0), v.1 as nat)) && i
                < v.1 <= n,
            None => spec_opt_string(s@, i as nat) is None,
        },
{
    if i < n && s.get_char(i) == '"' {
        match pstring(s, n, i) {
            None => None,
            Some((v, e)) => Some((Some(v), e)),
        }
    } else {
        proof {
            reveal_strlit("null");
        }
        if lit_at(s, n, i, "null") {
            Some((None, i + 4))
        } else {
            None
        }
    }
}

/// What has been collected of the user object while its members parse.
pub ghost struct UserAcc {
    pub id: Option<u64>,
    pub avatar: Option<Seq<char>>,
    pub username: Option<Seq<char>>,
    pub discriminator: Option<Seq<char>>,
}

/// A complete user object, once `id`, `username` and `discriminator` have
/// appeared; `avatar` may be absent or null.
pub open spec fn spec_user_finish(acc: UserAcc) -> Option<DiscordUserDataV> {
    match (acc.id, acc.username, acc.discriminator) {
        (Some(id), Some(u), Some(d)) => Some(
            DiscordUserDataV { id, avatar: acc.avatar, username: u, discriminator: d },
        ),
        _ => None,
    }
}

/// Members of the user object.
pub open spec fn spec_user_members(s: Seq<char>, i: nat, acc: UserAcc) -> Option<
    (DiscordUserDataV, nat),
>
    decreases rem(s, i), 4nat,
{
    let p = (i + spec_ws(s, i)) as nat;
    if p < s.len() && s[p as int] == '}' {
        match spec_user_finish(acc) {
            Some(c) => Some((c, (p + 1) as nat)),
            None => None,
        }
    } else {
        match spec_pstring(s, p) {
            None => None,
            Some((key, q0)) => {
                let q = at_least(q0, (p + 1) as nat);
                let p1 = (q + spec_ws(s, q)) as nat;
                if p1 < s.len() && s[p1 as int] == ':' {
                    let p2 = ((p1 + 1) + spec_ws(s, (p1 + 1) as nat)) as nat;
                    if key == "id"@ {
                        match spec_pstring(s, p2) {
                            None => None,
                            Some((v, e0)) => if spec_is_digits(v) && 0 < spec_decimal_value(v)
                                && spec_decimal_value(v) <= u64::MAX {
                                spec_user_tail(
                                    s,
                                    at_least(e0, (p2 + 1) as nat),
                                    UserAcc { id: Some(spec_decimal_value(v) as u64), ..acc },
                                )
                            } else {
                                None
                            },
                        }
                    } else if key == "avatar"@ {
                        match spec_opt_string(s, p2) {
                            None => None,
                            Some((v, e0)) => spec_user_tail(
                                s,
                                at_least(e0, (p2 + 1) as nat),
                                UserAcc { avatar: v, ..acc },
                            ),
                        }
                    } else if key == "username"@ {
                        match spec_pstring(s, p2) {
                            None => None,
                            Some((v, e0)) => spec_user_tail(
                                s,
                                at_least(e0, (p2 + 1) as nat),
                                UserAcc { username: Some(v), ..acc },
                            ),
                        }
                    } else if key == "discriminator"@ {
                        match spec_pstring(s, p2) {
                            None => None,
                            Some((v, e0)) => spec_user_tail(
                                s,
                                at_least(e0, (p2 + 1) as nat),
                                UserAcc { discriminator: Some(v), ..acc },
                            ),
                        }
                    } else {
                        match spec_skip_value(s, p2) {
                            None => None,
                            Some(e0) => spec_user_tail(s, at_least(e0, (p2 + 1) as nat), acc),
                        }
                    }
                } else {
                    None
                }
            },
        }
    }
}

/// After one member of the user object.
pub open spec fn spec_user_tail(s: Seq<char>, e: nat, acc: UserAcc) -> Option<
    (DiscordUserDataV, nat),
>
    decreases rem(s, e), 3nat,
{
    let p3 = (e + spec_ws(s, e)) as nat;
    if p3 < s.len() && s[p3 as int] == ',' {
        spec_user_members(s, (p3 + 1) as nat, acc)
    } else if p3 < s.len() && s[p3 as int] == '}' {
        match spec_user_finish(acc) {
            Some(c) => Some((c, (p3 + 1) as nat)),
            None => None,
        }
    } else {
        None
    }
}

/// Items of the roles array: decimal strings naming nonzero roles.
pub open spec fn spec_role_items(s: Seq<char>, i: nat, acc: Seq<u64>) -> Option<(Seq<u64>, nat)>
    decreases rem(s, i), 2nat,
{
    let p = (i + spec_ws(s, i)) as nat;
    if p < s.len() && s[p as int] == ']' {
        Some((acc, (p + 1) as nat))
    } else {
        match spec_pstring(s, p) {
            None => None,
            Some((v, e0)) => if spec_is_digits(v) && 0 < spec_decimal_value(v)
                && spec_decimal_value(v) <= u64::MAX {
                let e = at_least(e0, (p + 1) as nat);
                let p2 = (e + spec_ws(s, e)) as nat;
                if p2 < s.len() && s[p2 as int] == ',' {
                    spec_role_items(s, (p2 + 1) as nat, acc.push(spec_decimal_value(v) as u64))
                } else if p2 < s.len() && s[p2 as int] == ']' {
                    Some((acc.push(spec_decimal_value(v) as u64), (p2 + 1) as nat))
                } else {
                    None
                }
            } else {
                None
            },
        }
    }
}

/// What has been collected of the guild-member object while it parses.
pub ghost struct MemberAcc {
    pub user: Option<DiscordUserDataV>,
    pub nick: Option<Seq<char>>,
    pub roles: Option<Seq<u64>>,
}

/// A complete guild-member object, once `user` and `roles` have appeared.
pub open spec fn spec_member_finish(acc: MemberAcc) -> Option<GuildMemberV> {
    match (acc.user, acc.roles) {
        (Some(u), Some(r)) => Some(GuildMemberV { user: u, nick: acc.nick, roles: r }),
        _ => None,
    }
}

/// Members of the guild-member object.
pub open spec fn spec_member_members(s: Seq<char>, i: nat, acc: MemberAcc) -> Option<
    (GuildMemberV, nat),
>
    decreases rem(s, i), 8nat,
{
    let p = (i + spec_ws(s, i)) as nat;
    if p < s.len() && s[p as int] == '}' {
        match spec_member_finish(acc) {
            Some(c) => Some((c, (p + 1) as nat)),
            None => None,
        }
    } else {
        match spec_pstring(s, p) {
            None => None,
            Some((key, q0)) => {
                let q = at_least(q0, (p + 1) as nat);
                let p1 = (q + spec_ws(s, q)) as nat;
                if p1 < s.len() && s[p1 as int] == ':' {
                    let p2 = ((p1 + 1) + spec_ws(s, (p1 + 1) as nat)) as nat;
                    if key == "user"@ {
                        if p2 < s.len() && s[p2 as int] == '{' {
                            match spec_user_members(
                                s,
                                (p2 + 1) as nat,
                                UserAcc { id: None, avatar: None, username: None, discriminator: None },
                            ) {
                                None => None,
                                Some((u, e0)) => spec_member_tail(
                                    s,
                                    at_least(e0, (p2 + 1) as nat),
                                    MemberAcc { user: Some(u), ..acc },
                                ),
                            }
                        } else {
                            None
                        }
                    } else if key == "nick"@ {
                        match spec_opt_string(s, p2) {
                            None => None,
                            Some((v, e0)) => spec_member_tail(
                                s,
                                at_least(e0, (p2 + 1) as nat),
                                MemberAcc { nick: v, ..acc },
                            ),
                        }
                    } else if key == "roles"@ {
                        if p2 < s.len() && s[p2 as int] == '[' {
                            match spec_role_items(s, (p2 + 1) as nat, Seq::empty()) {
                                None => None,
                                Some((rs, e0)) => spec_member_tail(
                                    s,
                                    at_least(e0, (p2 + 1) as nat),
                                    MemberAcc { roles: Some(rs), ..acc },
                                ),
                            }
                        } else {
                            None
                        }
                    } else {
                        match spec_skip_value(s, p2) {
                            None => None,
                            Some(e0) => spec_member_tail(s, at_least(e0, (p2 + 1) as nat), acc),
                        }
                    }
                } else {
                    None
                }
            },
        }
    }
}

/// After one member of the guild-member object.
pub open spec fn spec_member_tail(s: Seq<char>, e: nat, acc: MemberAcc) -> Option<
    (GuildMemberV, nat),
>
    decreases rem(s, e), 7nat,
{
    let p3 = (e + spec_ws(s, e)) as nat;
    if p3 < s.len() && s[p3 as int] == ',' {
        spec_member_members(s, (p3 + 1) as nat, acc)
    } else if p3 < s.len() && s[p3 as int] == '}' {
        match spec_member_finish(acc) {
            Some(c) => Some((c, (p3 + 1) as nat)),
            None => None,
        }
    } else {
        None
    }
}

/// The whole guild-member document: optional whitespace, the object,
/// optional whitespace, end of input.
pub open spec fn spec_guild_member(s: Seq<char>) -> Option<GuildMemberV> {
    let p = spec_ws(s, 0);
    if p < s.len() && s[p as int] == '{' {
        match spec_member_members(
            s,
            (p + 1) as nat,
            MemberAcc { user: None, nick: None, roles: None },
        ) {
            None => None,
            Some((gm, e)) => if e + spec_ws(s, e) == s.len() {
                Some(gm)
            } else {
                None
            },
        }
    } else {
        None
    }
}

/// What has been collected of the user object.
struct UserFields {
    id: Option<UserId>,
    avatar: Option<String>,
    username: Option<String>,
    discriminator: Option<String>,
}

impl UserFields {
    spec fn view(&self) -> UserAcc {
        UserAcc {
            id: match self.id {
                Some(u) => Some(u@),
                None => None,
            },
            avatar: opt_str_view(self.avatar),
            username: opt_str_view(self.username),
            discriminator: opt_str_view(self.discriminator),
        }
    }

    fn finish(self) -> (r: Option<DiscordUserData>)
        ensures
            match r {
                Some(c) => spec_user_finish(self@) == Some(c@),
                None => spec_user_finish(self@) is None,
            },
    {
        match (self.id, self.username, self.discriminator) {
            (Some(id), Some(u), Some(d)) => Some(
                DiscordUserData { id, avatar: self.avatar, username: u, discriminator: d },
            ),
            _ => None,
        }
    }
}

fn user_members(s: &str, n: usize, i: usize, acc: UserFields) -> (r: Option<
    (DiscordUserData, usize),
>)
    requires
        n == s@.len(),
        i <= n,
    ensures
        match r {
            Some(v) => spec_user_members(s@, i as nat, acc@) == Some((v.0@, v.1 as nat)) && i < v.1
                <= n,
            None => spec_user_members(s@, i as nat, acc@) is None,
        },
    decreases rem(s@, i as nat), 4nat,
{
    let p = skip_ws(s, n, i);
    if p < n && s.get_char(p) == '}' {
        return match acc.finish() {
            Some(c) => Some((c, p + 1)),
            None => None,
        };
    }
    match pstring(s, n, p) {
        None => None,
        Some((key, q)) => {
            proof {
                assert(at_least(q as nat, (p + 1) as nat) == q as nat);
            }
            let p1 = skip_ws(s, n, q);
            if p1 < n && s.get_char(p1) == ':' {
                let p2 = skip_ws(s, n, p1 + 1);
                if crate::text::str_eq(key.as_str(), "id") {
                    match pstring(s, n, p2) {
                        None => None,
                        Some((v, e)) => {
                            proof {
                                assert(at_least(e as nat, (p2 + 1) as nat) == e as nat);
                            }
                            match parse_u64(v.as_str()) {
                                None => None,
                                Some(raw) => match UserId::from_raw(raw) {
                                    None => None,
                                    Some(id) => user_tail(
                                        s,
                                        n,
                                        e,
                                        UserFields { id: Some(id), ..acc },
                                    ),
                                },
                            }
                        },
                    }
                } else if crate::text::str_eq(key.as_str(), "avatar") {
                    match opt_string(s, n, p2) {
                        None => None,
                        Some((v, e)) => {
                            proof {
                                assert(at_least(e as nat, (p2 + 1) as nat) == e as nat);
                            }
                            user_tail(s, n, e, UserFields { avatar: v, ..acc })
                        },
                    }
                } else if crate::text::str_eq(key.as_str(), "username") {
                    match pstring(s, n, p2) {
                        None => None,
                        Some((v, e)) => {
                            proof {
                                assert(at_least(e as nat, (p2 + 1) as nat) == e as nat);
                            }
                            user_tail(s, n, e, UserFields { username: Some(v), ..acc })
                        },
                    }
                } else if crate::text::str_eq(key.as_str(), "discriminator") {
                    match pstring(s, n, p2) {
                        None => None,
                        Some((v, e)) => {
                            proof {
                                assert(at_least(e as nat, (p2 + 1) as nat) == e as nat);
                            }
                            user_tail(s, n, e, UserFields { discriminator: Some(v), ..acc })
                        },
                    }
                } else {
                    match skip_value(s, n, p2) {
                        None => None,
                        Some(e) => {
                            proof {
                                assert(at_least(e as nat, (p2 + 1) as nat) == e as nat);
                            }
                            user_tail(s, n, e, acc)
                        },
                    }
                }
            } else {
                None
            }
        },
    }
}

fn user_tail(s: &str, n: usize, e: usize, acc: UserFields) -> (r: Option<(DiscordUserData, usize)>)
    requires
        n == s@.len(),
        e <= n,
    ensures
        match r {
            Some(v) => spec_user_tail(s@, e as nat, acc@) == Some((v.0@, v.1 as nat)) && e < v.1
                <= n,
            None => spec_user_tail(s@, e as nat, acc@) is None,
        },
    decreases rem(s@, e as nat), 3nat,
{
    let p3 = skip_ws(s, n, e);
    if p3 < n && s.get_char(p3) == ',' {
        user_members(s, n, p3 + 1, acc)
    } else if p3 < n && s.get_char(p3) == '}' {
        match acc.finish() {
            Some(c) => Some((c, p3 + 1)),
            None => None,
        }
    } else {
        None
    }
}

fn role_items(s: &str, n: usize, i: usize, acc: Vec<RoleId>) -> (r: Option<(Vec<RoleId>, usize)>)
    requires
        n == s@.len(),
        i <= n,
    ensures
        match r {
            Some(v) => spec_role_items(s@, i as nat, crate::ids::role_views(acc@)) == Some(
                (crate::ids::role_views(v.0@), v.1 as nat),
            ) && i < v.1 <= n,
            None => spec_role_items(s@, i as nat, crate::ids::role_views(acc@)) is None,
        },
    decreases rem(s@, i as nat), 2nat,
{
    let p = skip_ws(s, n, i);
    if p < n && s.get_char(p) == ']' {
        return Some((acc, p + 1));
    }
    match pstring(s, n, p) {
        None => None,
        Some((v, e)) => {
            proof {
                assert(at_least(e as nat, (p + 1) as nat) == e as nat);
            }
            match parse_u64(v.as_str()) {
                None => None,
                Some(raw) => match RoleId::from_raw(raw) {
                    None => None,
                    Some(id) => {
                        let ghost acc_v = crate::ids::role_views(acc@);
                        let mut acc = acc;
                        acc.push(id);
                        proof {
                            assert(crate::ids::role_views(acc@) =~= acc_v.push(id@));
                        }
                        let p2 = skip_ws(s, n, e);
                        if p2 < n && s.get_char(p2) == ',' {
                            role_items(s, n, p2 + 1, acc)
                        } else if p2 < n && s.get_char(p2) == ']' {
                            Some((acc, p2 + 1))
                        } else {
                            None
                        }
                    },
                },
            }
        },
    }
}

/// What has been collected of the guild-member object.
struct MemberFields {
    user: Option<DiscordUserData>,
    nick: Option<String>,
    roles: Option<Vec<RoleId>>,
}

impl MemberFields {
    spec fn view(&self) -> MemberAcc {
        MemberAcc {
            user: match self.user {
                Some(u) => Some(u@),
                None => None,
            },
            nick: opt_str_view(self.nick),
            roles: match self.roles {
                Some(r) => Some(crate::ids::role_views(r@)),
                None => None,
            },
        }
    }

    fn finish(self) -> (r: Option<GuildMember>)
        ensures
            match r {
                Some(c) => spec_member_finish(self@) == Some(c@),
                None => spec_member_finish(self@) is None,
            },
    {
        match (self.user, self.roles) {
            (Some(u), Some(r)) => Some(GuildMember { user: u, nick: self.nick, roles: r }),
            _ => None,
        }
    }
}

fn member_members(s: &str, n: usize, i: usize, acc: MemberFields) -> (r: Option<
    (GuildMember, usize),
>)
    requires
        n == s@.len(),
        i <= n,
    ensures
        match r {
            Some(v) => spec_member_members(s@, i as nat, acc@) == Some((v.0@, v.1 as nat)) && i
                < v.1 <= n,
            None => spec_member_members(s@, i as nat, acc@) is None,
        },
    decreases rem(s@, i as nat), 8nat,
{
    let p = skip_ws(s, n, i);
    if p < n && s.get_char(p) == '}' {
        return match acc.finish() {
            Some(c) => Some((c, p + 1)),
            None => None,
        };
    }
    match pstring(s, n, p) {
        None => None,
        Some((key, q)) => {
            proof {
                assert(at_least(q as nat, (p + 1) as nat) == q as nat);
            }
            let p1 = skip_ws(s, n, q);
            if p1 < n && s.get_char(p1) == ':' {
                let p2 = skip_ws(s, n, p1 + 1);
                if crate::text::str_eq(key.as_str(), "user") {
                    if p2 < n && s.get_char(p2) == '{' {
                        let fields = UserFields {
                            id: None,
                            avatar: None,
                            username: None,
                            discriminator: None,
                        };
                        match user_members(s, n, p2 + 1, fields) {
                            None => None,
                            Some((u, e)) => {
                                proof {
                                    assert(at_least(e as nat, (p2 + 1) as nat) == e as nat);
                                }
                                member_tail(s, n, e, MemberFields { user: Some(u), ..acc })
                            },
                        }
                    } else {
                        None
                    }
                } else if crate::text::str_eq(key.as_str(), "nick") {
                    match opt_string(s, n, p2) {
                        None => None,
                        Some((v, e)) => {
                            proof {
                                assert(at_least(e as nat, (p2 + 1) as nat) == e as nat);
                            }
                            member_tail(s, n, e, MemberFields { nick: v, ..acc })
                        },
                    }
                } else if crate::text::str_eq(key.as_str(), "roles") {
                    if p2 < n && s.get_char(p2) == '[' {
                        let rs: Vec<RoleId> = Vec::new();
                        proof {
                            assert(crate::ids::role_views(rs@) =~= Seq::<u64>::empty());
                        }
                        match role_items(s, n, p2 + 1, rs) {
                            None => None,
                            Some((r, e)) => {
                                proof {
                                    assert(at_least(e as nat, (p2 + 1) as nat) == e as nat);
                                }
                                member_tail(s, n, e, MemberFields { roles: Some(r), ..acc })
                            },
                        }
                    } else {
                        None
                    }
                } else {
                    match skip_value(s, n, p2) {
                        None => None,
                        Some(e) => {
                            proof {
                                assert(at_least(e as nat, (p2 + 1) as nat) == e as nat);
                            }
                            member_tail(s, n, e, acc)
                        },
                    }
                }
            } else {
                None
            }
        },
    }
}

fn member_tail(s: &str, n: usize, e: usize, acc: MemberFields) -> (r: Option<(GuildMember, usize)>)
    requires
        n == s@.len(),
        e <= n,
    ensures
        match r {
            Some(v) => spec_member_tail(s@, e as nat, acc@) == Some((v.0@, v.1 as nat)) && e < v.1
                <= n,
            None => spec_member_tail(s@, e as nat, acc@) is None,
        },
    decreases rem(s@, e as nat), 7nat,
{
    let p3 = skip_ws(s, n, e);
    if p3 < n && s.get_char(p3) == ',' {
        member_members(s, n, p3 + 1, acc)
    } else if p3 < n && s.get_char(p3) == '}' {
        match acc.finish() {
            Some(c) => Some((c, p3 + 1)),
            None => None,
        }
    } else {
        None
    }
}

/// Parses a guild-member document.  Returns the member exactly when the text
/// is well-formed per [`spec_guild_member`].
pub fn parse_guild_member(s: &str) -> (r: Option<GuildMember>)
    ensures
        match r {
            Some(v) => spec_guild_member(s@) == Some(v@),
            None => spec_guild_member(s@) is None,
        },
{
    let n = s.unicode_len();
    let p = skip_ws(s, n, 0);
    if p < n && s.get_char(p) == '{' {
        let fields = MemberFields { user: None, nick: None, roles: None };
        match member_members(s, n, p + 1, fields) {
            None => None,
            Some((gm, e)) => {
                let e2 = skip_ws(s, n, e);
                if e2 == n {
                    Some(gm)
                } else {
                    None
                }
            },
        }
    } else {
        None
    }
}

/// The caller's role set from an identity response body: the roles of the
/// guild member the body describes, or nothing when the body does not parse.
/// The resolver turns that nothing into the empty role set (fail open).
pub fn roles_from_response(body: &str) -> (r: Option<Vec<RoleId>>)
    ensures
        match r {
            Some(v) => spec_guild_member(body@) matches Some(gm) && crate::ids::role_views(v@)
                == gm.roles,
            None => spec_guild_member(body@) is None,
        },
{
    match parse_guild_member(body) {
        None => None,
        Some(gm) => Some(gm.roles),
    }
}

} // verus!
