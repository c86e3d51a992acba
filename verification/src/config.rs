//! Registry entries: one per game server, loaded from the registry file.
//!
//! A [`ServerConfig`] is immutable once loaded.  Its backend configuration
//! ([`GameConfig`]) carries no runtime state, so it serves as the key of the
//! status cache and of the connection pool; two keys are the same exactly when
//! their views are equal.

use vstd::prelude::*;

use crate::ids::RoleId;
use crate::secret::Secret;

verus! {

/// Mathematical model of a [`FactorioConfig`].
pub ghost struct FactorioConfigV {
    pub rcon_host: Seq<char>,
    pub rcon_password: Seq<char>,
    pub game_password: Seq<char>,
}

/// Backend spoken to over its remote console: where to connect and with what.
#[derive(PartialEq)]
pub struct FactorioConfig {
    pub rcon_host: String,
    pub rcon_password: Secret,
    pub game_password: Secret,
}

impl View for FactorioConfig {
    type V = FactorioConfigV;

    open spec fn view(&self) -> FactorioConfigV {
        FactorioConfigV {
            rcon_host: self.rcon_host@,
            rcon_password: self.rcon_password@,
            game_password: self.game_password@,
        }
    }
}

impl DeepView for FactorioConfig {
    type V = FactorioConfigV;

    open spec fn deep_view(&self) -> FactorioConfigV {
        self.view()
    }
}

impl Clone for FactorioConfig {
    fn clone(&self) -> (r: Self)
        ensures
            r@ == self@,
    {
        FactorioConfig {
            rcon_host: self.rcon_host.clone(),
            rcon_password: self.rcon_password.clone(),
            game_password: self.game_password.clone(),
        }
    }
}

impl FactorioConfig {
    /// Whether two configurations are the same key.
    pub fn key_eq(&self, other: &FactorioConfig) -> (r: bool)
        ensures
            r == (self@ == other@),
    {
        self.rcon_host == other.rcon_host && *self.rcon_password.secret()
            == *other.rcon_password.secret() && *self.game_password.secret()
            == *other.game_password.secret()
    }
}

/// Mathematical model of a [`GenericConfig`].
pub ghost struct GenericConfigV {
    pub game_name: Seq<char>,
    pub game_password: Seq<char>,
}

/// Backend with no live protocol: only what the registry says about it.
#[derive(PartialEq)]
pub struct GenericConfig {
    /// Name of the game, not the name of the server.
    pub game_name: String,
    pub game_password: Secret,
}

impl View for GenericConfig {
    type V = GenericConfigV;

    open spec fn view(&self) -> GenericConfigV {
        GenericConfigV { game_name: self.game_name@, game_password: self.game_password@ }
    }
}

impl DeepView for GenericConfig {
    type V = GenericConfigV;

    open spec fn deep_view(&self) -> GenericConfigV {
        self.view()
    }
}

impl Clone for GenericConfig {
    fn clone(&self) -> (r: Self)
        ensures
            r@ == self@,
    {
        GenericConfig {
            game_name: self.game_name.clone(),
            game_password: self.game_password.clone(),
        }
    }
}

impl GenericConfig {
    /// Whether two configurations are the same key.
    pub fn key_eq(&self, other: &GenericConfig) -> (r: bool)
        ensures
            r == (self@ == other@),
    {
        self.game_name == other.game_name && *self.game_password.secret()
            == *other.game_password.secret()
    }
}

/// Mathematical model of a [`GameConfig`].
pub ghost enum GameConfigV {
    Factorio(FactorioConfigV),
    Generic(GenericConfigV),
}

/// Backend configuration, tagged by game kind.  Adding a game kind adds a
/// variant here and a fetch implementation for it; nothing else changes.
#[derive(PartialEq)]
pub enum GameConfig {
    Factorio(FactorioConfig),
    Generic(GenericConfig),
}

impl View for GameConfig {
    type V = GameConfigV;

    open spec fn view(&self) -> GameConfigV {
        match *self {
            GameConfig::Factorio(c) => GameConfigV::Factorio(c@),
            GameConfig::Generic(c) => GameConfigV::Generic(c@),
        }
    }
}

impl DeepView for GameConfig {
    type V = GameConfigV;

    open spec fn deep_view(&self) -> GameConfigV {
        self.view()
    }
}

impl Clone for GameConfig {
    fn clone(&self) -> (r: Self)
        ensures
            r@ == self@,
    {
        match self {
            GameConfig::Factorio(c) => GameConfig::Factorio(c.clone()),
            GameConfig::Generic(c) => GameConfig::Generic(c.clone()),
        }
    }
}

impl GameConfig {
    /// Whether two configurations are the same cache key.
    pub fn key_eq(&self, other: &GameConfig) -> (r: bool)
        ensures
            r == (self@ == other@),
    {
        match (self, other) {
            (GameConfig::Factorio(a), GameConfig::Factorio(b)) => a.key_eq(b),
            (GameConfig::Generic(a), GameConfig::Generic(b)) => a.key_eq(b),
            _ => false,
        }
    }
}

/// Mathematical model of a [`ServerConfig`].
pub ghost struct ServerConfigV {
    pub name: Seq<char>,
    pub game: GameConfigV,
    pub public_dns: Seq<char>,
    pub required_role: Option<u64>,
}

impl ServerConfigV {
    /// An entry is visible to a caller exactly when it requires a role the
    /// caller has.  An entry that requires no role is visible to nobody.
    pub open spec fn visible_to(&self, roles: Seq<u64>) -> bool {
        match self.required_role {
            Some(r) => roles.contains(r),
            None => false,
        }
    }
}

/// One registry entry: display name, backend configuration, public address,
/// and the role a caller must hold to see it.
#[derive(PartialEq)]
pub struct ServerConfig {
    pub name: String,
    pub game: GameConfig,
    pub public_dns: String,
    pub required_role: Option<RoleId>,
}

impl View for ServerConfig {
    type V = ServerConfigV;

    open spec fn view(&self) -> ServerConfigV {
        ServerConfigV {
            name: self.name@,
            game: self.game@,
            public_dns: self.public_dns@,
            required_role: match self.required_role {
                Some(r) => Some(r@),
                None => None,
            },
        }
    }
}

impl DeepView for ServerConfig {
    type V = ServerConfigV;

    open spec fn deep_view(&self) -> ServerConfigV {
        self.view()
    }
}

impl Clone for ServerConfig {
    fn clone(&self) -> (r: Self)
        ensures
            r@ == self@,
    {
        ServerConfig {
            name: self.name.clone(),
            game: self.game.clone(),
            public_dns: self.public_dns.clone(),
            required_role: match self.required_role {
                Some(r) => Some(r),
                None => None,
            },
        }
    }
}

} // verus!
