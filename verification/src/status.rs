//! Normalized live status of a game server, as shown to a caller.
//!
//! Static fields (name, public address, the password shown to authorized
//! members) always come from the registry entry; dynamic fields (player list,
//! game time, version) come from a live fetch and degrade to placeholders when
//! the fetch fails.

use vstd::prelude::*;

verus! {

/// Health of a backend as far as the last fetch could tell.
#[derive(Clone, Copy, Debug, PartialEq, Eq, Structural)]
pub enum HealthStatus {
    Running,
    Starting,
    Offline,
    Unknown,
}

impl HealthStatus {
    /// Short text label, for display layers.
    pub fn label(&self) -> (r: &'static str)
        ensures
            *self is Running ==> r@ == "Running"@,
            *self is Starting ==> r@ == "Starting"@,
            *self is Offline ==> r@ == "Offline"@,
            *self is Unknown ==> r@ == "Unknown"@,
    {
        match self {
            HealthStatus::Running => "Running",
            HealthStatus::Starting => "Starting",
            HealthStatus::Offline => "Offline",
            HealthStatus::Unknown => "Unknown",
        }
    }
}

/// Mathematical model of a [`FactorioStatus`].
pub ghost struct FactorioStatusV {
    pub name: Seq<char>,
    pub health: HealthStatus,
    pub url: Seq<char>,
    pub game_password: Seq<char>,
    pub players_online: Seq<Seq<char>>,
    pub game_time: Seq<char>,
    pub game_version: Seq<char>,
}

/// Status of a backend spoken to over its remote console.
#[derive(Debug, PartialEq)]
pub struct FactorioStatus {
    pub name: String,
    pub health: HealthStatus,
    pub url: String,
    pub game_password: String,
    pub players_online: Vec<String>,
    pub game_time: String,
    pub game_version: String,
}

impl View for FactorioStatus {
    type V = FactorioStatusV;

    open spec fn view(&self) -> FactorioStatusV {
        FactorioStatusV {
            name: self.name@,
            health: self.health,
            url: self.url@,
            game_password: self.game_password@,
            players_online: self.players_online.deep_view(),
            game_time: self.game_time@,
            game_version: self.game_version@,
        }
    }
}

impl DeepView for FactorioStatus {
    type V = FactorioStatusV;

    open spec fn deep_view(&self) -> FactorioStatusV {
        self.view()
    }
}

impl Clone for FactorioStatus {
    fn clone(&self) -> (r: Self)
        ensures
            r@ == self@,
    {
        let r = FactorioStatus {
            name: self.name.clone(),
            health: self.health,
            url: self.url.clone(),
            game_password: self.game_password.clone(),
            players_online: self.players_online.clone(),
            game_time: self.game_time.clone(),
            game_version: self.game_version.clone(),
        };
        proof {
            assert(r.players_online.deep_view() =~= self.players_online.deep_view());
        }
        r
    }
}

/// Mathematical model of a [`GenericStatus`].
pub ghost struct GenericStatusV {
    pub name: Seq<char>,
    pub game_name: Seq<char>,
    pub health: HealthStatus,
    pub url: Seq<char>,
    pub game_password: Seq<char>,
}

/// Status of a backend with no live protocol: only static registry data.
#[derive(Debug, PartialEq)]
pub struct GenericStatus {
    pub name: String,
    pub game_name: String,
    pub health: HealthStatus,
    pub url: String,
    pub game_password: String,
}

impl View for GenericStatus {
    type V = GenericStatusV;

    open spec fn view(&self) -> GenericStatusV {
        GenericStatusV {
            name: self.name@,
            game_name: self.game_name@,
            health: self.health,
            url: self.url@,
            game_password: self.game_password@,
        }
    }
}

impl DeepView for GenericStatus {
    type V = GenericStatusV;

    open spec fn deep_view(&self) -> GenericStatusV {
        self.view()
    }
}

impl Clone for GenericStatus {
    fn clone(&self) -> (r: Self)
        ensures
            r@ == self@,
    {
        GenericStatus {
            name: self.name.clone(),
            game_name: self.game_name.clone(),
            health: self.health,
            url: self.url.clone(),
            game_password: self.game_password.clone(),
        }
    }
}

/// Mathematical model of a [`ServerStatus`].
pub ghost enum ServerStatusV {
    Factorio(FactorioStatusV),
    Generic(GenericStatusV),
}

impl ServerStatusV {
    /// The display name, whichever kind the status is.
    pub open spec fn name(&self) -> Seq<char> {
        match *self {
            ServerStatusV::Factorio(s) => s.name,
            ServerStatusV::Generic(s) => s.name,
        }
    }

    /// The health, whichever kind the status is.
    pub open spec fn health(&self) -> HealthStatus {
        match *self {
            ServerStatusV::Factorio(s) => s.health,
            ServerStatusV::Generic(s) => s.health,
        }
    }

    /// The public address, whichever kind the status is.
    pub open spec fn url(&self) -> Seq<char> {
        match *self {
            ServerStatusV::Factorio(s) => s.url,
            ServerStatusV::Generic(s) => s.url,
        }
    }
}

/// One normalized status record, tagged by game kind.
#[derive(Debug, PartialEq)]
pub enum ServerStatus {
    Factorio(FactorioStatus),
    Generic(GenericStatus),
}

impl View for ServerStatus {
    type V = ServerStatusV;

    open spec fn view(&self) -> ServerStatusV {
        match *self {
            ServerStatus::Factorio(s) => ServerStatusV::Factorio(s@),
            ServerStatus::Generic(s) => ServerStatusV::Generic(s@),
        }
    }
}

impl DeepView for ServerStatus {
    type V = ServerStatusV;

    open spec fn deep_view(&self) -> ServerStatusV {
        self.view()
    }
}

impl Clone for ServerStatus {
    fn clone(&self) -> (r: Self)
        ensures
            r@ == self@,
    {
        match self {
            ServerStatus::Factorio(s) => ServerStatus::Factorio(s.clone()),
            ServerStatus::Generic(s) => ServerStatus::Generic(s.clone()),
        }
    }
}

/// The display name of a status record's game kind.
pub open spec fn spec_kind_name(s: ServerStatusV) -> Seq<char> {
    match s {
        ServerStatusV::Factorio(_) => "Factorio"@,
        ServerStatusV::Generic(_) => "Generic"@,
    }
}

impl ServerStatus {
    /// The display name of this record's game kind.
    pub fn kind_name(&self) -> (r: &'static str)
        ensures
            r@ == spec_kind_name(self@),
    {
        match self {
            ServerStatus::Factorio(_) => "Factorio",
            ServerStatus::Generic(_) => "Generic",
        }
    }
}

proof fn lemma_kind_filter_take_step(
    ss: Seq<ServerStatusV>,
    g: Seq<char>,
    i: int,
)
    requires
        0 <= i < ss.len(),
    ensures
        ss.take(i + 1).filter(|s: ServerStatusV| spec_kind_name(s) == g) == if spec_kind_name(
            ss[i],
        ) == g {
            ss.take(i).filter(|s: ServerStatusV| spec_kind_name(s) == g).push(ss[i])
        } else {
            ss.take(i).filter(|s: ServerStatusV| spec_kind_name(s) == g)
        },
{
    let t = ss.take(i + 1);
    assert(t.drop_last() =~= ss.take(i));
    assert(t.last() == ss[i]);
    reveal_with_fuel(Seq::filter, 2);
}

/// The records whose game kind bears the given name, in order; no name
/// keeps every record.  The routing layer serves `?game=` filters with this.
pub fn filter_by_game(servers: Vec<ServerStatus>, game: Option<&str>) -> (r: Vec<ServerStatus>)
    ensures
        match game {
            None => r.deep_view() == servers.deep_view(),
            Some(g) => r.deep_view() == servers.deep_view().filter(
                |s: ServerStatusV| spec_kind_name(s) == g@,
            ),
        },
{
    match game {
        None => servers,
        Some(g) => {
            let ghost ss = servers.deep_view();
            let mut r: Vec<ServerStatus> = Vec::new();
            let mut i: usize = 0;
            proof {
                assert(ss.take(0) =~= Seq::<ServerStatusV>::empty());
                assert(r.deep_view() =~= ss.take(0).filter(
                    |s: ServerStatusV| spec_kind_name(s) == g@,
                )) by {
                    reveal_with_fuel(Seq::filter, 1);
                }
            }
            while i < servers.len()
                invariant
                    ss == servers.deep_view(),
                    0 <= i <= servers@.len(),
                    ss.len() == servers@.len(),
                    r.deep_view() == ss.take(i as int).filter(
                        |s: ServerStatusV| spec_kind_name(s) == g@,
                    ),
                decreases servers@.len() - i,
            {
                proof {
                    assert(servers@[i as int].deep_view() == ss[i as int]);
                    lemma_kind_filter_take_step(ss, g@, i as int);
                }
                let keep = crate::text::str_eq(servers[i].kind_name(), g);
                if keep {
                    let ghost old_dv = r.deep_view();
                    r.push(servers[i].clone());
                    proof {
                        assert(r.deep_view() =~= old_dv.push(ss[i as int]));
                    }
                }
                i += 1;
            }
            proof {
                assert(ss.take(ss.len() as int) =~= ss);
            }
            r
        },
    }
}

} // verus!
