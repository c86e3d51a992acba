//! Opaque numeric identifiers handed out by the external identity provider.
//!
//! An identifier is a positive 64-bit integer; the wire format writes it as a
//! decimal string.  Zero is not a valid identifier, so `from_raw` rejects it.

use vstd::prelude::*;

verus! {

/// Identifier of a caller (a community member).
#[derive(Clone, Copy, Debug, PartialEq, Eq, Structural, Hash)]
pub struct UserId {
    pub id: u64,
}

/// Identifier of an authorization role.
#[derive(Clone, Copy, Debug, PartialEq, Eq, Structural, Hash)]
pub struct RoleId {
    pub id: u64,
}

/// Identifier of a community (a guild) in the identity provider.
#[derive(Clone, Copy, Debug, PartialEq, Eq, Structural, Hash)]
pub struct GuildId {
    pub id: u64,
}

impl UserId {
    pub open spec fn view(&self) -> u64 {
        self.id
    }

    /// A valid identifier is never zero.
    pub open spec fn wf(&self) -> bool {
        self.id != 0
    }

    /// Accepts exactly the nonzero raw values.
    pub fn from_raw(id: u64) -> (r: Option<UserId>)
        ensures
            id == 0 <==> r is None,
            id != 0 ==> (r matches Some(u) && u@ == id && u.wf()),
    {
        if id == 0 {
            None
        } else {
            Some(UserId { id })
        }
    }

    pub fn raw(&self) -> (r: u64)
        ensures
            r == self@,
    {
        self.id
    }
}

impl RoleId {
    pub open spec fn view(&self) -> u64 {
        self.id
    }

    /// A valid identifier is never zero.
    pub open spec fn wf(&self) -> bool {
        self.id != 0
    }

    /// Accepts exactly the nonzero raw values.
    pub fn from_raw(id: u64) -> (r: Option<RoleId>)
        ensures
            id == 0 <==> r is None,
            id != 0 ==> (r matches Some(u) && u@ == id && u.wf()),
    {
        if id == 0 {
            None
        } else {
            Some(RoleId { id })
        }
    }

    pub fn raw(&self) -> (r: u64)
        ensures
            r == self@,
    {
        self.id
    }
}

impl GuildId {
    pub open spec fn view(&self) -> u64 {
        self.id
    }

    /// A valid identifier is never zero.
    pub open spec fn wf(&self) -> bool {
        self.id != 0
    }

    /// Accepts exactly the nonzero raw values.
    pub fn from_raw(id: u64) -> (r: Option<GuildId>)
        ensures
            id == 0 <==> r is None,
            id != 0 ==> (r matches Some(u) && u@ == id && u.wf()),
    {
        if id == 0 {
            None
        } else {
            Some(GuildId { id })
        }
    }

    pub fn raw(&self) -> (r: u64)
        ensures
            r == self@,
    {
        self.id
    }
}

/// The raw role values of a sequence of role identifiers.
pub open spec fn role_views(roles: Seq<RoleId>) -> Seq<u64> {
    roles.map(|i: int, r: RoleId| r@)
}

/// Whether a role set contains a role with the given raw value.
pub open spec fn spec_roles_contain(roles: Seq<RoleId>, role: u64) -> bool {
    exists|i: int| 0 <= i < roles.len() && roles[i]@ == role
}

/// Containment of a raw role value agrees with containment over the views.
pub proof fn lemma_roles_contain_views(roles: Seq<RoleId>, role: u64)
    ensures
        spec_roles_contain(roles, role) <==> role_views(roles).contains(role),
{
    assert(role_views(roles).len() == roles.len());
    if spec_roles_contain(roles, role) {
        let i = choose|i: int| 0 <= i < roles.len() && roles[i]@ == role;
        assert(role_views(roles)[i] == role);
    }
    if role_views(roles).contains(role) {
        let i = choose|i: int| 0 <= i < role_views(roles).len() && role_views(roles)[i] == role;
        assert(roles[i]@ == role);
    }
}

/// Membership test on a role set.
pub fn roles_contain(roles: &Vec<RoleId>, role: RoleId) -> (r: bool)
    ensures
        r == spec_roles_contain(roles@, role@),
{
    let mut i: usize = 0;
    while i < roles.len()
        invariant
            0 <= i <= roles@.len(),
            forall|j: int| 0 <= j < i ==> roles@[j]@ != role@,
        decreases roles@.len() - i,
    {
        if roles[i].raw() == role.raw() {
            return true;
        }
        i += 1;
    }
    false
}

} // verus!
