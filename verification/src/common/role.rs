//! Roles: who may do what.
use vstd::prelude::*;

verus! {

/// A user's role, in ascending order of privilege.
#[derive(Debug, Clone, Copy, PartialEq, Eq, Structural, Hash)]
pub enum Role {
    /// Reads everything except other users' tokens.
    Viewer,
    /// Also performs every infrastructure mutation.
    Operator,
    /// Also manages users, tokens, and the system.
    Admin,
}

/// The privilege rank of a role: `Viewer < Operator < Admin`.
pub open spec fn rank(r: Role) -> int {
    match r {
        Role::Viewer => 0,
        Role::Operator => 1,
        Role::Admin => 2,
    }
}

/// The lowercase wire name of a role.
pub open spec fn role_name(r: Role) -> Seq<char> {
    match r {
        Role::Viewer => "viewer"@,
        Role::Operator => "operator"@,
        Role::Admin => "admin"@,
    }
}

/// Error for an unknown role name.
#[derive(Debug, Clone, PartialEq, Eq)]
pub struct UnknownRole(pub String);

impl Role {
    /// Whether a holder of this role may do what `required` allows.
    pub fn allows(self, required: Role) -> (r: bool)
        ensures
            r == (rank(self) >= rank(required)),
    {
        let a: u8 = match self {
            Role::Viewer => 0,
            Role::Operator => 1,
            Role::Admin => 2,
        };
        let b: u8 = match required {
            Role::Viewer => 0,
            Role::Operator => 1,
            Role::Admin => 2,
        };
        a >= b
    }

    /// Lowercase name as used on the wire and in the database.
    pub fn as_str(self) -> (r: &'static str)
        ensures
            r@ == role_name(self),
    {
        match self {
            Role::Viewer => "viewer",
            Role::Operator => "operator",
            Role::Admin => "admin",
        }
    }

    /// The role a wire name names.
    pub fn parse(s: &str) -> (r: Result<Role, UnknownRole>)
        ensures
            r matches Ok(role) ==> role_name(role) == s@,
            r is Err <==> (s@ != "viewer"@ && s@ != "operator"@ && s@ != "admin"@),
            r matches Err(e) ==> e.0@ == s@,
    {
        let c = crate::text::chars_of(s);
        if crate::text::is(c.as_slice(), "viewer") {
            Ok(Role::Viewer)
        } else if crate::text::is(c.as_slice(), "operator") {
            Ok(Role::Operator)
        } else if crate::text::is(c.as_slice(), "admin") {
            Ok(Role::Admin)
        } else {
            Err(UnknownRole(s.to_owned()))
        }
    }
}

impl std::str::FromStr for Role {
    type Err = UnknownRole;

    fn from_str(s: &str) -> Result<Role, UnknownRole> {
        Role::parse(s)
    }
}

/// Every role's name reads back as that role.
pub proof fn lemma_role_names_round_trip(r: Role)
    ensures
        forall|q: Role| role_name(q) == role_name(r) ==> q == r,
{
    reveal_strlit("viewer");
    reveal_strlit("operator");
    reveal_strlit("admin");
    assert("viewer"@.len() == 6);
    assert("operator"@.len() == 8);
    assert("admin"@.len() == 5);
}

/// Privilege is a total order: of two roles one allows the other.
pub proof fn lemma_allows_total(a: Role, b: Role)
    ensures
        rank(a) >= rank(b) || rank(b) >= rank(a),
        rank(a) >= rank(b) && rank(b) >= rank(a) ==> a == b,
{
}

} // verus!
