//! Who is acting on the API.
use vstd::prelude::*;
use crate::common::id::Id;
use crate::common::role::Role;

verus! {

/// How an actor authenticated.
#[derive(Debug, Clone, Copy, PartialEq, Eq, Structural)]
pub enum Via {
    /// Console session cookie.
    Session,
    /// Bearer token.
    Token,
    /// Root over the Unix socket.
    Socket,
}

/// The authenticated principal behind a request.
#[derive(Debug, Clone)]
pub struct Actor {
    /// User id; absent for root over the socket.
    pub id: Option<Id>,
    /// Username, or `root`.
    pub username: String,
    /// Effective role.
    pub role: Role,
    /// Authentication path.
    pub via: Via,
    /// Token used, when `via` is `token`.
    pub token_id: Option<Id>,
}

impl Actor {
    /// The synthetic root actor for uid 0 on the Unix socket.
    pub fn root() -> (r: Self)
        ensures
            r.id is None,
            r.username@ == "root"@,
            r.role == Role::Admin,
            r.via == Via::Socket,
            r.token_id is None,
    {
        Actor { id: None, username: "root".to_owned(), role: Role::Admin, via: Via::Socket, token_id: None }
    }

    /// Whether this actor is the given user.
    pub fn is_user(&self, id: Id) -> (r: bool)
        ensures
            r == (self.id == Some(id)),
    {
        match self.id {
            Some(mine) => mine == id,
            None => false,
        }
    }
}

} // verus!
