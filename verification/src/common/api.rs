//! API wire types shared by every family: audit results, metadata.
use vstd::prelude::*;
use crate::common::id::Id;

verus! {

/// The object an audit entry or event is about.
#[derive(Debug, Clone)]
pub struct ObjectRef {
    /// Resource family, singular: `user`, `token`, `system`, ...
    pub kind: String,
    /// Object id, if it has one.
    pub id: Option<Id>,
    /// Human name at the time.
    pub name: Option<String>,
}

impl ObjectRef {
    /// A reference to an object with id and name.
    pub fn new(kind: &str, id: Id, name: &str) -> (r: Self)
        ensures
            r.kind@ == kind@,
            r.id == Some(id),
            r.name matches Some(n) && n@ == name@,
    {
        ObjectRef { kind: kind.to_owned(), id: Some(id), name: Some(name.to_owned()) }
    }

    /// A reference to a singleton such as `system`.
    pub fn singleton(kind: &str) -> (r: Self)
        ensures
            r.kind@ == kind@,
            r.id is None,
            r.name is None,
    {
        ObjectRef { kind: kind.to_owned(), id: None, name: None }
    }
}

/// Outcome of an audited call.
#[derive(Debug, Clone, Copy, PartialEq, Eq, Structural)]
pub enum AuditResult {
    /// Succeeded.
    Success,
    /// Refused by authorisation or policy.
    Denied,
    /// Attempted and failed.
    Failed,
}

/// The name of an audit result.
pub open spec fn audit_result_name(r: AuditResult) -> Seq<char> {
    match r {
        AuditResult::Success => "ok"@,
        AuditResult::Denied => "denied"@,
        AuditResult::Failed => "failed"@,
    }
}

impl AuditResult {
    /// Lowercase name.
    pub fn as_str(self) -> (r: &'static str)
        ensures
            r@ == audit_result_name(self),
    {
        match self {
            AuditResult::Success => "ok",
            AuditResult::Denied => "denied",
            AuditResult::Failed => "failed",
        }
    }
}

/// Where a job is.
#[derive(Debug, Clone, Copy, PartialEq, Eq, Structural)]
pub enum JobState {
    /// Waiting for a worker.
    Queued,
    /// Running.
    Running,
    /// Done.
    Succeeded,
    /// Failed.
    Failed,
    /// Cancelled before it finished.
    Cancelled,
}

/// Per-object metadata held by the daemon, not by illumos.
#[derive(Debug, Clone, Default, PartialEq, Eq)]
pub struct Metadata {
    /// Display name.
    pub display_name: Option<String>,
    /// Description.
    pub description: Option<String>,
    /// Tags.
    pub tags: Option<Vec<String>>,
    /// Notes.
    pub notes: Option<String>,
}

impl Metadata {
    /// Whether nothing is set.
    pub fn is_empty(&self) -> (r: bool)
        ensures
            r == (self.display_name is None && self.description is None && self.tags is None
                && self.notes is None),
    {
        self.display_name.is_none() && self.description.is_none() && self.tags.is_none()
            && self.notes.is_none()
    }
}

/// A page of results.
#[derive(Debug, Clone, PartialEq, Eq)]
pub struct Page<T> {
    /// Items.
    pub items: Vec<T>,
    /// Cursor for the next page.
    pub next: Option<String>,
}

/// `POST /auth/login`.
#[derive(Debug, Clone, PartialEq, Eq)]
pub struct LoginRequest {
    /// Username.
    pub username: String,
    /// Password.
    pub password: String,
}

/// `POST /users`.
#[derive(Debug, Clone, PartialEq, Eq)]
pub struct UserCreate {
    /// Username.
    pub username: String,
    /// Password.
    pub password: String,
    /// Role.
    pub role: crate::common::role::Role,
}

/// `PATCH /users/{id}`.
#[derive(Debug, Clone, Default, PartialEq, Eq)]
pub struct UserUpdate {
    /// Role.
    pub role: Option<crate::common::role::Role>,
    /// Disabled.
    pub disabled: Option<bool>,
}

/// `POST /users/{id}/password`.
#[derive(Debug, Clone, PartialEq, Eq)]
pub struct PasswordChange {
    /// Current password, when changing one's own.
    pub current: Option<String>,
    /// New password.
    pub new: String,
}

/// Host memory.
#[derive(Debug, Clone, Copy, PartialEq, Eq)]
pub struct Memory {
    /// Total.
    pub total_bytes: u64,
    /// Free.
    pub free_bytes: u64,
}

} // verus!
