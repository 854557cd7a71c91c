//! The calls of the `system`, `tokens`, `audit` and `jobs` commands, and the
//! rows of tokens.
use vstd::prelude::*;
use crate::common::id::{Id, uuid_text};
use crate::common::timestamp::{Timestamp, rfc3339_text};
use crate::ctl::args::{Paging, SystemCmd};
use crate::ctl::bodies::clone_str;
use crate::ctl::json::{field_views, jobj, jopt, jstr, json_num, json_object, json_opt, json_str};
use crate::ctl::request::{
    Call, Request, bare, call, id_at, no_query, opt_id, opt_id_text, opt_seq, paged, paging_query, push_field,
    push_opt, request, with_opt,
};
use crate::ctl::shown::{opt_str, shown_ts, ts_text};
use crate::ctl::output::shown_opt;
use crate::common::api::{AuditResult, JobState, ObjectRef, audit_result_name};
use crate::common::actor::{Actor, Via};
use crate::common::shell::string_views;
use crate::text::{chars_of, concat, dec, dec_chars, string_from};

verus! {

/// The call a system command makes.
pub open spec fn system_call(cmd: SystemCmd) -> Call {
    match cmd {
        SystemCmd::Info => bare("GET"@, "/system"@),
        SystemCmd::Resources => bare("GET"@, "/system/resources"@),
    }
}

/// The call a system command makes.
pub fn system_request(cmd: SystemCmd) -> (r: Request)
    ensures
        crate::ctl::request::request_view(r) == system_call(cmd),
{
    match cmd {
        SystemCmd::Info => request("GET", "/system".to_owned(), no_query(), None),
        SystemCmd::Resources => request("GET", "/system/resources".to_owned(), no_query(), None),
    }
}

/// `tokens` subcommands.
#[derive(Debug, Clone)]
pub enum TokensCmd {
    List { user: Option<Id>, paging: Paging },
    Get { id: Id },
    Create { name: String, user: Option<Id>, expires_in: Option<i64> },
    Revoke { id: Id },
}

/// An integer in decimal, with a minus sign when negative.
pub open spec fn sdec(n: int) -> Seq<char> {
    if n < 0 { "-"@ + dec((-n) as nat) } else { dec(n as nat) }
}

fn sdec_text(n: i64) -> (r: String)
    ensures
        r@ == sdec(n as int),
{
    if n < 0 {
        let m: u64 = (0i128 - n as i128) as u64;
        let r = string_from(concat(chars_of("-").as_slice(), dec_chars(m).as_slice()).as_slice());
        proof {
            reveal_strlit("-");
        }
        r
    } else {
        json_num(n as u64)
    }
}

/// The call a tokens command makes.
pub open spec fn tokens_call(cmd: TokensCmd) -> Call {
    match cmd {
        TokensCmd::List { user, paging } => call("GET"@, "/tokens"@, paging_query(
            with_opt(Seq::empty(), "user_id"@, opt_id(user)), paging), None),
        TokensCmd::Get { id } => bare("GET"@, "/tokens/"@ + uuid_text(id.value())),
        TokensCmd::Create { name, user, expires_in } => call("POST"@, "/tokens"@, Seq::empty(), Some(jobj(seq![
            ("expires_in_seconds"@, match expires_in { Some(n) => sdec(n as int), None => "null"@ }),
            ("name"@, jstr(name@)),
            ("user_id"@, jopt(opt_id(user))),
        ]))),
        TokensCmd::Revoke { id } => bare("DELETE"@, "/tokens/"@ + uuid_text(id.value())),
    }
}

/// The call a tokens command makes.
pub fn tokens_request(cmd: &TokensCmd) -> (r: Request)
    ensures
        crate::ctl::request::request_view(r) == tokens_call(*cmd),
{
    match cmd {
        TokensCmd::List { user, paging } => {
            let mut q = no_query();
            push_opt(&mut q, "user_id", opt_id_text(*user));
            request("GET", "/tokens".to_owned(), paged(q, paging), None)
        },
        TokensCmd::Get { id } => request("GET", id_at("/tokens/", *id), no_query(), None),
        TokensCmd::Create { name, user, expires_in } => {
            let mut fs = no_query();
            push_field(&mut fs, "expires_in_seconds", match expires_in {
                Some(n) => sdec_text(*n),
                None => "null".to_owned(),
            });
            push_field(&mut fs, "name", json_str(name.as_str()));
            push_field(&mut fs, "user_id", json_opt(&opt_id_text(*user)));
            assert(field_views(fs@) =~= seq![
                ("expires_in_seconds"@, match *expires_in { Some(n) => sdec(n as int), None => "null"@ }),
                ("name"@, jstr(name@)),
                ("user_id"@, jopt(opt_id(*user))),
            ]);
            request("POST", "/tokens".to_owned(), no_query(), Some(json_object(&fs)))
        },
        TokensCmd::Revoke { id } => request("DELETE", id_at("/tokens/", *id), no_query(), None),
    }
}

/// `audit list` flags.
#[derive(Debug, Clone)]
pub struct AuditList {
    pub action: Option<String>,
    pub actor: Option<Id>,
    pub object: Option<Id>,
    pub since: Option<Timestamp>,
    pub until: Option<Timestamp>,
    pub paging: Paging,
}

/// A time filter's text.
pub open spec fn opt_time(t: Option<Timestamp>) -> Option<Seq<char>> {
    match t {
        Some(x) => Some(rfc3339_text(x.unix(), x.subsec())),
        None => None,
    }
}

/// The call `audit list` makes: its filters in flag order, then paging.
pub open spec fn audit_call(a: AuditList) -> Call {
    let q0 = with_opt(Seq::empty(), "action"@, opt_seq(a.action));
    let q1 = with_opt(q0, "actor_id"@, opt_id(a.actor));
    let q2 = with_opt(q1, "object_id"@, opt_id(a.object));
    let q3 = with_opt(q2, "since"@, opt_time(a.since));
    let q4 = with_opt(q3, "until"@, opt_time(a.until));
    call("GET"@, "/audit"@, paging_query(q4, a.paging), None)
}

fn time_text(t: Option<Timestamp>) -> (r: Option<String>)
    ensures
        opt_seq(r) == opt_time(t),
{
    match t {
        Some(x) => Some(x.to_rfc3339()),
        None => None,
    }
}

/// The call `audit list` makes.
pub fn audit_request(a: &AuditList) -> (r: Request)
    ensures
        crate::ctl::request::request_view(r) == audit_call(*a),
{
    let mut q = no_query();
    push_opt(&mut q, "action", clone_str(&a.action));
    push_opt(&mut q, "actor_id", opt_id_text(a.actor));
    push_opt(&mut q, "object_id", opt_id_text(a.object));
    push_opt(&mut q, "since", time_text(a.since));
    push_opt(&mut q, "until", time_text(a.until));
    request("GET", "/audit".to_owned(), paged(q, &a.paging), None)
}

/// `jobs` subcommands.
#[derive(Debug, Clone)]
pub enum JobsCmd {
    List { state: Option<String>, paging: Paging },
    Get { id: Id },
}

/// The call a jobs command makes.
pub open spec fn jobs_call(cmd: JobsCmd) -> Call {
    match cmd {
        JobsCmd::List { state, paging } => call("GET"@, "/jobs"@, paging_query(
            with_opt(Seq::empty(), "state"@, opt_seq(state)), paging), None),
        JobsCmd::Get { id } => bare("GET"@, "/jobs/"@ + uuid_text(id.value())),
    }
}

/// The call a jobs command makes.
pub fn jobs_request(cmd: &JobsCmd) -> (r: Request)
    ensures
        crate::ctl::request::request_view(r) == jobs_call(*cmd),
{
    match cmd {
        JobsCmd::List { state, paging } => {
            let mut q = no_query();
            push_opt(&mut q, "state", clone_str(state));
            request("GET", "/jobs".to_owned(), paged(q, paging), None)
        },
        JobsCmd::Get { id } => request("GET", id_at("/jobs/", *id), no_query(), None),
    }
}

/// A token as the API gives it.
#[derive(Debug, Clone)]
pub struct TokenRecord {
    pub id: Id,
    pub name: String,
    pub prefix: String,
    pub user_id: Id,
    pub created_at: Timestamp,
    pub expires_at: Option<Timestamp>,
    pub last_used_at: Option<Timestamp>,
}

/// A token's row: id, name, the secret's visible start, user, created,
/// expires, last used.
pub open spec fn token_row_spec(t: TokenRecord) -> Seq<Seq<char>> {
    seq![uuid_text(t.id.value()), t.name@, "mdk_"@ + t.prefix@ + "..."@, uuid_text(t.user_id.value()),
        shown_ts(Some(t.created_at)), shown_ts(t.expires_at), shown_ts(t.last_used_at)]
}

/// A token's row: id, name, the secret's visible start, user, created,
/// expires, last used.
pub fn token_row(t: &TokenRecord) -> (r: Vec<String>)
    ensures
        string_views(r@) == token_row_spec(*t),
{
    let x = concat(chars_of("mdk_").as_slice(), chars_of(t.prefix.as_str()).as_slice());
    let shown = string_from(concat(x.as_slice(), chars_of("...").as_slice()).as_slice());
    let mut v: Vec<String> = Vec::new();
    v.push(t.id.to_text());
    v.push(t.name.clone());
    v.push(shown);
    v.push(t.user_id.to_text());
    v.push(ts_text(Some(t.created_at)));
    v.push(ts_text(t.expires_at));
    v.push(ts_text(t.last_used_at));
    assert(string_views(v@) =~= token_row_spec(*t));
    v
}

/// A job as the API gives it, without its progress.
#[derive(Debug, Clone)]
pub struct JobRecord {
    pub id: Id,
    pub state: JobState,
    pub kind: String,
    pub message: Option<String>,
}

/// A job's state as one lower-case word.
pub open spec fn job_state_word(s: JobState) -> Seq<char> {
    match s {
        JobState::Queued => "queued"@,
        JobState::Running => "running"@,
        JobState::Succeeded => "succeeded"@,
        JobState::Failed => "failed"@,
        JobState::Cancelled => "cancelled"@,
    }
}

/// The key/value lines shown for a job a command started.
pub open spec fn job_pairs_spec(j: JobRecord) -> Seq<(Seq<char>, Seq<char>)> {
    seq![("job"@, uuid_text(j.id.value())), ("state"@, job_state_word(j.state)), ("kind"@, j.kind@),
        ("message"@, shown_opt(opt_seq(j.message)))]
}

/// The key/value lines shown for a job a command started.
pub fn job_pairs(j: &JobRecord) -> (r: Vec<(String, String)>)
    ensures
        field_views(r@) == job_pairs_spec(*j),
{
    let state = match j.state {
        JobState::Queued => "queued",
        JobState::Running => "running",
        JobState::Succeeded => "succeeded",
        JobState::Failed => "failed",
        JobState::Cancelled => "cancelled",
    };
    let mut ps = no_query();
    push_field(&mut ps, "job", j.id.to_text());
    push_field(&mut ps, "state", state.to_owned());
    push_field(&mut ps, "kind", j.kind.clone());
    push_field(&mut ps, "message", opt_str(&j.message));
    assert(field_views(ps@) =~= job_pairs_spec(*j));
    ps
}

/// An audit entry as the API gives it, without the before and after.
#[derive(Debug, Clone)]
pub struct AuditRecord {
    pub id: String,
    pub at: Timestamp,
    pub actor: Actor,
    pub action: String,
    pub object: ObjectRef,
    pub result: AuditResult,
    pub detail: Option<String>,
}

/// How an actor came in, as one lower-case word.
pub open spec fn via_word(v: Via) -> Seq<char> {
    match v {
        Via::Session => "session"@,
        Via::Token => "token"@,
        Via::Socket => "socket"@,
    }
}

/// The object cell: the kind and the name, else the kind and the id, else
/// the kind.
pub open spec fn object_cell(o: ObjectRef) -> Seq<char> {
    match o.name {
        Some(n) => o.kind@ + " "@ + n@,
        None => match o.id {
            Some(i) => o.kind@ + " "@ + uuid_text(i.value()),
            None => o.kind@,
        },
    }
}

/// An audit entry's row: id, time, actor and how it came in, action,
/// object, result, detail.
pub open spec fn audit_row_spec(e: AuditRecord) -> Seq<Seq<char>> {
    seq![e.id@, rfc3339_text(e.at.unix(), e.at.subsec()), e.actor.username@ + " ("@ + via_word(e.actor.via) + ")"@,
        e.action@, object_cell(e.object), audit_result_name(e.result), shown_opt(opt_seq(e.detail))]
}

fn joined3(a: &str, b: &str, c: &str) -> (r: String)
    ensures
        r@ == a@ + b@ + c@,
{
    let x = concat(chars_of(a).as_slice(), chars_of(b).as_slice());
    string_from(concat(x.as_slice(), chars_of(c).as_slice()).as_slice())
}

/// An audit entry's row: id, time, actor and how it came in, action,
/// object, result, detail.
pub fn audit_row(e: &AuditRecord) -> (r: Vec<String>)
    ensures
        string_views(r@) == audit_row_spec(*e),
{
    let via: &str = match e.actor.via {
        Via::Session => "session",
        Via::Token => "token",
        Via::Socket => "socket",
    };
    let who = joined3(e.actor.username.as_str(), " (", via);
    let actor = string_from(concat(chars_of(who.as_str()).as_slice(), chars_of(")").as_slice()).as_slice());
    let object = match &e.object.name {
        Some(n) => joined3(e.object.kind.as_str(), " ", n.as_str()),
        None => match e.object.id {
            Some(i) => joined3(e.object.kind.as_str(), " ", i.to_text().as_str()),
            None => e.object.kind.clone(),
        },
    };
    let mut v: Vec<String> = Vec::new();
    v.push(e.id.clone());
    v.push(e.at.to_rfc3339());
    v.push(actor);
    v.push(e.action.clone());
    v.push(object);
    v.push(e.result.as_str().to_owned());
    v.push(opt_str(&e.detail));
    assert(string_views(v@) =~= audit_row_spec(*e));
    v
}

} // verus!
