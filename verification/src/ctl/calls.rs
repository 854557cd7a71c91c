//! Which API call each command makes: method, path, query, and JSON body,
//! or why the flags do not make one.
use vstd::prelude::*;
use crate::common::id::{Id, uuid_text};
use crate::common::role::{Role, role_name};
use crate::ctl::args::{MetadataArgs, Paging};
use crate::ctl::client::Error;
use crate::ctl::flags::{PasswordArgs, password_from};
use crate::ctl::json::{
    field_views, jbool, jobj, jopt, jstr, jstrs, json_bool, json_object, json_opt, json_str, json_strings,
};
use crate::ctl::request::{
    Call, Request, bare, call, count, id_at, id_path, no_query, opt_id, opt_id_text, opt_seq, paged, paging_query, push_field, push_opt,
    request, request_view, with_opt,
};

verus! {

/// The JSON members of metadata flags, in name order.
pub open spec fn metadata_fields(m: MetadataArgs) -> Seq<(Seq<char>, Seq<char>)> {
    let f0 = with_opt(Seq::empty(), "description"@, match m.description {
        Some(d) => Some(jstr(d@)),
        None => None,
    });
    let f1 = with_opt(f0, "display_name"@, match m.display_name {
        Some(d) => Some(jstr(d@)),
        None => None,
    });
    let f2 = with_opt(f1, "notes"@, match m.notes {
        Some(d) => Some(jstr(d@)),
        None => None,
    });
    with_opt(f2, "tags"@, if m.tags@.len() > 0 {
        Some(jstrs(crate::common::shell::string_views(m.tags@)))
    } else {
        None
    })
}

/// The metadata object the flags give, if they give any.
pub open spec fn metadata_json(m: MetadataArgs) -> Option<Seq<char>> {
    if metadata_fields(m).len() == 0 {
        None
    } else {
        Some(jobj(metadata_fields(m)))
    }
}

/// The metadata object of the flags: none when no flag is given.
pub fn metadata_of(m: &MetadataArgs) -> (r: Option<String>)
    ensures
        opt_seq(r) == metadata_json(*m),
        r is None <==> (m.display_name is None && m.description is None && m.tags@.len() == 0 && m.notes is None),
{
    let mut fs: Vec<(String, String)> = no_query();
    push_opt(&mut fs, "description", match &m.description {
        Some(d) => Some(json_str(d.as_str())),
        None => None,
    });
    push_opt(&mut fs, "display_name", match &m.display_name {
        Some(d) => Some(json_str(d.as_str())),
        None => None,
    });
    push_opt(&mut fs, "notes", match &m.notes {
        Some(d) => Some(json_str(d.as_str())),
        None => None,
    });
    push_opt(&mut fs, "tags", if m.tags.len() > 0 {
        Some(json_strings(&m.tags))
    } else {
        None
    });
    if count(&fs) == 0 {
        None
    } else {
        Some(json_object(&fs))
    }
}

/// Why a call cannot be made, or the call.
pub open spec fn made(r: Result<Request, Error>, c: Result<Call, Seq<char>>) -> bool {
    match c {
        Ok(x) => r matches Ok(q) && request_view(q) == x,
        Err(m) => r matches Err(e) && (e matches Error::Config(t) && t@ == m),
    }
}

/// `images sources` subcommands.
#[derive(Debug, Clone)]
pub enum SourcesCmd {
    /// List sources.
    List,
    /// Show one source.
    Get { id: Id },
    /// Add a source.
    Add { name: String, url: String, public_key: Option<String>, disabled: bool },
    /// Change a source.
    Update {
        id: Id,
        name: Option<String>,
        url: Option<String>,
        public_key: Option<String>,
        no_key: bool,
        enable: bool,
        disable: bool,
    },
    /// Remove a source.
    Remove { id: Id },
    /// Refetch a source's index.
    Refresh { id: Id },
}

/// A string member's value, if there is one.
pub open spec fn str_opt(o: Option<String>) -> Option<Seq<char>> {
    match o {
        Some(s) => Some(jstr(s@)),
        None => None,
    }
}

/// The members a source update sends, in name order.
pub open spec fn source_update_fields(
    name: Option<String>,
    url: Option<String>,
    public_key: Option<String>,
    no_key: bool,
    enable: bool,
    disable: bool,
) -> Seq<(Seq<char>, Seq<char>)> {
    let f0 = with_opt(Seq::empty(), "enabled"@, if enable || disable { Some(jbool(enable)) } else { None });
    let f1 = with_opt(f0, "name"@, str_opt(name));
    let f2 = with_opt(f1, "public_key"@, match public_key {
        Some(k) => Some(jstr(k@)),
        None => if no_key { Some("null"@) } else { None },
    });
    with_opt(f2, "url"@, str_opt(url))
}

/// The call a sources command makes.
pub open spec fn sources_call(cmd: SourcesCmd) -> Result<Call, Seq<char>> {
    match cmd {
        SourcesCmd::List => Ok(bare("GET"@, "/images/sources"@)),
        SourcesCmd::Get { id } => Ok(bare("GET"@, "/images/sources/"@ + uuid_text(id.value()))),
        SourcesCmd::Add { name, url, public_key, disabled } => Ok(call("POST"@, "/images/sources"@, Seq::empty(),
            Some(jobj(seq![
                ("enabled"@, jbool(!disabled)),
                ("name"@, jstr(name@)),
                ("public_key"@, jopt(opt_seq(public_key))),
                ("url"@, jstr(url@)),
            ])))),
        SourcesCmd::Update { id, name, url, public_key, no_key, enable, disable } => {
            let f = source_update_fields(name, url, public_key, no_key, enable, disable);
            if f.len() == 0 {
                Err("nothing to update"@)
            } else {
                Ok(call("PATCH"@, "/images/sources/"@ + uuid_text(id.value()), Seq::empty(), Some(jobj(f))))
            }
        },
        SourcesCmd::Remove { id } => Ok(bare("DELETE"@, "/images/sources/"@ + uuid_text(id.value()))),
        SourcesCmd::Refresh { id } => Ok(bare("POST"@, "/images/sources/"@ + uuid_text(id.value()) + "/refresh"@)),
    }
}

fn str_json(o: &Option<String>) -> (r: Option<String>)
    ensures
        opt_seq(r) == str_opt(*o),
{
    match o {
        Some(s) => Some(json_str(s.as_str())),
        None => None,
    }
}

fn nothing_to_update() -> (e: Error)
    ensures
        e matches Error::Config(t) && t@ == "nothing to update"@,
{
    Error::Config("nothing to update".to_owned())
}

/// The call a sources command makes.
pub fn sources_request(cmd: &SourcesCmd) -> (r: Result<Request, Error>)
    ensures
        made(r, sources_call(*cmd)),
{
    match cmd {
        SourcesCmd::List => {
            let r = request("GET", "/images/sources".to_owned(), no_query(), None);

            Ok(r)
        },
        SourcesCmd::Get { id } => Ok(request("GET", id_at("/images/sources/", *id), no_query(), None)),
        SourcesCmd::Add { name, url, public_key, disabled } => {
            let mut fs: Vec<(String, String)> = no_query();
            push_field(&mut fs, "enabled", json_bool(!*disabled).to_owned());
            push_field(&mut fs, "name", json_str(name.as_str()));
            push_field(&mut fs, "public_key", json_opt(public_key));
            push_field(&mut fs, "url", json_str(url.as_str()));
            assert(field_views(fs@) =~= seq![
                ("enabled"@, jbool(!*disabled)),
                ("name"@, jstr(name@)),
                ("public_key"@, jopt(opt_seq(*public_key))),
                ("url"@, jstr(url@)),
            ]);
            Ok(request("POST", "/images/sources".to_owned(), no_query(), Some(json_object(&fs))))
        },
        SourcesCmd::Update { id, name, url, public_key, no_key, enable, disable } => {
            let mut fs: Vec<(String, String)> = no_query();
            push_opt(&mut fs, "enabled", if *enable || *disable { Some(json_bool(*enable).to_owned()) } else { None });
            push_opt(&mut fs, "name", str_json(name));
            push_opt(&mut fs, "public_key", match public_key {
                Some(k) => Some(json_str(k.as_str())),
                None => if *no_key { Some("null".to_owned()) } else { None },
            });
            push_opt(&mut fs, "url", str_json(url));
            if count(&fs) == 0 {
                return Err(nothing_to_update());
            }
            Ok(request("PATCH", id_at("/images/sources/", *id), no_query(), Some(json_object(&fs))))
        },
        SourcesCmd::Remove { id } => Ok(request("DELETE", id_at("/images/sources/", *id), no_query(), None)),
        SourcesCmd::Refresh { id } => Ok(request("POST", id_path("/images/sources/", *id, "/refresh"), no_query(), None)),
    }
}

/// `users` subcommands.
#[derive(Debug, Clone)]
pub enum UsersCmd {
    /// List users.
    List { paging: Paging },
    /// Show one user.
    Get { id: Id },
    /// Create a user.
    Create { username: String, role: Role, display_name: Option<String>, password: PasswordArgs },
    /// Change a user's role, display name, or whether it is disabled.
    Update { id: Id, role: Option<Role>, display_name: Option<String>, disable: bool, enable: bool },
    /// Delete a user.
    Delete { id: Id },
    /// Change a password; the current one is asked of users changing
    /// their own.
    Passwd { id: Id, password: PasswordArgs, current: Option<String>, current_stdin: bool },
}

/// The password the flags give: the flag, else the first stdin line when
/// asked to read stdin.
pub open spec fn password_choice(p: PasswordArgs, lines: Seq<String>) -> Result<Seq<char>, Seq<char>> {
    match p.password {
        Some(x) => Ok(x@),
        None => if p.password_stdin {
            if lines.len() > 0 {
                Ok(lines[0]@)
            } else {
                Err("no password on stdin"@)
            }
        } else {
            Err("give the password with --password, MANDRAKE_PASSWORD, or --password-stdin"@)
        },
    }
}

/// The members a user update sends, in name order.
pub open spec fn user_update_fields(role: Option<Role>, display_name: Option<String>, disable: bool, enable: bool)
    -> Seq<(Seq<char>, Seq<char>)> {
    let f0 = with_opt(Seq::empty(), "disabled"@, if disable || enable { Some(jbool(disable)) } else { None });
    let f1 = with_opt(f0, "display_name"@, str_opt(display_name));
    with_opt(f1, "role"@, match role {
        Some(r) => Some(jstr(role_name(r))),
        None => None,
    })
}

/// The call a users command makes; `stdin_lines` are what was read for
/// `--password-stdin`.
pub open spec fn users_call(cmd: UsersCmd, stdin_lines: Seq<String>) -> Result<Call, Seq<char>> {
    match cmd {
        UsersCmd::List { paging } => Ok(call("GET"@, "/users"@, paging_query(Seq::empty(), paging), None)),
        UsersCmd::Get { id } => Ok(bare("GET"@, "/users/"@ + uuid_text(id.value()))),
        UsersCmd::Create { username, role, display_name, password } => match password_choice(password, stdin_lines) {
            Err(m) => Err(m),
            Ok(p) => Ok(call("POST"@, "/users"@, Seq::empty(), Some(jobj(seq![
                ("display_name"@, jopt(opt_seq(display_name))),
                ("password"@, jstr(p)),
                ("role"@, jstr(role_name(role))),
                ("username"@, jstr(username@)),
            ])))),
        },
        UsersCmd::Update { id, role, display_name, disable, enable } => {
            let f = user_update_fields(role, display_name, disable, enable);
            if f.len() == 0 {
                Err("nothing to update"@)
            } else {
                Ok(call("PATCH"@, "/users/"@ + uuid_text(id.value()), Seq::empty(), Some(jobj(f))))
            }
        },
        UsersCmd::Delete { id } => Ok(bare("DELETE"@, "/users/"@ + uuid_text(id.value()))),
        UsersCmd::Passwd { id, password, current, current_stdin } => match password_choice(password, stdin_lines) {
            Err(m) => Err(m),
            Ok(p) => match current_choice(password, current, current_stdin, stdin_lines) {
                Err(m) => Err(m),
                Ok(c) => Ok(call("PUT"@, "/users/"@ + uuid_text(id.value()) + "/password"@, Seq::empty(), Some(jobj(seq![
                    ("current_password"@, jopt(c)),
                    ("new_password"@, jstr(p)),
                ])))),
            },
        },
    }
}

/// The stdin lines a users command reads: one for each password asked of
/// stdin.
pub open spec fn stdin_lines_wanted(cmd: UsersCmd) -> nat {
    match cmd {
        UsersCmd::Create { password, .. } => if password.password_stdin { 1 } else { 0 },
        UsersCmd::Passwd { password, current_stdin, .. } => (if password.password_stdin { 1nat } else { 0nat })
            + (if current_stdin { 1nat } else { 0nat }),
        _ => 0,
    }
}

/// The stdin lines a users command reads: one for each password asked of
/// stdin.
pub fn stdin_wanted(cmd: &UsersCmd) -> (r: usize)
    ensures
        r == stdin_lines_wanted(*cmd),
{
    match cmd {
        UsersCmd::Create { password, .. } => if password.password_stdin { 1 } else { 0 },
        UsersCmd::Passwd { password, current_stdin, .. } => {
            let a: usize = if password.password_stdin { 1 } else { 0 };
            let b: usize = if *current_stdin { 1 } else { 0 };
            a + b
        },
        _ => 0,
    }
}

/// The current password: the line after the new one on stdin when asked,
/// else the flag.
pub open spec fn current_choice(password: PasswordArgs, current: Option<String>, current_stdin: bool,
    lines: Seq<String>) -> Result<Option<Seq<char>>, Seq<char>> {
    if current_stdin {
        let k: int = if password.password_stdin { 1 } else { 0 };
        if k < lines.len() {
            Ok(Some(lines[k]@))
        } else {
            Err("no current password on stdin"@)
        }
    } else {
        Ok(opt_seq(current))
    }
}

fn current_from(password: &PasswordArgs, current: &Option<String>, current_stdin: bool, lines: &[String])
    -> (r: Result<Option<String>, Error>)
    ensures
        current_choice(*password, *current, current_stdin, lines@) matches Ok(c) ==> (r matches Ok(x)
            && opt_seq(x) == c),
        current_choice(*password, *current, current_stdin, lines@) matches Err(m) ==> (r matches Err(e)
            && (e matches Error::Config(t) && t@ == m)),
{
    if current_stdin {
        let k: usize = if password.password_stdin { 1 } else { 0 };
        if k < lines.len() {
            Ok(Some(lines[k].clone()))
        } else {
            Err(Error::Config("no current password on stdin".to_owned()))
        }
    } else {
        match current {
            Some(c) => Ok(Some(c.clone())),
            None => Ok(None),
        }
    }
}

/// The call a users command makes; `stdin_lines` are what was read for
/// `--password-stdin`.
pub fn users_request(cmd: &UsersCmd, stdin_lines: &[String]) -> (r: Result<Request, Error>)
    ensures
        made(r, users_call(*cmd, stdin_lines@)),
{
    match cmd {
        UsersCmd::List { paging } => Ok(request("GET", "/users".to_owned(), paged(no_query(), paging), None)),
        UsersCmd::Get { id } => Ok(request("GET", id_at("/users/", *id), no_query(), None)),
        UsersCmd::Create { username, role, display_name, password } => {
            let p = match password_from(password, stdin_lines) {
                Ok(p) => p,
                Err(e) => return Err(e),
            };
            let mut fs: Vec<(String, String)> = no_query();
            push_field(&mut fs, "display_name", json_opt(display_name));
            push_field(&mut fs, "password", json_str(p.as_str()));
            push_field(&mut fs, "role", json_str(role.as_str()));
            push_field(&mut fs, "username", json_str(username.as_str()));
            assert(field_views(fs@) =~= seq![
                ("display_name"@, jopt(opt_seq(*display_name))),
                ("password"@, jstr(p@)),
                ("role"@, jstr(role_name(*role))),
                ("username"@, jstr(username@)),
            ]);
            Ok(request("POST", "/users".to_owned(), no_query(), Some(json_object(&fs))))
        },
        UsersCmd::Update { id, role, display_name, disable, enable } => {
            let mut fs: Vec<(String, String)> = no_query();
            push_opt(&mut fs, "disabled", if *disable || *enable { Some(json_bool(*disable).to_owned()) } else { None });
            push_opt(&mut fs, "display_name", str_json(display_name));
            push_opt(&mut fs, "role", match role {
                Some(r) => Some(json_str(r.as_str())),
                None => None,
            });
            if count(&fs) == 0 {
                return Err(nothing_to_update());
            }
            Ok(request("PATCH", id_at("/users/", *id), no_query(), Some(json_object(&fs))))
        },
        UsersCmd::Delete { id } => Ok(request("DELETE", id_at("/users/", *id), no_query(), None)),
        UsersCmd::Passwd { id, password, current, current_stdin } => {
            let p = match password_from(password, stdin_lines) {
                Ok(p) => p,
                Err(e) => return Err(e),
            };
            let c = match current_from(password, current, *current_stdin, stdin_lines) {
                Ok(c) => c,
                Err(e) => return Err(e),
            };
            let mut fs: Vec<(String, String)> = no_query();
            push_field(&mut fs, "current_password", json_opt(&c));
            push_field(&mut fs, "new_password", json_str(p.as_str()));
            assert(field_views(fs@) =~= seq![
                ("current_password"@, jopt(opt_seq(c))),
                ("new_password"@, jstr(p@)),
            ]);
            Ok(request("PUT", id_path("/users/", *id, "/password"), no_query(), Some(json_object(&fs))))
        },
    }
}

/// `images` subcommands.
#[derive(Debug, Clone)]
pub enum ImagesCmd {
    /// List images.
    List { type_: Option<String>, state: Option<String>, paging: Paging },
    /// Show one image.
    Get { id: Id },
    /// What the sources offer.
    Available { source: Option<Id>, type_: Option<String> },
    /// Import from a source or a URL.
    Import {
        name: String,
        version: String,
        source: Option<Id>,
        url: Option<String>,
        sha256: Option<String>,
        type_: Option<String>,
        pool: Option<String>,
        metadata: MetadataArgs,
    },
    /// Change an image's metadata.
    Update { id: Id, metadata: MetadataArgs },
    /// Delete an image.
    Delete { id: Id },
    /// Image sources.
    Sources(SourcesCmd),
}

/// `(k, v)` pairs for the filters that are given.
pub open spec fn filters(a: (Seq<char>, Option<Seq<char>>), b: (Seq<char>, Option<Seq<char>>))
    -> Seq<(Seq<char>, Seq<char>)> {
    with_opt(with_opt(Seq::empty(), a.0, a.1), b.0, b.1)
}

/// The call an images command makes.
pub open spec fn images_call(cmd: ImagesCmd) -> Result<Call, Seq<char>> {
    match cmd {
        ImagesCmd::List { type_, state, paging } => Ok(call("GET"@, "/images"@, paging_query(
            filters(("type"@, opt_seq(type_)), ("state"@, opt_seq(state))), paging), None)),
        ImagesCmd::Get { id } => Ok(bare("GET"@, "/images/"@ + uuid_text(id.value()))),
        ImagesCmd::Available { source, type_ } => Ok(call("GET"@, "/images/available"@,
            filters(("source_id"@, opt_id(source)), ("type"@, opt_seq(type_))), None)),
        ImagesCmd::Import { name, version, source, url, sha256, type_, pool, metadata } => {
            if source is None && url is None {
                Err("give --source, or --url with --sha256 and --type"@)
            } else {
                Ok(call("POST"@, "/images/import"@, Seq::empty(), Some(jobj(seq![
                    ("metadata"@, match metadata_json(metadata) {
                        Some(m) => m,
                        None => "null"@,
                    }),
                    ("name"@, jstr(name@)),
                    ("pool"@, jopt(opt_seq(pool))),
                    ("sha256"@, jopt(opt_seq(sha256))),
                    ("source_id"@, jopt(opt_id(source))),
                    ("type"@, jopt(opt_seq(type_))),
                    ("url"@, jopt(opt_seq(url))),
                    ("version"@, jstr(version@)),
                ]))))
            }
        },
        ImagesCmd::Update { id, metadata } => match metadata_json(metadata) {
            None => Err("nothing to update"@),
            Some(m) => Ok(call("PATCH"@, "/images/"@ + uuid_text(id.value()), Seq::empty(), Some(m))),
        },
        ImagesCmd::Delete { id } => Ok(bare("DELETE"@, "/images/"@ + uuid_text(id.value()))),
        ImagesCmd::Sources(c) => sources_call(c),
    }
}

fn clone_opt(o: &Option<String>) -> (r: Option<String>)
    ensures
        opt_seq(r) == opt_seq(*o),
{
    match o {
        Some(s) => Some(s.clone()),
        None => None,
    }
}

fn two_filters(a: &str, av: Option<String>, b: &str, bv: Option<String>) -> (r: Vec<(String, String)>)
    ensures
        field_views(r@) == filters((a@, opt_seq(av)), (b@, opt_seq(bv))),
{
    let mut q = no_query();
    push_opt(&mut q, a, av);
    push_opt(&mut q, b, bv);
    q
}

/// The call an images command makes.
pub fn images_request(cmd: &ImagesCmd) -> (r: Result<Request, Error>)
    ensures
        made(r, images_call(*cmd)),
{
    match cmd {
        ImagesCmd::List { type_, state, paging } => {
            let q = two_filters("type", clone_opt(type_), "state", clone_opt(state));
            let r = Ok(request("GET", "/images".to_owned(), paged(q, paging), None)); r
        },
        ImagesCmd::Get { id } => Ok(request("GET", id_at("/images/", *id), no_query(), None)),
        ImagesCmd::Available { source, type_ } => {
            let q = two_filters("source_id", opt_id_text(*source), "type", clone_opt(type_));
            let r = Ok(request("GET", "/images/available".to_owned(), q, None)); r
        },
        ImagesCmd::Import { name, version, source, url, sha256, type_, pool, metadata } => {
            if source.is_none() && url.is_none() {
                return Err(Error::Config("give --source, or --url with --sha256 and --type".to_owned()));
            }
            let mut fs: Vec<(String, String)> = no_query();
            push_field(&mut fs, "metadata", match metadata_of(metadata) {
                Some(m) => m,
                None => "null".to_owned(),
            });
            push_field(&mut fs, "name", json_str(name.as_str()));
            push_field(&mut fs, "pool", json_opt(pool));
            push_field(&mut fs, "sha256", json_opt(sha256));
            push_field(&mut fs, "source_id", json_opt(&opt_id_text(*source)));
            push_field(&mut fs, "type", json_opt(type_));
            push_field(&mut fs, "url", json_opt(url));
            push_field(&mut fs, "version", json_str(version.as_str()));
            assert(field_views(fs@) =~= seq![
                ("metadata"@, match metadata_json(*metadata) {
                    Some(m) => m,
                    None => "null"@,
                }),
                ("name"@, jstr(name@)),
                ("pool"@, jopt(opt_seq(*pool))),
                ("sha256"@, jopt(opt_seq(*sha256))),
                ("source_id"@, jopt(opt_id(*source))),
                ("type"@, jopt(opt_seq(*type_))),
                ("url"@, jopt(opt_seq(*url))),
                ("version"@, jstr(version@)),
            ]);
            let r = Ok(request("POST", "/images/import".to_owned(), no_query(), Some(json_object(&fs)))); r
        },
        ImagesCmd::Update { id, metadata } => match metadata_of(metadata) {
            None => Err(nothing_to_update()),
            Some(m) => Ok(request("PATCH", id_at("/images/", *id), no_query(), Some(m))),
        },
        ImagesCmd::Delete { id } => Ok(request("DELETE", id_at("/images/", *id), no_query(), None)),
        ImagesCmd::Sources(c) => sources_request(c),
    }
}

} // verus!
