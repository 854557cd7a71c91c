//! The calls of the `vms` commands and the rows of their lists.
use vstd::prelude::*;
use crate::common::id::{Id, uuid_text};
use crate::common::shell::string_views;
use crate::common::timestamp::{Timestamp, rfc3339_text};
use crate::common::zone::{ZoneNic, zone_state_name};
use crate::ctl::args::{MetadataArgs, Paging};
use crate::ctl::bodies::{
    VmCreateArgs, VmUpdateArgs, clone_str, size_json, size_text, vm_create_body, vm_create_json,
    vm_update_body, vm_update_json,
};
use crate::ctl::calls::{made, metadata_json, metadata_of};
use crate::ctl::client::Error;
use crate::ctl::json::{field_views, jbool, jobj, jstr, json_bool, json_object, json_str};
use crate::ctl::output::{shown_size, size};
use crate::ctl::request::{
    Call, Request, bare, call, id_at, id_path, no_query, opt_seq, paged, paging_query, push_field, push_opt, request,
    with_opt,
};
use crate::ctl::shown::{VmDiskRecord, VmRecord, bool_text, bool_word, list_text, num_text, on_word, shown_list};
use crate::text::{chars_of, concat, dec, dec_chars, string_from};

verus! {

/// `vms disk` subcommands.
#[derive(Debug, Clone)]
pub enum VmDiskCmd {
    Add { id: Id, size: Option<String>, image: Option<Id> },
    Resize { id: Id, index: u32, size: String },
    Remove { id: Id, index: u32, purge: bool },
}

/// `vms cdrom` subcommands.
#[derive(Debug, Clone)]
pub enum VmCdromCmd {
    Attach { id: Id, image: Id },
    Detach { id: Id, index: u32 },
}

/// `vms snapshot` subcommands.
#[derive(Debug, Clone)]
pub enum VmSnapshotCmd {
    List { id: Id },
    Create { id: Id, name: String, metadata: MetadataArgs },
    Delete { id: Id, name: String },
    Rollback { id: Id, name: String },
}

/// `vms` subcommands.
#[derive(Debug, Clone)]
pub enum VmsCmd {
    List { state: Option<String>, paging: Paging },
    Get { id: Id },
    Create(VmCreateArgs),
    Update(VmUpdateArgs),
    Delete { id: Id, purge: bool },
    Start { id: Id },
    Stop { id: Id, force: bool },
    Restart { id: Id },
    Reset { id: Id },
    Disk(VmDiskCmd),
    Cdrom(VmCdromCmd),
    Snapshot(VmSnapshotCmd),
}

/// A path under a VM.
pub open spec fn vm_at(id: Id, tail: Seq<char>) -> Seq<char> {
    "/vms/"@ + uuid_text(id.value()) + tail
}

/// `?purge=true` when asked, else nothing.
pub open spec fn purge_suffix(purge: bool) -> Seq<char> {
    if purge { "?purge=true"@ } else { Seq::empty() }
}

/// The body of `vms disk add`: the image when there is one, else the size.
pub open spec fn disk_add_body(size: Option<String>, image: Option<Id>) -> Result<Seq<char>, Seq<char>> {
    match image {
        Some(i) => Ok(jobj(seq![("image_id"@, jstr(uuid_text(i.value())))])),
        None => match size {
            None => Err("--size or --image"@),
            Some(s) => match size_json(s@) {
                Err(e) => Err(e),
                Ok(j) => Ok(jobj(seq![("size_bytes"@, j)])),
            },
        },
    }
}

/// The call a `vms disk` command makes.
pub open spec fn disk_call(cmd: VmDiskCmd) -> Result<Call, Seq<char>> {
    match cmd {
        VmDiskCmd::Add { id, size, image } => match disk_add_body(size, image) {
            Err(e) => Err(e),
            Ok(b) => Ok(call("POST"@, vm_at(id, "/disks"@), Seq::empty(), Some(b))),
        },
        VmDiskCmd::Resize { id, index, size } => match size_json(size@) {
            Err(e) => Err(e),
            Ok(j) => Ok(call("PATCH"@, vm_at(id, "/disks/"@ + dec(index as nat)), Seq::empty(),
                Some(jobj(seq![("size_bytes"@, j)])))),
        },
        VmDiskCmd::Remove { id, index, purge } => Ok(bare("DELETE"@, vm_at(id, "/disks/"@ + dec(index as nat))
            + purge_suffix(purge))),
    }
}

/// The call a `vms cdrom` command makes.
pub open spec fn cdrom_call(cmd: VmCdromCmd) -> Call {
    match cmd {
        VmCdromCmd::Attach { id, image } => call("POST"@, vm_at(id, "/cdroms"@), Seq::empty(),
            Some(jobj(seq![("image_id"@, jstr(uuid_text(image.value())))]))),
        VmCdromCmd::Detach { id, index } => bare("DELETE"@, vm_at(id, "/cdroms/"@ + dec(index as nat))),
    }
}

/// The call a `vms snapshot` command makes.
pub open spec fn vm_snapshot_call(cmd: VmSnapshotCmd) -> Call {
    match cmd {
        VmSnapshotCmd::List { id } => bare("GET"@, vm_at(id, "/snapshots"@)),
        VmSnapshotCmd::Create { id, name, metadata } => call("POST"@, vm_at(id, "/snapshots"@), Seq::empty(),
            Some(jobj(with_opt(Seq::empty(), "metadata"@, metadata_json(metadata)).push(("name"@, jstr(name@)))))),
        VmSnapshotCmd::Delete { id, name } => bare("DELETE"@, vm_at(id, "/snapshots/"@ + name@)),
        VmSnapshotCmd::Rollback { id, name } => bare("POST"@, vm_at(id, "/snapshots/"@ + name@ + "/rollback"@)),
    }
}

/// The call a VM command makes.
pub open spec fn vms_call(cmd: VmsCmd) -> Result<Call, Seq<char>> {
    match cmd {
        VmsCmd::List { state, paging } => Ok(call("GET"@, "/vms"@, paging_query(
            with_opt(Seq::empty(), "state"@, opt_seq(state)), paging), None)),
        VmsCmd::Get { id } => Ok(bare("GET"@, vm_at(id, Seq::empty()))),
        VmsCmd::Create(a) => match vm_create_json(a) {
            Err(e) => Err(e),
            Ok(b) => Ok(call("POST"@, "/vms"@, Seq::empty(), Some(b))),
        },
        VmsCmd::Update(a) => match vm_update_json(a) {
            Err(e) => Err(e),
            Ok(b) => Ok(call("PATCH"@, vm_at(a.id, Seq::empty()), Seq::empty(), Some(b))),
        },
        VmsCmd::Delete { id, purge } => Ok(bare("DELETE"@, vm_at(id, Seq::empty()) + purge_suffix(purge))),
        VmsCmd::Start { id } => Ok(bare("POST"@, vm_at(id, "/start"@))),
        VmsCmd::Stop { id, force } => Ok(call("POST"@, vm_at(id, "/stop"@), Seq::empty(),
            Some(jobj(seq![("force"@, jbool(force))])))),
        VmsCmd::Restart { id } => Ok(bare("POST"@, vm_at(id, "/restart"@))),
        VmsCmd::Reset { id } => Ok(bare("POST"@, vm_at(id, "/reset"@))),
        VmsCmd::Disk(d) => disk_call(d),
        VmsCmd::Cdrom(c) => Ok(cdrom_call(c)),
        VmsCmd::Snapshot(s) => Ok(vm_snapshot_call(s)),
    }
}

fn path_of(a: &str, id: Id, b: &str) -> (r: String)
    ensures
        r@ == vm_at(id, b@),
{
    let r = id_path("/vms/", id, b);
    proof {
        reveal_strlit("/vms/");
    }
    r
}

fn vm_path(id: Id) -> (r: String)
    ensures
        r@ == vm_at(id, Seq::empty()),
{
    let r = id_at("/vms/", id);
    assert(r@ =~= vm_at(id, Seq::empty()));
    r
}

fn vm_index_path(id: Id, mid: &str, index: u32) -> (r: String)
    ensures
        r@ == vm_at(id, mid@ + dec(index as nat)),
{
    let p = path_of("/vms/", id, mid);
    let r = string_from(concat(chars_of(p.as_str()).as_slice(), dec_chars(index as u64).as_slice()).as_slice());
    assert(r@ =~= vm_at(id, mid@ + dec(index as nat)));
    r
}

fn vm_text_path(id: Id, mid: &str, t: &str, end: &str) -> (r: String)
    ensures
        r@ == vm_at(id, mid@ + t@ + end@),
{
    let p = path_of("/vms/", id, mid);
    let x = concat(chars_of(p.as_str()).as_slice(), chars_of(t).as_slice());
    let r = string_from(concat(x.as_slice(), chars_of(end).as_slice()).as_slice());
    assert(r@ =~= vm_at(id, mid@ + t@ + end@));
    r
}

fn with_text(p: String, t: &str) -> (r: String)
    ensures
        r@ == p@ + t@,
{
    string_from(concat(chars_of(p.as_str()).as_slice(), chars_of(t).as_slice()).as_slice())
}

fn purged(p: String, purge: bool) -> (r: String)
    ensures
        r@ == p@ + purge_suffix(purge),
{
    if purge {
        with_text(p, "?purge=true")
    } else {
        assert(p@ + Seq::<char>::empty() == p@);
        p
    }
}

fn one_member(k: &str, v: String) -> (r: String)
    ensures
        r@ == jobj(seq![(k@, v@)]),
{
    let mut fs = no_query();
    push_field(&mut fs, k, v);
    assert(field_views(fs@) =~= seq![(k@, v@)]);
    json_object(&fs)
}

/// The call a `vms disk` command makes.
pub fn disk_request(cmd: &VmDiskCmd) -> (r: Result<Request, Error>)
    ensures
        made(r, disk_call(*cmd)),
{
    match cmd {
        VmDiskCmd::Add { id, size, image } => {
            let body = match image {
                Some(i) => one_member("image_id", json_str(i.to_text().as_str())),
                None => match size {
                    None => return Err(Error::Config("--size or --image".to_owned())),
                    Some(s) => match size_text(s.as_str()) {
                        Ok(j) => one_member("size_bytes", j),
                        Err(e) => return Err(e),
                    },
                },
            };
            Ok(request("POST", path_of("/vms/", *id, "/disks"), no_query(), Some(body)))
        },
        VmDiskCmd::Resize { id, index, size } => match size_text(size.as_str()) {
            Ok(j) => Ok(request("PATCH", vm_index_path(*id, "/disks/", *index), no_query(),
                Some(one_member("size_bytes", j)))),
            Err(e) => Err(e),
        },
        VmDiskCmd::Remove { id, index, purge } => Ok(request("DELETE", purged(vm_index_path(*id, "/disks/",
            *index), *purge), no_query(), None)),
    }
}

/// The call a `vms cdrom` command makes.
pub fn cdrom_request(cmd: &VmCdromCmd) -> (r: Request)
    ensures
        crate::ctl::request::request_view(r) == cdrom_call(*cmd),
{
    match cmd {
        VmCdromCmd::Attach { id, image } => request("POST", path_of("/vms/", *id, "/cdroms"), no_query(),
            Some(one_member("image_id", json_str(image.to_text().as_str())))),
        VmCdromCmd::Detach { id, index } => request("DELETE", vm_index_path(*id, "/cdroms/", *index),
            no_query(), None),
    }
}

/// The call a `vms snapshot` command makes.
pub fn vm_snapshot_request(cmd: &VmSnapshotCmd) -> (r: Request)
    ensures
        crate::ctl::request::request_view(r) == vm_snapshot_call(*cmd),
{
    match cmd {
        VmSnapshotCmd::List { id } => request("GET", path_of("/vms/", *id, "/snapshots"), no_query(), None),
        VmSnapshotCmd::Create { id, name, metadata } => {
            let mut fs = no_query();
            push_opt(&mut fs, "metadata", metadata_of(metadata));
            push_field(&mut fs, "name", json_str(name.as_str()));
            request("POST", path_of("/vms/", *id, "/snapshots"), no_query(), Some(json_object(&fs)))
        },
        VmSnapshotCmd::Delete { id, name } => {
            let p = vm_text_path(*id, "/snapshots/", name.as_str(), "");
            proof {
                reveal_strlit("");
                assert("/snapshots/"@ + name@ + ""@ =~= "/snapshots/"@ + name@);
            }
            request("DELETE", p, no_query(), None)
        },
        VmSnapshotCmd::Rollback { id, name } => {
            let p = vm_text_path(*id, "/snapshots/", name.as_str(), "/rollback");
            request("POST", p, no_query(), None)
        },
    }
}

/// The call a VM command makes.
pub fn vms_request(cmd: &VmsCmd) -> (r: Result<Request, Error>)
    ensures
        made(r, vms_call(*cmd)),
{
    match cmd {
        VmsCmd::List { state, paging } => {
            let mut q = no_query();
            push_opt(&mut q, "state", clone_str(state));
            Ok(request("GET", "/vms".to_owned(), paged(q, paging), None))
        },
        VmsCmd::Get { id } => Ok(request("GET", vm_path(*id), no_query(), None)),
        VmsCmd::Create(a) => match vm_create_body(a) {
            Ok(b) => Ok(request("POST", "/vms".to_owned(), no_query(), Some(b))),
            Err(e) => Err(e),
        },
        VmsCmd::Update(a) => match vm_update_body(a) {
            Ok(b) => Ok(request("PATCH", vm_path(a.id), no_query(), Some(b))),
            Err(e) => Err(e),
        },
        VmsCmd::Delete { id, purge } => Ok(request("DELETE", purged(vm_path(*id), *purge), no_query(),
            None)),
        VmsCmd::Start { id } => Ok(request("POST", path_of("/vms/", *id, "/start"), no_query(), None)),
        VmsCmd::Stop { id, force } => Ok(request("POST", path_of("/vms/", *id, "/stop"), no_query(),
            Some(one_member("force", json_bool(*force).to_owned())))),
        VmsCmd::Restart { id } => Ok(request("POST", path_of("/vms/", *id, "/restart"), no_query(), None)),
        VmsCmd::Reset { id } => Ok(request("POST", path_of("/vms/", *id, "/reset"), no_query(), None)),
        VmsCmd::Disk(d) => disk_request(d),
        VmsCmd::Cdrom(c) => Ok(cdrom_request(c)),
        VmsCmd::Snapshot(s) => Ok(vm_snapshot_request(s)),
    }
}

/// The disk sizes a VM's row lists.
pub open spec fn disk_sizes(v: VmRecord) -> Seq<Seq<char>> {
    v.disks@.map_values(|d: VmDiskRecord| shown_size(d.size_bytes as nat))
}

/// The NICs a VM's row lists, each as `name@over`.
pub open spec fn nic_links(v: VmRecord) -> Seq<Seq<char>> {
    v.nics@.map_values(|n: ZoneNic| n.name@ + "@"@ + n.over@)
}

/// A VM's row: id, name, state, vcpus, memory, disks, NICs, VNC, autoboot.
pub open spec fn vm_row_spec(v: VmRecord) -> Seq<Seq<char>> {
    seq![uuid_text(v.id.value()), v.name@, zone_state_name(v.state), dec(v.vcpus as nat),
        shown_size(v.memory_bytes as nat), shown_list(disk_sizes(v), ","@), shown_list(nic_links(v), ","@),
        on_word(v.vnc), bool_word(v.autoboot)]
}

/// A VM's row: id, name, state, vcpus, memory, disks, NICs, VNC, autoboot.
pub fn vm_row(v: &VmRecord) -> (r: Vec<String>)
    ensures
        string_views(r@) == vm_row_spec(*v),
{
    let mut sizes: Vec<String> = Vec::new();
    let mut i: usize = 0;
    while i < v.disks.len()
        invariant
            0 <= i <= v.disks@.len(),
            string_views(sizes@) == disk_sizes(*v).take(i as int),
        decreases v.disks@.len() - i,
    {
        let ghost before = string_views(sizes@);
        sizes.push(size(v.disks[i].size_bytes));
        assert(string_views(sizes@) =~= before.push(disk_sizes(*v)[i as int]));
        assert(disk_sizes(*v).take(i + 1) =~= disk_sizes(*v).take(i as int).push(disk_sizes(*v)[i as int]));
        i = i + 1;
    }
    assert(disk_sizes(*v).take(v.disks@.len() as int) =~= disk_sizes(*v));
    let mut links: Vec<String> = Vec::new();
    let mut j: usize = 0;
    while j < v.nics.len()
        invariant
            0 <= j <= v.nics@.len(),
            string_views(links@) == nic_links(*v).take(j as int),
        decreases v.nics@.len() - j,
    {
        let n = &v.nics[j];
        let x = concat(chars_of(n.name.as_str()).as_slice(), chars_of("@").as_slice());
        let t = string_from(concat(x.as_slice(), chars_of(n.over.as_str()).as_slice()).as_slice());
        let ghost before = string_views(links@);
        links.push(t);
        assert(string_views(links@) =~= before.push(nic_links(*v)[j as int]));
        assert(nic_links(*v).take(j + 1) =~= nic_links(*v).take(j as int).push(nic_links(*v)[j as int]));
        j = j + 1;
    }
    assert(nic_links(*v).take(v.nics@.len() as int) =~= nic_links(*v));
    let mut r: Vec<String> = Vec::new();
    r.push(v.id.to_text());
    r.push(v.name.clone());
    r.push(v.state.as_str().to_owned());
    r.push(num_text(v.vcpus as u64));
    r.push(size(v.memory_bytes));
    r.push(list_text(&sizes, ","));
    r.push(list_text(&links, ","));
    r.push(if v.vnc { "on".to_owned() } else { "off".to_owned() });
    r.push(bool_text(v.autoboot));
    assert(string_views(r@) =~= vm_row_spec(*v));
    r
}

/// A VM snapshot as the API gives it.
#[derive(Debug, Clone)]
pub struct VmSnapshotRecord {
    pub name: String,
    pub created_at: Timestamp,
    pub used_bytes: u64,
    pub id: Id,
}

/// A VM snapshot's row: name, created, used, id.
pub open spec fn vm_snapshot_row_spec(s: VmSnapshotRecord) -> Seq<Seq<char>> {
    seq![s.name@, rfc3339_text(s.created_at.unix(), s.created_at.subsec()), shown_size(s.used_bytes as nat),
        uuid_text(s.id.value())]
}

/// A VM snapshot's row: name, created, used, id.
pub fn vm_snapshot_row(s: &VmSnapshotRecord) -> (r: Vec<String>)
    ensures
        string_views(r@) == vm_snapshot_row_spec(*s),
{
    let mut v: Vec<String> = Vec::new();
    v.push(s.name.clone());
    v.push(s.created_at.to_rfc3339());
    v.push(size(s.used_bytes));
    v.push(s.id.to_text());
    assert(string_views(v@) =~= vm_snapshot_row_spec(*s));
    v
}

} // verus!
