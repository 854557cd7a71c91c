//! The calls of the `storage pools` and `storage snapshots` commands.
use vstd::prelude::*;
use crate::common::id::{Id, uuid_text};
use crate::common::shell::string_views;
use crate::ctl::args::{MetadataArgs, Paging};
use crate::ctl::calls::{filters, made, metadata_json, metadata_of};
use crate::ctl::client::Error;
use crate::ctl::flags::{VdevArg, parse_vdev, string_seq, vdev_spec};
use crate::ctl::json::{
    field_views, jarr, jbool, jobj, jopt, jstr, jstrs, json_array, json_bool, json_num, json_object, json_opt,
    json_str, json_strings,
};
use crate::ctl::request::{
    Call, Request, bare, call, id_at, id_path, no_query, opt_seq, paged, paging_query, push_field, push_opt, request,
};
use crate::text::dec;

verus! {

/// A vdev as the pool API takes it.
pub open spec fn vdev_json(v: (Seq<char>, Seq<Seq<char>>)) -> Seq<char> {
    jobj(seq![("devices"@, jstrs(v.1)), ("type"@, jstr(v.0))])
}

/// The vdevs of `--vdev` flags as JSON items, or the first one's error.
pub open spec fn vdev_items(texts: Seq<Seq<char>>) -> Result<Seq<Seq<char>>, Seq<char>>
    decreases texts.len(),
{
    if texts.len() == 0 {
        Ok(Seq::empty())
    } else {
        match vdev_items(texts.drop_last()) {
            Err(e) => Err(e),
            Ok(xs) => match vdev_spec(texts.last()) {
                Err(e) => Err(e),
                Ok(v) => Ok(xs.push(vdev_json(v))),
            },
        }
    }
}

proof fn lemma_vdevs_err_stays(s: Seq<Seq<char>>, k: int)
    requires
        0 <= k <= s.len(),
        vdev_items(s.take(k)) is Err,
    ensures
        vdev_items(s) == vdev_items(s.take(k)),
    decreases s.len() - k,
{
    if k < s.len() {
        assert(s.take(k + 1).drop_last() == s.take(k));
        lemma_vdevs_err_stays(s, k + 1);
    } else {
        assert(s.take(k) == s);
    }
}

fn vdev_text(v: &VdevArg) -> (r: String)
    ensures
        r@ == vdev_json((v.type_@, string_seq(v.devices@))),
{
    let mut fs = no_query();
    push_field(&mut fs, "devices", json_strings(&v.devices));
    push_field(&mut fs, "type", json_str(v.type_.as_str()));
    assert(string_seq(v.devices@) == string_views(v.devices@)) by {
        assert(string_seq(v.devices@) =~= string_views(v.devices@));
    }
    assert(field_views(fs@) =~= seq![("devices"@, jstrs(string_seq(v.devices@))), ("type"@, jstr(v.type_@))]);
    json_object(&fs)
}

/// The vdevs of `--vdev` flags as a JSON array, or the first one's error.
pub fn vdevs_text(texts: &Vec<String>) -> (r: Result<String, Error>)
    ensures
        vdev_items(string_views(texts@)) matches Ok(xs) ==> (r matches Ok(t) && t@ == jarr(xs)),
        vdev_items(string_views(texts@)) matches Err(m) ==> (r matches Err(e)
            && (e matches Error::Config(t) && t@ == m)),
{
    let ghost sv = string_views(texts@);
    let mut items: Vec<String> = Vec::new();
    let mut i: usize = 0;
    assert(string_views(items@) =~= Seq::<Seq<char>>::empty());
    assert(sv.take(0).len() == 0);
    while i < texts.len()
        invariant
            0 <= i <= texts@.len(),
            sv == string_views(texts@),
            vdev_items(sv.take(i as int)) == Ok::<Seq<Seq<char>>, Seq<char>>(string_views(items@)),
        decreases texts@.len() - i,
    {
        assert(sv.take(i + 1).drop_last() == sv.take(i as int));
        assert(sv.take(i + 1).last() == texts@[i as int]@);
        match parse_vdev(texts[i].as_str()) {
            Ok(v) => {
                let ghost before = string_views(items@);
                let t = vdev_text(&v);
                items.push(t);
                assert(string_views(items@) =~= before.push(vdev_json((v.type_@, string_seq(v.devices@)))));
            },
            Err(e) => {
                proof {
                    lemma_vdevs_err_stays(sv, i as int + 1);
                }
                return Err(e);
            },
        }
        i = i + 1;
    }
    assert(sv.take(texts@.len() as int) == sv);
    Ok(json_array(&items))
}

/// `storage pools` subcommands.
#[derive(Debug, Clone)]
pub enum PoolsCmd {
    List { paging: Paging },
    Get { id: Id },
    Create {
        name: String,
        vdevs: Vec<String>,
        ashift: Option<u32>,
        compression: Option<String>,
        force: bool,
        metadata: MetadataArgs,
    },
    Update { id: Id, metadata: MetadataArgs },
    Destroy { id: Id, name: String },
    Scrub { id: Id, stop: bool },
}

/// Metadata as a member value: `null` without any.
pub open spec fn metadata_or_null(m: MetadataArgs) -> Seq<char> {
    match metadata_json(m) {
        Some(j) => j,
        None => "null"@,
    }
}

/// The call a pools command makes.
pub open spec fn pools_call(cmd: PoolsCmd) -> Result<Call, Seq<char>> {
    match cmd {
        PoolsCmd::List { paging } => Ok(call("GET"@, "/storage/pools"@, paging_query(Seq::empty(), paging), None)),
        PoolsCmd::Get { id } => Ok(bare("GET"@, "/storage/pools/"@ + uuid_text(id.value()))),
        PoolsCmd::Create { name, vdevs, ashift, compression, force, metadata } => match vdev_items(
            string_views(vdevs@),
        ) {
            Err(e) => Err(e),
            Ok(xs) => Ok(call("POST"@, "/storage/pools"@, Seq::empty(), Some(jobj(seq![
                ("ashift"@, match ashift { Some(a) => dec(a as nat), None => "null"@ }),
                ("compression"@, jopt(opt_seq(compression))),
                ("force"@, jbool(force)),
                ("metadata"@, metadata_or_null(metadata)),
                ("name"@, jstr(name@)),
                ("vdevs"@, jarr(xs)),
            ])))),
        },
        PoolsCmd::Update { id, metadata } => match metadata_json(metadata) {
            None => Err("nothing to update"@),
            Some(m) => Ok(call("PATCH"@, "/storage/pools/"@ + uuid_text(id.value()), Seq::empty(), Some(m))),
        },
        PoolsCmd::Destroy { id, name } => Ok(call("DELETE"@, "/storage/pools/"@ + uuid_text(id.value()),
            Seq::empty(), Some(jobj(seq![("name"@, jstr(name@))])))),
        PoolsCmd::Scrub { id, stop } => Ok(bare(if stop { "DELETE"@ } else { "POST"@ },
            "/storage/pools/"@ + uuid_text(id.value()) + "/scrub"@)),
    }
}

pub(crate) fn metadata_member(m: &MetadataArgs) -> (r: String)
    ensures
        r@ == metadata_or_null(*m),
{
    match metadata_of(m) {
        Some(j) => j,
        None => "null".to_owned(),
    }
}

/// The call a pools command makes.
pub fn pools_request(cmd: &PoolsCmd) -> (r: Result<Request, Error>)
    ensures
        made(r, pools_call(*cmd)),
{
    match cmd {
        PoolsCmd::List { paging } => Ok(request("GET", "/storage/pools".to_owned(), paged(no_query(), paging), None)),
        PoolsCmd::Get { id } => Ok(request("GET", id_at("/storage/pools/", *id), no_query(), None)),
        PoolsCmd::Create { name, vdevs, ashift, compression, force, metadata } => {
            let vj = match vdevs_text(vdevs) {
                Ok(j) => j,
                Err(e) => return Err(e),
            };
            let ghost vv = vj@;
            let mut fs = no_query();
            push_field(&mut fs, "ashift", match ashift {
                Some(a) => json_num(*a as u64),
                None => "null".to_owned(),
            });
            push_field(&mut fs, "compression", json_opt(compression));
            push_field(&mut fs, "force", json_bool(*force).to_owned());
            push_field(&mut fs, "metadata", metadata_member(metadata));
            push_field(&mut fs, "name", json_str(name.as_str()));
            push_field(&mut fs, "vdevs", vj);
            assert(field_views(fs@) =~= seq![
                ("ashift"@, match *ashift { Some(a) => dec(a as nat), None => "null"@ }),
                ("compression"@, jopt(opt_seq(*compression))),
                ("force"@, jbool(*force)),
                ("metadata"@, metadata_or_null(*metadata)),
                ("name"@, jstr(name@)),
                ("vdevs"@, vv),
            ]);
            Ok(request("POST", "/storage/pools".to_owned(), no_query(), Some(json_object(&fs))))
        },
        PoolsCmd::Update { id, metadata } => match metadata_of(metadata) {
            None => Err(Error::Config("nothing to update".to_owned())),
            Some(m) => Ok(request("PATCH", id_at("/storage/pools/", *id), no_query(), Some(m))),
        },
        PoolsCmd::Destroy { id, name } => {
            let mut fs = no_query();
            push_field(&mut fs, "name", json_str(name.as_str()));
            assert(field_views(fs@) =~= seq![("name"@, jstr(name@))]);
            Ok(request("DELETE", id_at("/storage/pools/", *id), no_query(), Some(json_object(&fs))))
        },
        PoolsCmd::Scrub { id, stop } => Ok(request(if *stop { "DELETE" } else { "POST" },
            id_path("/storage/pools/", *id, "/scrub"), no_query(), None)),
    }
}

/// `storage snapshots` subcommands.
#[derive(Debug, Clone)]
pub enum SnapshotsCmd {
    List { dataset: Option<String>, recursive: bool, paging: Paging },
    Get { id: Id },
    Create { dataset: String, name: String, recursive: bool, metadata: MetadataArgs },
    Destroy { id: Id },
    Rollback { id: Id, discard_newer: bool },
    Clone { id: Id, target: String },
}

/// The call a snapshots command makes.
pub open spec fn snapshots_call(cmd: SnapshotsCmd) -> Result<Call, Seq<char>> {
    match cmd {
        SnapshotsCmd::List { dataset, recursive, paging } => Ok(call("GET"@, "/storage/snapshots"@, paging_query(
            filters(("dataset"@, opt_seq(dataset)), ("recursive"@, if recursive { Some("true"@) } else { None })),
            paging), None)),
        SnapshotsCmd::Get { id } => Ok(bare("GET"@, "/storage/snapshots/"@ + uuid_text(id.value()))),
        SnapshotsCmd::Create { dataset, name, recursive, metadata } => Ok(call("POST"@, "/storage/snapshots"@,
            Seq::empty(), Some(jobj(seq![
                ("dataset"@, jstr(dataset@)),
                ("metadata"@, metadata_or_null(metadata)),
                ("name"@, jstr(name@)),
                ("recursive"@, jbool(recursive)),
            ])))),
        SnapshotsCmd::Destroy { id } => Ok(bare("DELETE"@, "/storage/snapshots/"@ + uuid_text(id.value()))),
        SnapshotsCmd::Rollback { id, discard_newer } => Ok(call("POST"@, "/storage/snapshots/"@
            + uuid_text(id.value()) + "/rollback"@, Seq::empty(), Some(jobj(seq![
            ("discard_newer"@, jbool(discard_newer)),
        ])))),
        SnapshotsCmd::Clone { id, target } => Ok(call("POST"@, "/storage/snapshots/"@ + uuid_text(id.value())
            + "/clone"@, Seq::empty(), Some(jobj(seq![("name"@, jstr(target@))])))),
    }
}

/// The call a snapshots command makes.
pub fn snapshots_request(cmd: &SnapshotsCmd) -> (r: Result<Request, Error>)
    ensures
        made(r, snapshots_call(*cmd)),
{
    match cmd {
        SnapshotsCmd::List { dataset, recursive, paging } => {
            let mut q = no_query();
            push_opt(&mut q, "dataset", match dataset {
                Some(d) => Some(d.clone()),
                None => None,
            });
            proof {
                reveal_strlit("true");
            }
            push_opt(&mut q, "recursive", if *recursive { Some("true".to_owned()) } else { None });
            Ok(request("GET", "/storage/snapshots".to_owned(), paged(q, paging), None))
        },
        SnapshotsCmd::Get { id } => Ok(request("GET", id_at("/storage/snapshots/", *id), no_query(), None)),
        SnapshotsCmd::Create { dataset, name, recursive, metadata } => {
            let mut fs = no_query();
            push_field(&mut fs, "dataset", json_str(dataset.as_str()));
            push_field(&mut fs, "metadata", metadata_member(metadata));
            push_field(&mut fs, "name", json_str(name.as_str()));
            push_field(&mut fs, "recursive", json_bool(*recursive).to_owned());
            assert(field_views(fs@) =~= seq![
                ("dataset"@, jstr(dataset@)),
                ("metadata"@, metadata_or_null(*metadata)),
                ("name"@, jstr(name@)),
                ("recursive"@, jbool(*recursive)),
            ]);
            Ok(request("POST", "/storage/snapshots".to_owned(), no_query(), Some(json_object(&fs))))
        },
        SnapshotsCmd::Destroy { id } => Ok(request("DELETE", id_at("/storage/snapshots/", *id), no_query(), None)),
        SnapshotsCmd::Rollback { id, discard_newer } => {
            let mut fs = no_query();
            push_field(&mut fs, "discard_newer", json_bool(*discard_newer).to_owned());
            assert(field_views(fs@) =~= seq![("discard_newer"@, jbool(*discard_newer))]);
            Ok(request("POST", id_path("/storage/snapshots/", *id, "/rollback"), no_query(),
                Some(json_object(&fs))))
        },
        SnapshotsCmd::Clone { id, target } => {
            let mut fs = no_query();
            push_field(&mut fs, "name", json_str(target.as_str()));
            assert(field_views(fs@) =~= seq![("name"@, jstr(target@))]);
            Ok(request("POST", id_path("/storage/snapshots/", *id, "/clone"), no_query(), Some(json_object(&fs))))
        },
    }
}

} // verus!
