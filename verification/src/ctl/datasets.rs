//! The calls of the `storage datasets` commands.
use vstd::prelude::*;
use crate::common::id::{Id, uuid_text};
use crate::ctl::args::{DatasetCreateArgs, DatasetUpdateArgs, Paging};
use crate::ctl::bodies::{clone_str, opt_size_json, opt_size_text, size_update, size_update_text, str_value};
use crate::ctl::calls::{made, metadata_json, metadata_of, str_opt};
use crate::ctl::client::Error;
use crate::common::shell::string_views;
use crate::common::storage::{DatasetKind, dataset_kind_name};
use crate::ctl::output::{shown_opt, shown_size, size};
use crate::ctl::records::shown_opt_size;
use crate::ctl::shown::opt_str;
use crate::text::{chars_of, concat, string_from};
use crate::ctl::json::{field_views, jbool, jobj, jstr, json_bool, json_object, json_str};
use crate::ctl::request::{
    Call, Request, bare, call, count, id_at, id_path, no_query, opt_seq, paged, paging_query, push_field, push_opt, request,
    with_opt,
};

verus! {

/// The word for what a create makes: a volume when a size is given.
pub open spec fn dataset_kind_word(a: DatasetCreateArgs) -> Seq<char> {
    if a.size is Some { "volume"@ } else { "filesystem"@ }
}

/// The body of `storage datasets create`, members in name order, or the
/// first size flag that does not read (size, volume block size, quota,
/// reservation, record size, in that order).
pub open spec fn dataset_create_body(a: DatasetCreateArgs) -> Result<Seq<char>, Seq<char>> {
    match opt_size_json(a.size) {
        Err(e) => Err(e),
        Ok(sz) => match opt_size_json(a.volblocksize) {
            Err(e) => Err(e),
            Ok(vb) => match opt_size_json(a.quota) {
                Err(e) => Err(e),
                Ok(q) => match opt_size_json(a.reservation) {
                    Err(e) => Err(e),
                    Ok(rv) => match opt_size_json(a.recordsize) {
                        Err(e) => Err(e),
                        Ok(rs) => {
                            let f0 = with_opt(Seq::empty(), "atime"@, if a.no_atime { Some(jbool(false)) } else { None });
                            let f1 = with_opt(f0, "compression"@, str_opt(a.compression));
                            let f2 = f1.push(("create_parents"@, jbool(a.parents))).push(
                                ("kind"@, jstr(dataset_kind_word(a))));
                            let f3 = with_opt(f2, "metadata"@, metadata_json(a.metadata));
                            let f4 = with_opt(f3, "mountpoint"@, str_opt(a.mountpoint));
                            let f5 = f4.push(("name"@, jstr(a.name@)));
                            let f6 = with_opt(f5, "quota_bytes"@, q);
                            let f7 = with_opt(f6, "recordsize_bytes"@, rs);
                            let f8 = with_opt(f7, "reservation_bytes"@, rv);
                            let f9 = with_opt(f8, "sparse"@, if a.size is Some { Some(jbool(a.sparse)) } else { None });
                            let f10 = with_opt(f9, "volblocksize_bytes"@, vb);
                            Ok(jobj(with_opt(f10, "volsize_bytes"@, sz)))
                        },
                    },
                },
            },
        },
    }
}

/// The members of `storage datasets update`, in name order, or the first
/// size flag that does not read (size, quota, reservation).
pub open spec fn dataset_update_fields(a: DatasetUpdateArgs) -> Result<Seq<(Seq<char>, Seq<char>)>, Seq<char>> {
    match opt_size_json(a.size) {
        Err(e) => Err(e),
        Ok(sz) => match size_update(a.quota) {
            Err(e) => Err(e),
            Ok(q) => match size_update(a.reservation) {
                Err(e) => Err(e),
                Ok(rv) => {
                    let f0 = with_opt(Seq::empty(), "atime"@, match a.atime {
                        Some(b) => Some(jbool(b)),
                        None => None,
                    });
                    let f1 = with_opt(f0, "compression"@, str_opt(a.compression));
                    let f2 = with_opt(f1, "metadata"@, metadata_json(a.metadata));
                    let f3 = with_opt(f2, "mountpoint"@, str_opt(a.mountpoint));
                    let f4 = with_opt(f3, "quota_bytes"@, q);
                    let f5 = with_opt(f4, "reservation_bytes"@, rv);
                    Ok(with_opt(f5, "volsize_bytes"@, sz))
                },
            },
        },
    }
}

/// The body of `storage datasets create`, or the first size flag that
/// does not read.
pub fn dataset_create_text(a: &DatasetCreateArgs) -> (r: Result<String, Error>)
    ensures
        dataset_create_body(*a) matches Ok(t) ==> (r matches Ok(x) && x@ == t),
        dataset_create_body(*a) matches Err(m) ==> (r matches Err(e) && (e matches Error::Config(t) && t@ == m)),
{
    let sz = match opt_size_text(&a.size) {
        Ok(j) => j,
        Err(e) => return Err(e),
    };
    let vb = match opt_size_text(&a.volblocksize) {
        Ok(j) => j,
        Err(e) => return Err(e),
    };
    let q = match opt_size_text(&a.quota) {
        Ok(j) => j,
        Err(e) => return Err(e),
    };
    let rv = match opt_size_text(&a.reservation) {
        Ok(j) => j,
        Err(e) => return Err(e),
    };
    let rs = match opt_size_text(&a.recordsize) {
        Ok(j) => j,
        Err(e) => return Err(e),
    };
    let volume = a.size.is_some();
    let mut fs = no_query();
    push_opt(&mut fs, "atime", if a.no_atime { Some(json_bool(false).to_owned()) } else { None });
    push_opt(&mut fs, "compression", str_value(&a.compression));
    push_field(&mut fs, "create_parents", json_bool(a.parents).to_owned());
    push_field(&mut fs, "kind", json_str(if volume { "volume" } else { "filesystem" }));
    push_opt(&mut fs, "metadata", metadata_of(&a.metadata));
    push_opt(&mut fs, "mountpoint", str_value(&a.mountpoint));
    push_field(&mut fs, "name", json_str(a.name.as_str()));
    push_opt(&mut fs, "quota_bytes", q);
    push_opt(&mut fs, "recordsize_bytes", rs);
    push_opt(&mut fs, "reservation_bytes", rv);
    push_opt(&mut fs, "sparse", if volume { Some(json_bool(a.sparse).to_owned()) } else { None });
    push_opt(&mut fs, "volblocksize_bytes", vb);
    push_opt(&mut fs, "volsize_bytes", sz);
    Ok(json_object(&fs))
}

/// The members of `storage datasets update`, or the first size flag that
/// does not read.
pub fn dataset_update_members(a: &DatasetUpdateArgs) -> (r: Result<Vec<(String, String)>, Error>)
    ensures
        dataset_update_fields(*a) matches Ok(f) ==> (r matches Ok(x) && field_views(x@) == f),
        dataset_update_fields(*a) matches Err(m) ==> (r matches Err(e) && (e matches Error::Config(t) && t@ == m)),
{
    let sz = match opt_size_text(&a.size) {
        Ok(j) => j,
        Err(e) => return Err(e),
    };
    let q = match size_update_text(&a.quota) {
        Ok(j) => j,
        Err(e) => return Err(e),
    };
    let rv = match size_update_text(&a.reservation) {
        Ok(j) => j,
        Err(e) => return Err(e),
    };
    let mut fs = no_query();
    push_opt(&mut fs, "atime", match a.atime {
        Some(b) => Some(json_bool(b).to_owned()),
        None => None,
    });
    push_opt(&mut fs, "compression", str_value(&a.compression));
    push_opt(&mut fs, "metadata", metadata_of(&a.metadata));
    push_opt(&mut fs, "mountpoint", str_value(&a.mountpoint));
    push_opt(&mut fs, "quota_bytes", q);
    push_opt(&mut fs, "reservation_bytes", rv);
    push_opt(&mut fs, "volsize_bytes", sz);
    Ok(fs)
}

/// `storage datasets` subcommands.
#[derive(Debug, Clone)]
pub enum DatasetsCmd {
    List { pool: Option<String>, parent: Option<String>, kind: Option<String>, paging: Paging },
    Get { id: Id },
    Create(DatasetCreateArgs),
    Update(DatasetUpdateArgs),
    Destroy { id: Id, recursive: bool },
}

/// The call a datasets command makes.
pub open spec fn datasets_call(cmd: DatasetsCmd) -> Result<Call, Seq<char>> {
    match cmd {
        DatasetsCmd::List { pool, parent, kind, paging } => Ok(call("GET"@, "/storage/datasets"@, paging_query(
            with_opt(with_opt(with_opt(Seq::empty(), "pool"@, opt_seq(pool)), "parent"@, opt_seq(parent)),
                "kind"@, opt_seq(kind)), paging), None)),
        DatasetsCmd::Get { id } => Ok(bare("GET"@, "/storage/datasets/"@ + uuid_text(id.value()))),
        DatasetsCmd::Create(a) => match dataset_create_body(a) {
            Err(e) => Err(e),
            Ok(b) => Ok(call("POST"@, "/storage/datasets"@, Seq::empty(), Some(b))),
        },
        DatasetsCmd::Update(a) => match dataset_update_fields(a) {
            Err(e) => Err(e),
            Ok(f) => if f.len() == 0 {
                Err("nothing to update"@)
            } else {
                Ok(call("PATCH"@, "/storage/datasets/"@ + uuid_text(a.id.value()), Seq::empty(), Some(jobj(f))))
            },
        },
        DatasetsCmd::Destroy { id, recursive } => Ok(bare("DELETE"@, "/storage/datasets/"@ + uuid_text(id.value())
            + if recursive { "?recursive=true"@ } else { Seq::empty() })),
    }
}

/// The call a datasets command makes.
pub fn datasets_request(cmd: &DatasetsCmd) -> (r: Result<Request, Error>)
    ensures
        made(r, datasets_call(*cmd)),
{
    match cmd {
        DatasetsCmd::List { pool, parent, kind, paging } => {
            let mut q = no_query();
            push_opt(&mut q, "pool", clone_str(pool));
            push_opt(&mut q, "parent", clone_str(parent));
            push_opt(&mut q, "kind", clone_str(kind));
            Ok(request("GET", "/storage/datasets".to_owned(), paged(q, paging), None))
        },
        DatasetsCmd::Get { id } => Ok(request("GET", id_at("/storage/datasets/", *id), no_query(), None)),
        DatasetsCmd::Create(a) => match dataset_create_text(a) {
            Ok(b) => Ok(request("POST", "/storage/datasets".to_owned(), no_query(), Some(b))),
            Err(e) => Err(e),
        },
        DatasetsCmd::Update(a) => match dataset_update_members(a) {
            Ok(f) => if count(&f) == 0 {
                Err(Error::Config("nothing to update".to_owned()))
            } else {
                Ok(request("PATCH", id_at("/storage/datasets/", a.id), no_query(), Some(json_object(&f))))
            },
            Err(e) => Err(e),
        },
        DatasetsCmd::Destroy { id, recursive } => {
            let path = if *recursive {
                id_path("/storage/datasets/", *id, "?recursive=true")
            } else {
                id_at("/storage/datasets/", *id)
            };
            proof {
                assert(("/storage/datasets/"@ + uuid_text(id.value())) + Seq::<char>::empty()
                    == "/storage/datasets/"@ + uuid_text(id.value()));
            }
            Ok(request("DELETE", path, no_query(), None))
        },
    }
}

/// A dataset as the API gives it, as far as its row shows it.
#[derive(Debug, Clone)]
pub struct DatasetRecord {
    pub id: Id,
    pub name: String,
    pub kind: DatasetKind,
    pub used_bytes: u64,
    pub available_bytes: u64,
    pub referenced_bytes: u64,
    pub quota_bytes: Option<u64>,
    pub volsize_bytes: Option<u64>,
    pub mountpoint: Option<String>,
    pub protected: bool,
}

/// The last cell: a volume's size, or a filesystem's mountpoint.
pub open spec fn dataset_place(d: DatasetRecord) -> Seq<char> {
    match d.kind {
        DatasetKind::Volume => match d.volsize_bytes {
            Some(v) => "volsize "@ + shown_size(v as nat),
            None => "-"@,
        },
        DatasetKind::Filesystem => shown_opt(opt_seq(d.mountpoint)),
    }
}

/// A dataset's row: id, name (marked when protected), kind, used,
/// available, referenced, quota, and the size or mountpoint.
pub open spec fn dataset_row_spec(d: DatasetRecord) -> Seq<Seq<char>> {
    seq![uuid_text(d.id.value()), if d.protected { d.name@ + " (protected)"@ } else { d.name@ },
        dataset_kind_name(d.kind), shown_size(d.used_bytes as nat), shown_size(d.available_bytes as nat),
        shown_size(d.referenced_bytes as nat), shown_opt_size(d.quota_bytes), dataset_place(d)]
}

/// A dataset's row: id, name (marked when protected), kind, used,
/// available, referenced, quota, and the size or mountpoint.
pub fn dataset_row(d: &DatasetRecord) -> (r: Vec<String>)
    ensures
        string_views(r@) == dataset_row_spec(*d),
{
    let name = if d.protected {
        string_from(concat(chars_of(d.name.as_str()).as_slice(), chars_of(" (protected)").as_slice()).as_slice())
    } else {
        d.name.clone()
    };
    let place = match d.kind {
        DatasetKind::Volume => match d.volsize_bytes {
            Some(v) => string_from(concat(chars_of("volsize ").as_slice(), chars_of(size(v).as_str()).as_slice())
                .as_slice()),
            None => "-".to_owned(),
        },
        DatasetKind::Filesystem => opt_str(&d.mountpoint),
    };
    let mut v: Vec<String> = Vec::new();
    v.push(d.id.to_text());
    v.push(name);
    v.push(d.kind.as_str().to_owned());
    v.push(size(d.used_bytes));
    v.push(size(d.available_bytes));
    v.push(size(d.referenced_bytes));
    v.push(match d.quota_bytes {
        Some(q) => size(q),
        None => "-".to_owned(),
    });
    v.push(place);
    assert(string_views(v@) =~= dataset_row_spec(*d));
    v
}

} // verus!
