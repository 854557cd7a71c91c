//! The bodies of the calls that create and change zones and VMs, and the
//! calls of the `zones` commands.
use vstd::prelude::*;
use crate::common::id::{Id, uuid_text};
use crate::common::zone::ZoneNic;
use crate::ctl::args::{MetadataArgs, Paging};
use crate::ctl::calls::{filters, made, metadata_json, metadata_of, str_opt};
use crate::ctl::client::Error;
use crate::ctl::flags::{NicOptions, flag_size, nic_options_of, nic_spec, parse_nic, parse_size};
use crate::ctl::json::{
    field_views, jarr, jbool, jobj, jstr, jstrs, json_array, json_bool, json_num, json_object, json_str,
    json_strings,
};
use crate::ctl::request::{
    Call, Request, bare, call, count, id_at, id_path, no_query, opt_seq, paged, paging_query,
    push_field, push_opt, request, with_opt,
};
use crate::common::shell::string_views;
use crate::text::{chars_of, dec, is, lower, lowered, string_from};

verus! {

/// A NIC as the API takes it, members in name order.
pub open spec fn nic_json(n: (Seq<char>, Seq<char>, NicOptions)) -> Seq<char> {
    let o = n.2;
    let f0 = with_opt(Seq::empty(), "address"@, match o.2 { Some(a) => Some(jstr(a)), None => None });
    let f1 = with_opt(f0, "gateway"@, match o.3 { Some(a) => Some(jstr(a)), None => None });
    let f2 = with_opt(f1, "mac"@, match o.0 { Some(a) => Some(jstr(a)), None => None });
    let f3 = f2.push(("name"@, jstr(n.0))).push(("over"@, jstr(n.1)));
    jobj(with_opt(f3, "vid"@, match o.1 { Some(v) => Some(dec(v as nat)), None => None }))
}

/// The NICs of `--nic` flags as JSON items, or the first flag's error.
pub open spec fn nic_items(specs: Seq<Seq<char>>) -> Result<Seq<Seq<char>>, Seq<char>>
    decreases specs.len(),
{
    if specs.len() == 0 {
        Ok(Seq::empty())
    } else {
        match nic_items(specs.drop_last()) {
            Err(e) => Err(e),
            Ok(xs) => match nic_spec(specs.last()) {
                Err(e) => Err(e),
                Ok(n) => Ok(xs.push(nic_json(n))),
            },
        }
    }
}

/// The NICs of `--nic` flags as a JSON array, or the first flag's error.
pub open spec fn nics_json(specs: Seq<Seq<char>>) -> Result<Seq<char>, Seq<char>> {
    match nic_items(specs) {
        Err(e) => Err(e),
        Ok(xs) => Ok(jarr(xs)),
    }
}

fn config_error(e: &Error) -> (r: Error)
    ensures
        e matches Error::Config(m) ==> (r matches Error::Config(t) && t@ == m@),
{
    match e {
        Error::Config(m) => Error::Config(m.clone()),
        Error::Transport(m) => Error::Transport(m.clone()),
        Error::Api(p) => Error::Api(p.clone()),
        Error::Unexpected { status, body } => Error::Unexpected { status: *status, body: body.clone() },
    }
}

/// A NIC as the API takes it.
pub fn nic_text(n: &ZoneNic) -> (r: String)
    ensures
        r@ == nic_json((n.name@, n.over@, nic_options_of(*n))),
{
    let mut fs = no_query();
    push_opt(&mut fs, "address", match &n.address { Some(a) => Some(json_str(a.as_str())), None => None });
    push_opt(&mut fs, "gateway", match &n.gateway { Some(a) => Some(json_str(a.as_str())), None => None });
    push_opt(&mut fs, "mac", match &n.mac { Some(a) => Some(json_str(a.as_str())), None => None });
    push_field(&mut fs, "name", json_str(n.name.as_str()));
    push_field(&mut fs, "over", json_str(n.over.as_str()));
    push_opt(&mut fs, "vid", match n.vid { Some(v) => Some(json_num(v as u64)), None => None });
    json_object(&fs)
}

/// The NICs of `--nic` flags as a JSON array, or the first flag's error.
pub fn nics_text(specs: &Vec<String>) -> (r: Result<String, Error>)
    ensures
        nics_json(string_views(specs@)) matches Ok(t) ==> (r matches Ok(x) && x@ == t),
        nics_json(string_views(specs@)) matches Err(m) ==> (r matches Err(e) && (e matches Error::Config(t) && t@ == m)),
{
    let ghost sv = string_views(specs@);
    let mut items: Vec<String> = Vec::new();
    let mut i: usize = 0;
    assert(string_views(items@) =~= Seq::<Seq<char>>::empty());
    assert(sv.take(0).len() == 0);
    while i < specs.len()
        invariant
            0 <= i <= specs@.len(),
            sv == string_views(specs@),
            nic_items(sv.take(i as int)) == Ok::<Seq<Seq<char>>, Seq<char>>(string_views(items@)),
        decreases specs@.len() - i,
    {
        assert(sv.take(i + 1).drop_last() == sv.take(i as int));
        assert(sv.take(i + 1).last() == specs@[i as int]@);
        match parse_nic(specs[i].as_str()) {
            Ok(n) => {
                let ghost before = string_views(items@);
                let t = nic_text(&n);
                items.push(t);
                assert(string_views(items@) =~= before.push(nic_json((n.name@, n.over@, nic_options_of(n)))));
            },
            Err(e) => {
                proof {
                    lemma_items_err_stays(sv, i as int + 1);
                }
                return Err(config_error(&e));
            },
        }
        i = i + 1;
    }
    assert(sv.take(specs@.len() as int) == sv);
    Ok(json_array(&items))
}

/// Once a NIC flag fails, the flags up to any later one fail with it.
proof fn lemma_items_err_stays(s: Seq<Seq<char>>, k: int)
    requires
        0 <= k <= s.len(),
        nic_items(s.take(k)) is Err,
    ensures
        nic_items(s) == nic_items(s.take(k)),
    decreases s.len() - k,
{
    if k < s.len() {
        assert(s.take(k + 1).drop_last() == s.take(k));
        lemma_items_err_stays(s, k + 1);
    } else {
        assert(s.take(k) == s);
    }
}

/// A size flag as a JSON number of bytes, or its error.
pub open spec fn size_json(text: Seq<char>) -> Result<Seq<char>, Seq<char>> {
    match flag_size(text) {
        Some(v) => Ok(dec(v as nat)),
        None => Err("not a size: "@ + text),
    }
}

/// A size flag as a JSON number of bytes.
pub fn size_text(text: &str) -> (r: Result<String, Error>)
    ensures
        size_json(text@) matches Ok(t) ==> (r matches Ok(x) && x@ == t),
        size_json(text@) matches Err(m) ==> (r matches Err(e) && (e matches Error::Config(t) && t@ == m)),
{
    match parse_size(text) {
        Ok(v) => Ok(json_num(v)),
        Err(e) => Err(e),
    }
}

/// Whether a flag says `none`, in any case.
pub open spec fn says_none(t: Seq<char>) -> bool {
    lower(t) == "none"@
}

fn is_none_word(t: &str) -> (r: bool)
    ensures
        r == says_none(t@),
{
    let l = lowered(chars_of(t).as_slice());
    is(l.as_slice(), "none")
}

/// The resolvers that are not `none`, in order.
pub open spec fn not_none(s: Seq<Seq<char>>) -> Seq<Seq<char>>
    decreases s.len(),
{
    if s.len() == 0 {
        s
    } else if says_none(s.last()) {
        not_none(s.drop_last())
    } else {
        not_none(s.drop_last()).push(s.last())
    }
}

fn keep_not_none(v: &Vec<String>) -> (r: Vec<String>)
    ensures
        string_views(r@) == not_none(string_views(v@)),
{
    let ghost sv = string_views(v@);
    let mut out: Vec<String> = Vec::new();
    let mut i: usize = 0;
    assert(string_views(out@) =~= not_none(sv.take(0)));
    while i < v.len()
        invariant
            0 <= i <= v@.len(),
            sv == string_views(v@),
            string_views(out@) == not_none(sv.take(i as int)),
        decreases v@.len() - i,
    {
        assert(sv.take(i + 1).drop_last() == sv.take(i as int));
        assert(sv.take(i + 1).last() == v@[i as int]@);
        if !is_none_word(v[i].as_str()) {
            let ghost before = string_views(out@);
            out.push(v[i].clone());
            assert(string_views(out@) =~= before.push(v@[i as int]@));
        }
        i = i + 1;
    }
    assert(sv.take(v@.len() as int) == sv);
    out
}

/// `zones create` flags; `cpu_cap` is the cap as a JSON number.
#[derive(Debug, Clone)]
pub struct ZoneCreate {
    pub name: String,
    pub brand: String,
    pub image: Option<Id>,
    pub pool: Option<String>,
    pub nics: Vec<String>,
    pub cpu_cap: Option<String>,
    pub memory: Option<String>,
    pub no_autoboot: bool,
    pub no_start: bool,
    pub hostname: Option<String>,
    pub resolvers: Vec<String>,
    pub metadata: MetadataArgs,
}

/// `zones update` flags; `cpu_number` is the `cpu_cap` flag read as a
/// number, as JSON, when it reads as one.
#[derive(Debug, Clone)]
pub struct ZoneUpdate {
    pub id: Id,
    pub nics: Vec<String>,
    pub clear_nics: bool,
    pub cpu_cap: Option<String>,
    pub cpu_number: Option<String>,
    pub memory: Option<String>,
    pub autoboot: Option<bool>,
    pub hostname: Option<String>,
    pub resolvers: Vec<String>,
    pub metadata: MetadataArgs,
}

/// `zones` subcommands.
#[derive(Debug, Clone)]
pub enum ZonesCmd {
    List { brand: Option<String>, state: Option<String>, paging: Paging },
    Get { id: Id },
    Create(ZoneCreate),
    Update(ZoneUpdate),
    Delete { id: Id, purge: bool },
    Start { id: Id },
    Stop { id: Id, force: bool },
    Restart { id: Id },
}

/// An id as a JSON string, if there is one.
pub open spec fn id_json(o: Option<Id>) -> Option<Seq<char>> {
    match o {
        Some(i) => Some(jstr(uuid_text(i.value()))),
        None => None,
    }
}

/// A size flag as an optional JSON member value, or its error.
pub open spec fn opt_size_json(m: Option<String>) -> Result<Option<Seq<char>>, Seq<char>> {
    match m {
        None => Ok(None),
        Some(t) => match size_json(t@) {
            Err(e) => Err(e),
            Ok(j) => Ok(Some(j)),
        },
    }
}

/// The body of `zones create`, or the first flag that does not read.
pub open spec fn zone_create_body(a: ZoneCreate) -> Result<Seq<char>, Seq<char>> {
    match nics_json(string_views(a.nics@)) {
        Err(e) => Err(e),
        Ok(nj) => match opt_size_json(a.memory) {
            Err(e) => Err(e),
            Ok(mj) => {
                let f0 = seq![("autoboot"@, jbool(!a.no_autoboot)), ("brand"@, jstr(a.brand@))];
                let f1 = with_opt(f0, "cpu_cap"@, opt_seq(a.cpu_cap));
                let f2 = with_opt(f1, "hostname"@, str_opt(a.hostname));
                let f3 = with_opt(f2, "image_id"@, id_json(a.image));
                let f4 = with_opt(f3, "memory_cap_bytes"@, mj);
                let f5 = with_opt(f4, "metadata"@, metadata_json(a.metadata));
                let f6 = f5.push(("name"@, jstr(a.name@))).push(("nics"@, nj));
                let f7 = with_opt(f6, "pool"@, str_opt(a.pool));
                Ok(jobj(f7.push(("resolvers"@, jstrs(string_views(a.resolvers@)))).push(
                    ("start"@, jbool(!a.no_start)))))
            },
        },
    }
}

/// What a `none`-or-value flag sends: `null` for `none`.
pub open spec fn nics_update(a: ZoneUpdate) -> Result<Option<Seq<char>>, Seq<char>> {
    if a.clear_nics {
        Ok(Some("[]"@))
    } else if a.nics@.len() > 0 {
        match nics_json(string_views(a.nics@)) {
            Err(e) => Err(e),
            Ok(j) => Ok(Some(j)),
        }
    } else {
        Ok(None)
    }
}

/// The cap a `zones update` sends: `null` for `none`, else the number.
pub open spec fn cpu_update(a: ZoneUpdate) -> Result<Option<Seq<char>>, Seq<char>> {
    match a.cpu_cap {
        None => Ok(None),
        Some(c) => if says_none(c@) {
            Ok(Some("null"@))
        } else {
            match a.cpu_number {
                Some(t) => Ok(Some(t@)),
                None => Err("bad cpu cap: "@ + c@),
            }
        },
    }
}

/// What a size flag of an update sends: `null` for `none`, else bytes.
pub open spec fn size_update(m: Option<String>) -> Result<Option<Seq<char>>, Seq<char>> {
    match m {
        None => Ok(None),
        Some(t) => if says_none(t@) {
            Ok(Some("null"@))
        } else {
            match size_json(t@) {
                Err(e) => Err(e),
                Ok(j) => Ok(Some(j)),
            }
        },
    }
}

/// The members of `zones update`, or the first flag that does not read.
pub open spec fn zone_update_fields(a: ZoneUpdate) -> Result<Seq<(Seq<char>, Seq<char>)>, Seq<char>> {
    match nics_update(a) {
        Err(e) => Err(e),
        Ok(nj) => match cpu_update(a) {
            Err(e) => Err(e),
            Ok(cj) => match size_update(a.memory) {
                Err(e) => Err(e),
                Ok(mj) => {
                    let f0 = with_opt(Seq::empty(), "autoboot"@, match a.autoboot {
                        Some(b) => Some(jbool(b)),
                        None => None,
                    });
                    let f1 = with_opt(f0, "cpu_cap"@, cj);
                    let f2 = with_opt(f1, "hostname"@, str_opt(a.hostname));
                    let f3 = with_opt(f2, "memory_cap_bytes"@, mj);
                    let f4 = with_opt(f3, "metadata"@, metadata_json(a.metadata));
                    let f5 = with_opt(f4, "nics"@, nj);
                    Ok(with_opt(f5, "resolvers"@, if a.resolvers@.len() > 0 {
                        Some(jstrs(not_none(string_views(a.resolvers@))))
                    } else {
                        None
                    }))
                },
            },
        },
    }
}

/// The call a zones command makes.
pub open spec fn zones_call(cmd: ZonesCmd) -> Result<Call, Seq<char>> {
    match cmd {
        ZonesCmd::List { brand, state, paging } => Ok(call("GET"@, "/zones"@, paging_query(
            filters(("brand"@, opt_seq(brand)), ("state"@, opt_seq(state))), paging), None)),
        ZonesCmd::Get { id } => Ok(bare("GET"@, "/zones/"@ + uuid_text(id.value()))),
        ZonesCmd::Create(a) => match zone_create_body(a) {
            Err(e) => Err(e),
            Ok(b) => Ok(call("POST"@, "/zones"@, Seq::empty(), Some(b))),
        },
        ZonesCmd::Update(a) => match zone_update_fields(a) {
            Err(e) => Err(e),
            Ok(f) => if f.len() == 0 {
                Err("nothing to update"@)
            } else {
                Ok(call("PATCH"@, "/zones/"@ + uuid_text(a.id.value()), Seq::empty(), Some(jobj(f))))
            },
        },
        ZonesCmd::Delete { id, purge } => Ok(bare("DELETE"@, "/zones/"@ + uuid_text(id.value())
            + if purge { "?purge=true"@ } else { Seq::empty() })),
        ZonesCmd::Start { id } => Ok(bare("POST"@, "/zones/"@ + uuid_text(id.value()) + "/start"@)),
        ZonesCmd::Stop { id, force } => Ok(call("POST"@, "/zones/"@ + uuid_text(id.value()) + "/stop"@,
            Seq::empty(), Some(jobj(seq![("force"@, jbool(force))])))),
        ZonesCmd::Restart { id } => Ok(bare("POST"@, "/zones/"@ + uuid_text(id.value()) + "/restart"@)),
    }
}

pub(crate) fn clone_str(o: &Option<String>) -> (r: Option<String>)
    ensures
        opt_seq(r) == opt_seq(*o),
{
    match o {
        Some(s) => Some(s.clone()),
        None => None,
    }
}

pub(crate) fn str_value(o: &Option<String>) -> (r: Option<String>)
    ensures
        opt_seq(r) == str_opt(*o),
{
    match o {
        Some(s) => Some(json_str(s.as_str())),
        None => None,
    }
}

fn id_value(o: Option<Id>) -> (r: Option<String>)
    ensures
        opt_seq(r) == id_json(o),
{
    match o {
        Some(i) => Some(json_str(i.to_text().as_str())),
        None => None,
    }
}

fn config(m: &str) -> (e: Error)
    ensures
        e matches Error::Config(t) && t@ == m@,
{
    Error::Config(m.to_owned())
}

pub(crate) fn opt_size_text(m: &Option<String>) -> (r: Result<Option<String>, Error>)
    ensures
        opt_size_json(*m) matches Ok(x) ==> (r matches Ok(y) && opt_seq(y) == x),
        opt_size_json(*m) matches Err(x) ==> (r matches Err(e) && (e matches Error::Config(t) && t@ == x)),
{
    match m {
        None => Ok(None),
        Some(t) => match size_text(t.as_str()) {
            Ok(j) => Ok(Some(j)),
            Err(e) => Err(e),
        },
    }
}

/// What a size flag of an update sends: `null` for `none`, else bytes.
pub(crate) fn size_update_text(m: &Option<String>) -> (r: Result<Option<String>, Error>)
    ensures
        size_update(*m) matches Ok(x) ==> (r matches Ok(y) && opt_seq(y) == x),
        size_update(*m) matches Err(x) ==> (r matches Err(e) && (e matches Error::Config(t) && t@ == x)),
{
    match m {
        None => Ok(None),
        Some(t) => if is_none_word(t.as_str()) {
            Ok(Some("null".to_owned()))
        } else {
            match size_text(t.as_str()) {
                Ok(j) => Ok(Some(j)),
                Err(e) => Err(e),
            }
        },
    }
}

/// The body of `zones create`, or the first flag that does not read.
pub fn zone_create_text(a: &ZoneCreate) -> (r: Result<String, Error>)
    ensures
        zone_create_body(*a) matches Ok(t) ==> (r matches Ok(x) && x@ == t),
        zone_create_body(*a) matches Err(m) ==> (r matches Err(e) && (e matches Error::Config(t) && t@ == m)),
{
    let nj = match nics_text(&a.nics) {
        Ok(j) => j,
        Err(e) => return Err(e),
    };
    let mj = match opt_size_text(&a.memory) {
        Ok(j) => j,
        Err(e) => return Err(e),
    };
    let mut fs = no_query();
    push_field(&mut fs, "autoboot", json_bool(!a.no_autoboot).to_owned());
    push_field(&mut fs, "brand", json_str(a.brand.as_str()));
    assert(field_views(fs@) =~= seq![("autoboot"@, jbool(!a.no_autoboot)), ("brand"@, jstr(a.brand@))]);
    push_opt(&mut fs, "cpu_cap", clone_str(&a.cpu_cap));
    push_opt(&mut fs, "hostname", str_value(&a.hostname));
    push_opt(&mut fs, "image_id", id_value(a.image));
    push_opt(&mut fs, "memory_cap_bytes", mj);
    push_opt(&mut fs, "metadata", metadata_of(&a.metadata));
    push_field(&mut fs, "name", json_str(a.name.as_str()));
    push_field(&mut fs, "nics", nj);
    push_opt(&mut fs, "pool", str_value(&a.pool));
    push_field(&mut fs, "resolvers", json_strings(&a.resolvers));
    push_field(&mut fs, "start", json_bool(!a.no_start).to_owned());
    Ok(json_object(&fs))
}

/// The members of `zones update`, or the first flag that does not read.
pub fn zone_update_members(a: &ZoneUpdate) -> (r: Result<Vec<(String, String)>, Error>)
    ensures
        zone_update_fields(*a) matches Ok(f) ==> (r matches Ok(x) && field_views(x@) == f),
        zone_update_fields(*a) matches Err(m) ==> (r matches Err(e) && (e matches Error::Config(t) && t@ == m)),
{
    let nj: Option<String> = if a.clear_nics {
        proof {
            reveal_strlit("[]");
        }
        Some("[]".to_owned())
    } else if a.nics.len() > 0 {
        match nics_text(&a.nics) {
            Ok(j) => Some(j),
            Err(e) => return Err(e),
        }
    } else {
        None
    };
    let cj: Option<String> = match &a.cpu_cap {
        None => None,
        Some(c) => if is_none_word(c.as_str()) {
            Some("null".to_owned())
        } else {
            match &a.cpu_number {
                Some(t) => Some(t.clone()),
                None => {
                    let m = crate::text::concat(chars_of("bad cpu cap: ").as_slice(), chars_of(c.as_str()).as_slice());
                    return Err(Error::Config(string_from(m.as_slice())));
                },
            }
        },
    };
    let mj = match size_update_text(&a.memory) {
        Ok(j) => j,
        Err(e) => return Err(e),
    };
    let mut fs = no_query();
    push_opt(&mut fs, "autoboot", match a.autoboot {
        Some(b) => Some(json_bool(b).to_owned()),
        None => None,
    });
    push_opt(&mut fs, "cpu_cap", cj);
    push_opt(&mut fs, "hostname", str_value(&a.hostname));
    push_opt(&mut fs, "memory_cap_bytes", mj);
    push_opt(&mut fs, "metadata", metadata_of(&a.metadata));
    push_opt(&mut fs, "nics", nj);
    push_opt(&mut fs, "resolvers", if a.resolvers.len() > 0 {
        Some(json_strings(&keep_not_none(&a.resolvers)))
    } else {
        None
    });
    Ok(fs)
}

/// The call a zones command makes.
pub fn zones_request(cmd: &ZonesCmd) -> (r: Result<Request, Error>)
    ensures
        made(r, zones_call(*cmd)),
{
    match cmd {
        ZonesCmd::List { brand, state, paging } => {
            let mut q = no_query();
            push_opt(&mut q, "brand", clone_str(brand));
            push_opt(&mut q, "state", clone_str(state));
            Ok(request("GET", "/zones".to_owned(), paged(q, paging), None))
        },
        ZonesCmd::Get { id } => Ok(request("GET", id_at("/zones/", *id), no_query(), None)),
        ZonesCmd::Create(a) => match zone_create_text(a) {
            Ok(b) => Ok(request("POST", "/zones".to_owned(), no_query(), Some(b))),
            Err(e) => Err(e),
        },
        ZonesCmd::Update(a) => match zone_update_members(a) {
            Ok(fs) => if count(&fs) == 0 {
                Err(config("nothing to update"))
            } else {
                Ok(request("PATCH", id_at("/zones/", a.id), no_query(), Some(json_object(&fs))))
            },
            Err(e) => Err(e),
        },
        ZonesCmd::Delete { id, purge } => {
            let path = if *purge {
                id_path("/zones/", *id, "?purge=true")
            } else {
                id_at("/zones/", *id)
            };
            proof {
                assert(uuid_text(id.value()) + Seq::<char>::empty() == uuid_text(id.value()));
                assert(("/zones/"@ + uuid_text(id.value())) + Seq::<char>::empty() == "/zones/"@ + uuid_text(id.value()));
            }
            Ok(request("DELETE", path, no_query(), None))
        },
        ZonesCmd::Start { id } => Ok(request("POST", id_path("/zones/", *id, "/start"), no_query(), None)),
        ZonesCmd::Stop { id, force } => {
            let mut fs = no_query();
            push_field(&mut fs, "force", json_bool(*force).to_owned());
            assert(field_views(fs@) =~= seq![("force"@, jbool(*force))]);
            Ok(request("POST", id_path("/zones/", *id, "/stop"), no_query(), Some(json_object(&fs))))
        },
        ZonesCmd::Restart { id } => Ok(request("POST", id_path("/zones/", *id, "/restart"), no_query(), None)),
    }
}

/// `vms create` flags.
#[derive(Debug, Clone)]
pub struct VmCreateArgs {
    pub name: String,
    pub vcpus: u32,
    pub memory: String,
    pub bootrom: Option<String>,
    pub no_acpi: bool,
    pub pool: Option<String>,
    pub image: Option<Id>,
    pub boot_size: Option<String>,
    pub disks: Vec<String>,
    pub cdroms: Vec<Id>,
    pub nics: Vec<String>,
    pub no_vnc: bool,
    pub no_autoboot: bool,
    pub no_start: bool,
    pub metadata: MetadataArgs,
}

/// `vms update` flags.
#[derive(Debug, Clone)]
pub struct VmUpdateArgs {
    pub id: Id,
    pub vcpus: Option<u32>,
    pub memory: Option<String>,
    pub bootrom: Option<String>,
    pub acpi: Option<bool>,
    pub vnc: Option<bool>,
    pub autoboot: Option<bool>,
    pub nics: Vec<String>,
    pub clear_nics: bool,
    pub metadata: MetadataArgs,
}

/// The boot disk: from the image, else of `--boot-size`; one of them is
/// needed.
pub open spec fn boot_disk(image: Option<Id>, boot_size: Option<String>) -> Result<Seq<char>, Seq<char>> {
    match image {
        Some(i) => Ok(jobj(seq![("boot"@, "true"@), ("image_id"@, jstr(uuid_text(i.value())))])),
        None => match boot_size {
            None => Err("the boot disk needs --image or --boot-size"@),
            Some(s) => match size_json(s@) {
                Err(e) => Err(e),
                Ok(j) => Ok(jobj(seq![("boot"@, "true"@), ("size_bytes"@, j)])),
            },
        },
    }
}

/// The further disks of `--disk` sizes, or the first that does not read.
pub open spec fn extra_disks(sizes: Seq<Seq<char>>) -> Result<Seq<Seq<char>>, Seq<char>>
    decreases sizes.len(),
{
    if sizes.len() == 0 {
        Ok(Seq::empty())
    } else {
        match extra_disks(sizes.drop_last()) {
            Err(e) => Err(e),
            Ok(xs) => match size_json(sizes.last()) {
                Err(e) => Err(e),
                Ok(j) => Ok(xs.push(jobj(seq![("boot"@, "false"@), ("size_bytes"@, j)]))),
            },
        }
    }
}

/// The ids of ISOs as their texts.
pub open spec fn id_texts(ids: Seq<Id>) -> Seq<Seq<char>> {
    ids.map_values(|i: Id| uuid_text(i.value()))
}

/// The body of `vms create`: the boot disk is checked first, then the
/// further disks, the memory, and the NICs.
pub open spec fn vm_create_json(a: VmCreateArgs) -> Result<Seq<char>, Seq<char>> {
    match boot_disk(a.image, a.boot_size) {
        Err(e) => Err(e),
        Ok(boot) => match extra_disks(string_views(a.disks@)) {
            Err(e) => Err(e),
            Ok(extra) => match size_json(a.memory@) {
                Err(e) => Err(e),
                Ok(mem) => match nics_json(string_views(a.nics@)) {
                    Err(e) => Err(e),
                    Ok(nj) => {
                        let f0 = seq![("acpi"@, jbool(!a.no_acpi)), ("autoboot"@, jbool(!a.no_autoboot))];
                        let f1 = with_opt(f0, "bootrom"@, str_opt(a.bootrom));
                        let f2 = f1.push(("cdroms"@, jstrs(id_texts(a.cdroms@)))).push(
                            ("disks"@, jarr(seq![boot] + extra))).push(("memory_bytes"@, mem));
                        let f3 = with_opt(f2, "metadata"@, metadata_json(a.metadata));
                        let f4 = f3.push(("name"@, jstr(a.name@))).push(("nics"@, nj));
                        let f5 = with_opt(f4, "pool"@, str_opt(a.pool));
                        Ok(jobj(f5.push(("start"@, jbool(!a.no_start))).push(("vcpus"@, dec(a.vcpus as nat))).push(
                            ("vnc"@, jbool(!a.no_vnc)))))
                    },
                },
            },
        },
    }
}

/// The members of `vms update`: the memory is checked before the NICs.
pub open spec fn vm_update_fields(a: VmUpdateArgs) -> Result<Seq<(Seq<char>, Seq<char>)>, Seq<char>> {
    match opt_size_json(a.memory) {
        Err(e) => Err(e),
        Ok(mj) => {
            let nics: Result<Option<Seq<char>>, Seq<char>> = if a.clear_nics {
                Ok(Some("[]"@))
            } else if a.nics@.len() > 0 {
                match nics_json(string_views(a.nics@)) {
                    Err(e) => Err(e),
                    Ok(j) => Ok(Some(j)),
                }
            } else {
                Ok(None)
            };
            match nics {
                Err(e) => Err(e),
                Ok(nj) => {
                    let b = |o: Option<bool>| match o { Some(x) => Some(jbool(x)), None => None };
                    let f0 = with_opt(Seq::empty(), "acpi"@, b(a.acpi));
                    let f1 = with_opt(f0, "autoboot"@, b(a.autoboot));
                    let f2 = with_opt(f1, "bootrom"@, str_opt(a.bootrom));
                    let f3 = with_opt(f2, "memory_bytes"@, mj);
                    let f4 = with_opt(f3, "metadata"@, metadata_json(a.metadata));
                    let f5 = with_opt(f4, "nics"@, nj);
                    let f6 = with_opt(f5, "vcpus"@, match a.vcpus { Some(v) => Some(dec(v as nat)), None => None });
                    Ok(with_opt(f6, "vnc"@, b(a.vnc)))
                },
            }
        },
    }
}

/// The body of `vms update`, or why there is none.
pub open spec fn vm_update_json(a: VmUpdateArgs) -> Result<Seq<char>, Seq<char>> {
    match vm_update_fields(a) {
        Err(e) => Err(e),
        Ok(f) => if f.len() == 0 { Err("nothing to update"@) } else { Ok(jobj(f)) },
    }
}

/// What a result of JSON text says, as text.
pub open spec fn text_result(r: Result<String, Error>, s: Result<Seq<char>, Seq<char>>) -> bool {
    match s {
        Ok(t) => r matches Ok(x) && x@ == t,
        Err(m) => r matches Err(e) && (e matches Error::Config(t) && t@ == m),
    }
}

fn boot_disk_text(image: Option<Id>, boot_size: &Option<String>) -> (r: Result<String, Error>)
    ensures
        text_result(r, boot_disk(image, *boot_size)),
{
    let mut fs = no_query();
    proof {
        reveal_strlit("true");
    }
    match image {
        Some(i) => {
            push_field(&mut fs, "boot", "true".to_owned());
            push_field(&mut fs, "image_id", json_str(i.to_text().as_str()));
            assert(field_views(fs@) =~= seq![("boot"@, "true"@), ("image_id"@, jstr(uuid_text(i.value())))]);
            Ok(json_object(&fs))
        },
        None => match boot_size {
            None => Err(config("the boot disk needs --image or --boot-size")),
            Some(s) => match size_text(s.as_str()) {
                Err(e) => Err(e),
                Ok(j) => {
                    let ghost jv = j@;
                    push_field(&mut fs, "boot", "true".to_owned());
                    push_field(&mut fs, "size_bytes", j);
                    assert(field_views(fs@) =~= seq![("boot"@, "true"@), ("size_bytes"@, jv)]);
                    Ok(json_object(&fs))
                },
            },
        },
    }
}

/// Once a size fails, the sizes up to any later one fail with it.
proof fn lemma_disks_err_stays(s: Seq<Seq<char>>, k: int)
    requires
        0 <= k <= s.len(),
        extra_disks(s.take(k)) is Err,
    ensures
        extra_disks(s) == extra_disks(s.take(k)),
    decreases s.len() - k,
{
    if k < s.len() {
        assert(s.take(k + 1).drop_last() == s.take(k));
        lemma_disks_err_stays(s, k + 1);
    } else {
        assert(s.take(k) == s);
    }
}

fn extra_disk_texts(sizes: &Vec<String>) -> (r: Result<Vec<String>, Error>)
    ensures
        extra_disks(string_views(sizes@)) matches Ok(xs) ==> (r matches Ok(v) && string_views(v@) == xs),
        extra_disks(string_views(sizes@)) matches Err(m) ==> (r matches Err(e)
            && (e matches Error::Config(t) && t@ == m)),
{
    let ghost sv = string_views(sizes@);
    let mut items: Vec<String> = Vec::new();
    let mut i: usize = 0;
    assert(string_views(items@) =~= Seq::<Seq<char>>::empty());
    assert(sv.take(0).len() == 0);
    proof {
        reveal_strlit("false");
    }
    while i < sizes.len()
        invariant
            0 <= i <= sizes@.len(),
            sv == string_views(sizes@),
            extra_disks(sv.take(i as int)) == Ok::<Seq<Seq<char>>, Seq<char>>(string_views(items@)),
        decreases sizes@.len() - i,
    {
        assert(sv.take(i + 1).drop_last() == sv.take(i as int));
        assert(sv.take(i + 1).last() == sizes@[i as int]@);
        match size_text(sizes[i].as_str()) {
            Ok(j) => {
                let ghost jv = j@;
                let mut fs = no_query();
                push_field(&mut fs, "boot", "false".to_owned());
                push_field(&mut fs, "size_bytes", j);
                assert(field_views(fs@) =~= seq![("boot"@, "false"@), ("size_bytes"@, jv)]);
                let ghost before = string_views(items@);
                let d = json_object(&fs);
                items.push(d);
                assert(string_views(items@) =~= before.push(jobj(seq![("boot"@, "false"@), ("size_bytes"@, jv)])));
            },
            Err(e) => {
                proof {
                    lemma_disks_err_stays(sv, i as int + 1);
                }
                return Err(e);
            },
        }
        i = i + 1;
    }
    assert(sv.take(sizes@.len() as int) == sv);
    Ok(items)
}

fn id_strings(ids: &Vec<Id>) -> (r: Vec<String>)
    ensures
        string_views(r@) == id_texts(ids@),
{
    let mut out: Vec<String> = Vec::new();
    let mut i: usize = 0;
    while i < ids.len()
        invariant
            0 <= i <= ids@.len(),
            string_views(out@) == id_texts(ids@).take(i as int),
        decreases ids@.len() - i,
    {
        let ghost before = string_views(out@);
        let t = ids[i].to_text();
        out.push(t);
        assert(string_views(out@) =~= before.push(uuid_text(ids@[i as int].value())));
        assert(id_texts(ids@).take(i + 1) =~= id_texts(ids@).take(i as int).push(uuid_text(ids@[i as int].value())));
        i = i + 1;
    }
    assert(id_texts(ids@).take(ids@.len() as int) =~= id_texts(ids@));
    out
}

/// The body of `vms create`; the boot disk needs an image or a size.
pub fn vm_create_body(a: &VmCreateArgs) -> (r: Result<String, Error>)
    ensures
        text_result(r, vm_create_json(*a)),
        r is Err <== a.image is None && a.boot_size is None,
{
    let boot = match boot_disk_text(a.image, &a.boot_size) {
        Ok(b) => b,
        Err(e) => return Err(e),
    };
    let extra = match extra_disk_texts(&a.disks) {
        Ok(x) => x,
        Err(e) => return Err(e),
    };
    let mem = match size_text(a.memory.as_str()) {
        Ok(m) => m,
        Err(e) => return Err(e),
    };
    let nj = match nics_text(&a.nics) {
        Ok(j) => j,
        Err(e) => return Err(e),
    };
    let mut disks: Vec<String> = Vec::new();
    let ghost bv = boot@;
    disks.push(boot);
    let mut i: usize = 0;
    assert(string_views(disks@) =~= seq![bv] + string_views(extra@).take(0));
    while i < extra.len()
        invariant
            0 <= i <= extra@.len(),
            string_views(disks@) == seq![bv] + string_views(extra@).take(i as int),
        decreases extra@.len() - i,
    {
        let ghost before = string_views(disks@);
        disks.push(extra[i].clone());
        assert(string_views(disks@) =~= before.push(extra@[i as int]@));
        assert(string_views(extra@).take(i + 1) =~= string_views(extra@).take(i as int).push(extra@[i as int]@));
        i = i + 1;
    }
    assert(string_views(extra@).take(extra@.len() as int) =~= string_views(extra@));
    let mut fs = no_query();
    push_field(&mut fs, "acpi", json_bool(!a.no_acpi).to_owned());
    push_field(&mut fs, "autoboot", json_bool(!a.no_autoboot).to_owned());
    assert(field_views(fs@) =~= seq![("acpi"@, jbool(!a.no_acpi)), ("autoboot"@, jbool(!a.no_autoboot))]);
    push_opt(&mut fs, "bootrom", str_value(&a.bootrom));
    push_field(&mut fs, "cdroms", json_strings(&id_strings(&a.cdroms)));
    push_field(&mut fs, "disks", json_array(&disks));
    push_field(&mut fs, "memory_bytes", mem);
    push_opt(&mut fs, "metadata", metadata_of(&a.metadata));
    push_field(&mut fs, "name", json_str(a.name.as_str()));
    push_field(&mut fs, "nics", nj);
    push_opt(&mut fs, "pool", str_value(&a.pool));
    push_field(&mut fs, "start", json_bool(!a.no_start).to_owned());
    push_field(&mut fs, "vcpus", json_num(a.vcpus as u64));
    push_field(&mut fs, "vnc", json_bool(!a.no_vnc).to_owned());
    Ok(json_object(&fs))
}

fn flag_json(o: Option<bool>) -> (r: Option<String>)
    ensures
        opt_seq(r) == (match o { Some(x) => Some(jbool(x)), None => None }),
{
    match o {
        Some(x) => Some(json_bool(x).to_owned()),
        None => None,
    }
}

/// The body of `vms update`; with no flag there is nothing to update.
pub fn vm_update_body(a: &VmUpdateArgs) -> (r: Result<String, Error>)
    ensures
        text_result(r, vm_update_json(*a)),
{
    let mj = match opt_size_text(&a.memory) {
        Ok(j) => j,
        Err(e) => return Err(e),
    };
    let nj: Option<String> = if a.clear_nics {
        proof {
            reveal_strlit("[]");
        }
        Some("[]".to_owned())
    } else if a.nics.len() > 0 {
        match nics_text(&a.nics) {
            Ok(j) => Some(j),
            Err(e) => return Err(e),
        }
    } else {
        None
    };
    let mut fs = no_query();
    push_opt(&mut fs, "acpi", flag_json(a.acpi));
    push_opt(&mut fs, "autoboot", flag_json(a.autoboot));
    push_opt(&mut fs, "bootrom", str_value(&a.bootrom));
    push_opt(&mut fs, "memory_bytes", mj);
    push_opt(&mut fs, "metadata", metadata_of(&a.metadata));
    push_opt(&mut fs, "nics", nj);
    push_opt(&mut fs, "vcpus", match a.vcpus {
        Some(v) => Some(json_num(v as u64)),
        None => None,
    });
    push_opt(&mut fs, "vnc", flag_json(a.vnc));
    if count(&fs) == 0 {
        return Err(config("nothing to update"));
    }
    Ok(json_object(&fs))
}

} // verus!
