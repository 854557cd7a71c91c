//! What the client shows of the API's records: key/value lines and table
//! rows, as text.
use vstd::prelude::*;
use crate::common::api::Metadata;
use crate::common::id::{Id, uuid_text};
use crate::common::network::{
    AggrInfo, Duplex, LinkKind, LinkState, MacMode, kind_name, lacp_mode_name, lacp_timer_name,
};
use crate::common::role::{Role, role_name};
use crate::common::shell::string_views;
use crate::common::storage::{PoolHealth, ScanFunction, ScanState, ScanStatus, health_name};
use crate::common::timestamp::{Timestamp, rfc3339_text};
use crate::common::vm::{Bootrom, bootrom_name};
use crate::common::zone::{ZoneNic, ZoneState, zone_state_name};
use crate::ctl::json::field_views;
use crate::ctl::output::{pct, shown_opt, shown_pct, shown_size, size};
use crate::ctl::request::{no_query, opt_seq, push_field, push_opt, with_opt};
use crate::text::{chars_of, concat, dec, dec_chars, join, joined, string_from, views};

verus! {

/// `true` or `false`.
pub open spec fn bool_word(b: bool) -> Seq<char> {
    if b { "true"@ } else { "false"@ }
}

pub(crate) fn bool_text(b: bool) -> (r: String)
    ensures
        r@ == bool_word(b),
{
    if b { "true".to_owned() } else { "false".to_owned() }
}

/// A number in decimal, or `-`.
pub open spec fn shown_num(o: Option<int>) -> Seq<char> {
    match o {
        Some(n) => dec(n as nat),
        None => "-"@,
    }
}

pub(crate) fn num_text(n: u64) -> (r: String)
    ensures
        r@ == dec(n as nat),
{
    string_from(dec_chars(n).as_slice())
}

pub(crate) fn opt_num(o: Option<u64>) -> (r: String)
    ensures
        r@ == shown_num(match o { Some(n) => Some(n as int), None => None }),
{
    match o {
        Some(n) => num_text(n),
        None => "-".to_owned(),
    }
}

pub(crate) fn opt_str(o: &Option<String>) -> (r: String)
    ensures
        r@ == shown_opt(opt_seq(*o)),
{
    match o {
        Some(s) => s.clone(),
        None => "-".to_owned(),
    }
}

/// A time in RFC 3339, or `-`.
pub open spec fn shown_ts(o: Option<Timestamp>) -> Seq<char> {
    match o {
        Some(t) => rfc3339_text(t.unix(), t.subsec()),
        None => "-"@,
    }
}

pub(crate) fn ts_text(o: Option<Timestamp>) -> (r: String)
    ensures
        r@ == shown_ts(o),
{
    match o {
        Some(t) => t.to_rfc3339(),
        None => "-".to_owned(),
    }
}

/// An id's text, or `-`.
pub open spec fn shown_id(o: Option<Id>) -> Seq<char> {
    match o {
        Some(i) => uuid_text(i.value()),
        None => "-"@,
    }
}

pub(crate) fn id_text(o: Option<Id>) -> (r: String)
    ensures
        r@ == shown_id(o),
{
    match o {
        Some(i) => i.to_text(),
        None => "-".to_owned(),
    }
}

/// Texts joined by `sep`.
pub fn join_strings(v: &Vec<String>, sep: &str) -> (r: String)
    ensures
        r@ == join(string_views(v@), sep@),
{
    let mut parts: Vec<Vec<char>> = Vec::new();
    let mut i: usize = 0;
    while i < v.len()
        invariant
            0 <= i <= v@.len(),
            views(parts@) == string_views(v@).take(i as int),
        decreases v@.len() - i,
    {
        let ghost before = views(parts@);
        parts.push(chars_of(v[i].as_str()));
        assert(views(parts@) =~= before.push(v@[i as int]@));
        assert(string_views(v@).take(i + 1) =~= string_views(v@).take(i as int).push(v@[i as int]@));
        i = i + 1;
    }
    assert(string_views(v@).take(v@.len() as int) =~= string_views(v@));
    string_from(joined(&parts, sep).as_slice())
}

/// A list joined by `sep`, or `-` when empty.
pub open spec fn shown_list(v: Seq<Seq<char>>, sep: Seq<char>) -> Seq<char> {
    if v.len() == 0 { "-"@ } else { join(v, sep) }
}

pub(crate) fn list_text(v: &Vec<String>, sep: &str) -> (r: String)
    ensures
        r@ == shown_list(string_views(v@), sep@),
{
    if v.len() == 0 {
        "-".to_owned()
    } else {
        join_strings(v, sep)
    }
}

/// Pairs with the metadata's display name and description added, when
/// there are any.
pub open spec fn with_metadata(ps: Seq<(Seq<char>, Seq<char>)>, m: Option<Metadata>) -> Seq<(Seq<char>, Seq<char>)> {
    match m {
        Some(md) => with_opt(with_opt(ps, "display name"@, opt_seq(md.display_name)), "description"@,
            opt_seq(md.description)),
        None => ps,
    }
}

pub(crate) fn push_metadata(ps: &mut Vec<(String, String)>, m: &Option<Metadata>)
    ensures
        field_views(final(ps)@) == with_metadata(field_views(old(ps)@), *m),
{
    match m {
        Some(md) => {
            push_opt(ps, "display name", match &md.display_name { Some(s) => Some(s.clone()), None => None });
            push_opt(ps, "description", match &md.description { Some(s) => Some(s.clone()), None => None });
        },
        None => {},
    }
}

/// A VM's disk.
#[derive(Debug, Clone)]
pub struct VmDiskRecord {
    pub index: u32,
    pub dataset: String,
    pub device: Option<String>,
    pub size_bytes: u64,
    pub boot: bool,
    pub image_id: Option<Id>,
}

/// A VM's ISO.
#[derive(Debug, Clone)]
pub struct VmCdromRecord {
    pub index: u32,
    pub image_id: Id,
    pub path: String,
}

/// A VM as the API gives it.
#[derive(Debug, Clone)]
pub struct VmRecord {
    pub id: Id,
    pub name: String,
    pub state: ZoneState,
    pub vcpus: u32,
    pub memory_bytes: u64,
    pub bootrom: Bootrom,
    pub acpi: bool,
    pub disks: Vec<VmDiskRecord>,
    pub cdroms: Vec<VmCdromRecord>,
    pub nics: Vec<ZoneNic>,
    pub vnc: bool,
    pub autoboot: bool,
    pub pool: Option<String>,
    pub dataset: Option<String>,
    pub zonepath: String,
    pub image_id: Option<Id>,
    pub created_at: Option<Timestamp>,
    pub metadata: Option<Metadata>,
}

/// `on` or `off`.
pub open spec fn on_word(b: bool) -> Seq<char> {
    if b { "on"@ } else { "off"@ }
}

/// The key/value lines of a VM.
pub open spec fn vm_pairs_spec(v: VmRecord) -> Seq<(Seq<char>, Seq<char>)> {
    with_metadata(seq![
        ("id"@, uuid_text(v.id.value())),
        ("name"@, v.name@),
        ("state"@, zone_state_name(v.state)),
        ("vcpus"@, dec(v.vcpus as nat)),
        ("memory"@, shown_size(v.memory_bytes as nat)),
        ("bootrom"@, bootrom_name(v.bootrom)),
        ("acpi"@, bool_word(v.acpi)),
        ("vnc"@, on_word(v.vnc)),
        ("autoboot"@, bool_word(v.autoboot)),
        ("image"@, shown_id(v.image_id)),
        ("pool"@, shown_opt(opt_seq(v.pool))),
        ("dataset"@, shown_opt(opt_seq(v.dataset))),
        ("zonepath"@, v.zonepath@),
    ], v.metadata)
}

/// The key/value lines of a VM.
pub fn vm_pairs(v: &VmRecord) -> (r: Vec<(String, String)>)
    ensures
        field_views(r@) == vm_pairs_spec(*v),
{
    let mut ps = no_query();
    push_field(&mut ps, "id", v.id.to_text());
    push_field(&mut ps, "name", v.name.clone());
    push_field(&mut ps, "state", v.state.as_str().to_owned());
    push_field(&mut ps, "vcpus", num_text(v.vcpus as u64));
    push_field(&mut ps, "memory", size(v.memory_bytes));
    push_field(&mut ps, "bootrom", v.bootrom.as_str().to_owned());
    push_field(&mut ps, "acpi", bool_text(v.acpi));
    push_field(&mut ps, "vnc", if v.vnc { "on".to_owned() } else { "off".to_owned() });
    push_field(&mut ps, "autoboot", bool_text(v.autoboot));
    push_field(&mut ps, "image", id_text(v.image_id));
    push_field(&mut ps, "pool", opt_str(&v.pool));
    push_field(&mut ps, "dataset", opt_str(&v.dataset));
    push_field(&mut ps, "zonepath", v.zonepath.clone());
    let ghost base = field_views(ps@);
    assert(base =~= seq![
        ("id"@, uuid_text(v.id.value())),
        ("name"@, v.name@),
        ("state"@, zone_state_name(v.state)),
        ("vcpus"@, dec(v.vcpus as nat)),
        ("memory"@, shown_size(v.memory_bytes as nat)),
        ("bootrom"@, bootrom_name(v.bootrom)),
        ("acpi"@, bool_word(v.acpi)),
        ("vnc"@, on_word(v.vnc)),
        ("autoboot"@, bool_word(v.autoboot)),
        ("image"@, shown_id(v.image_id)),
        ("pool"@, shown_opt(opt_seq(v.pool))),
        ("dataset"@, shown_opt(opt_seq(v.dataset))),
        ("zonepath"@, v.zonepath@),
    ]);
    push_metadata(&mut ps, &v.metadata);
    ps
}

/// A disk's row: slot, volume, size, boot, image.
pub open spec fn disk_row_spec(d: VmDiskRecord) -> Seq<Seq<char>> {
    seq![dec(d.index as nat), d.dataset@, shown_size(d.size_bytes as nat), if d.boot { "yes"@ } else { ""@ },
        shown_id(d.image_id)]
}

/// A disk's row: slot, volume, size, boot, image.
pub fn disk_row(d: &VmDiskRecord) -> (r: Vec<String>)
    ensures
        string_views(r@) == disk_row_spec(*d),
{
    let mut v: Vec<String> = Vec::new();
    v.push(num_text(d.index as u64));
    v.push(d.dataset.clone());
    v.push(size(d.size_bytes));
    v.push(if d.boot { "yes".to_owned() } else { "".to_owned() });
    v.push(id_text(d.image_id));
    assert(string_views(v@) =~= disk_row_spec(*d));
    v
}

/// An ISO's row: slot, image, path.
pub open spec fn cdrom_row_spec(c: VmCdromRecord) -> Seq<Seq<char>> {
    seq![dec(c.index as nat), uuid_text(c.image_id.value()), c.path@]
}

/// An ISO's row: slot, image, path.
pub fn cdrom_row(c: &VmCdromRecord) -> (r: Vec<String>)
    ensures
        string_views(r@) == cdrom_row_spec(*c),
{
    let mut v: Vec<String> = Vec::new();
    v.push(num_text(c.index as u64));
    v.push(c.image_id.to_text());
    v.push(c.path.clone());
    assert(string_views(v@) =~= cdrom_row_spec(*c));
    v
}

/// A NIC's row: name, link, VLAN, MAC, address, gateway.
pub open spec fn nic_row_spec(n: ZoneNic) -> Seq<Seq<char>> {
    seq![n.name@, n.over@, shown_num(match n.vid { Some(x) => Some(x as int), None => None }),
        shown_opt(opt_seq(n.mac)), shown_opt(opt_seq(n.address)), shown_opt(opt_seq(n.gateway))]
}

/// A NIC's row: name, link, VLAN, MAC, address, gateway.
pub fn nic_row(n: &ZoneNic) -> (r: Vec<String>)
    ensures
        string_views(r@) == nic_row_spec(*n),
{
    let mut v: Vec<String> = Vec::new();
    v.push(n.name.clone());
    v.push(n.over.clone());
    v.push(opt_num(match n.vid { Some(x) => Some(x as u64), None => None }));
    v.push(opt_str(&n.mac));
    v.push(opt_str(&n.address));
    v.push(opt_str(&n.gateway));
    assert(string_views(v@) =~= nic_row_spec(*n));
    v
}

/// A snapshot as the API gives it.
#[derive(Debug, Clone)]
pub struct SnapshotRecord {
    pub id: Id,
    pub name: String,
    pub used_bytes: u64,
    pub referenced_bytes: u64,
    pub created_at: Timestamp,
    pub clones: Vec<String>,
}

/// A snapshot's row: id, name, used, referenced, created, clones.
pub open spec fn snapshot_row_spec(s: SnapshotRecord) -> Seq<Seq<char>> {
    seq![uuid_text(s.id.value()), s.name@, shown_size(s.used_bytes as nat), shown_size(s.referenced_bytes as nat),
        rfc3339_text(s.created_at.unix(), s.created_at.subsec()), shown_list(string_views(s.clones@), ","@)]
}

/// A snapshot's row: id, name, used, referenced, created, clones.
pub fn snapshot_row(s: &SnapshotRecord) -> (r: Vec<String>)
    ensures
        string_views(r@) == snapshot_row_spec(*s),
{
    let mut v: Vec<String> = Vec::new();
    v.push(s.id.to_text());
    v.push(s.name.clone());
    v.push(size(s.used_bytes));
    v.push(size(s.referenced_bytes));
    v.push(s.created_at.to_rfc3339());
    v.push(list_text(&s.clones, ","));
    assert(string_views(v@) =~= snapshot_row_spec(*s));
    v
}

/// The rows of a page of snapshots, in order.
pub fn snapshot_rows(ss: &[SnapshotRecord]) -> (r: Vec<Vec<String>>)
    ensures
        r@.len() == ss@.len(),
        forall|i: int| 0 <= i < ss@.len() ==> string_views(#[trigger] r@[i]@) == snapshot_row_spec(ss@[i]),
{
    let mut rows: Vec<Vec<String>> = Vec::new();
    let mut i: usize = 0;
    while i < ss.len()
        invariant
            0 <= i <= ss@.len(),
            rows@.len() == i,
            forall|j: int| 0 <= j < i ==> string_views(#[trigger] rows@[j]@) == snapshot_row_spec(ss@[j]),
        decreases ss@.len() - i,
    {
        rows.push(snapshot_row(&ss[i]));
        i = i + 1;
    }
    rows
}

/// A link as the API gives it.
#[derive(Debug, Clone)]
pub struct LinkRecord {
    pub id: Id,
    pub name: String,
    pub kind: LinkKind,
    pub state: LinkState,
    pub over: Vec<String>,
    pub mtu: Option<u32>,
    pub mac: Option<String>,
    pub protected: bool,
    pub mac_mode: Option<MacMode>,
    pub vid: Option<u16>,
    pub speed_mbps: Option<u32>,
    pub duplex: Option<Duplex>,
    pub device: Option<String>,
    pub media: Option<String>,
    pub aggr: Option<AggrInfo>,
    pub zone: Option<String>,
    pub metadata: Option<Metadata>,
}

/// A link state in lower case.
pub open spec fn state_word(s: LinkState) -> Seq<char> {
    match s {
        LinkState::Up => "up"@,
        LinkState::Down => "down"@,
        LinkState::Unknown => "unknown"@,
    }
}

pub(crate) fn state_text(s: LinkState) -> (r: &'static str)
    ensures
        r@ == state_word(s),
{
    match s {
        LinkState::Up => "up",
        LinkState::Down => "down",
        LinkState::Unknown => "unknown",
    }
}

/// A MAC mode in lower case.
pub open spec fn mac_mode_word(m: MacMode) -> Seq<char> {
    match m {
        MacMode::Auto => "auto"@,
        MacMode::Fixed => "fixed"@,
        MacMode::Random => "random"@,
        MacMode::Factory => "factory"@,
    }
}

fn mac_mode_text(m: MacMode) -> (r: &'static str)
    ensures
        r@ == mac_mode_word(m),
{
    match m {
        MacMode::Auto => "auto",
        MacMode::Fixed => "fixed",
        MacMode::Random => "random",
        MacMode::Factory => "factory",
    }
}

/// A duplex in lower case.
pub open spec fn duplex_word(d: Duplex) -> Seq<char> {
    match d {
        Duplex::Full => "full"@,
        Duplex::Half => "half"@,
        Duplex::Unknown => "unknown"@,
    }
}

fn duplex_text(d: Duplex) -> (r: &'static str)
    ensures
        r@ == duplex_word(d),
{
    match d {
        Duplex::Full => "full",
        Duplex::Half => "half",
        Duplex::Unknown => "unknown",
    }
}

/// The ports of an aggregation: each `name (state)`.
pub open spec fn port_texts(a: AggrInfo) -> Seq<Seq<char>> {
    a.ports@.map_values(|p: crate::common::network::AggrPort| p.name@ + " ("@ + p.state@ + ")"@)
}

/// The key/value lines of a link.
pub open spec fn link_pairs_spec(l: LinkRecord) -> Seq<(Seq<char>, Seq<char>)> {
    let base = seq![
        ("id"@, uuid_text(l.id.value())),
        ("name"@, l.name@),
        ("kind"@, kind_name(l.kind)),
        ("state"@, state_word(l.state)),
        ("over"@, shown_list(string_views(l.over@), ", "@)),
        ("mtu"@, shown_num(match l.mtu { Some(m) => Some(m as int), None => None })),
        ("mac"@, shown_opt(opt_seq(l.mac))),
        ("protected"@, bool_word(l.protected)),
    ];
    let p1 = with_opt(base, "mac mode"@, match l.mac_mode { Some(m) => Some(mac_mode_word(m)), None => None });
    let p2 = with_opt(p1, "vid"@, match l.vid { Some(v) => Some(dec(v as nat)), None => None });
    let p3 = with_opt(p2, "speed"@, match l.speed_mbps { Some(s) => Some(dec(s as nat) + " Mb/s"@), None => None });
    let p4 = with_opt(p3, "duplex"@, match l.duplex { Some(d) => Some(duplex_word(d)), None => None });
    let p5 = with_opt(p4, "device"@, opt_seq(l.device));
    let p6 = with_opt(p5, "media"@, opt_seq(l.media));
    let p7 = match l.aggr {
        Some(a) => p6.push(("policy"@, a.policy@)).push(("lacp"@, lacp_mode_name(a.lacp_mode) + " "@
            + lacp_timer_name(a.lacp_timer))).push(("ports"@, join(port_texts(a), ", "@))),
        None => p6,
    };
    with_metadata(with_opt(p7, "zone"@, opt_seq(l.zone)), l.metadata)
}

fn port_strings(a: &AggrInfo) -> (r: Vec<String>)
    ensures
        string_views(r@) == port_texts(*a),
{
    let mut out: Vec<String> = Vec::new();
    let mut i: usize = 0;
    while i < a.ports.len()
        invariant
            0 <= i <= a.ports@.len(),
            string_views(out@) == port_texts(*a).take(i as int),
        decreases a.ports@.len() - i,
    {
        let p = &a.ports[i];
        let x = concat(chars_of(p.name.as_str()).as_slice(), chars_of(" (").as_slice());
        let y = concat(x.as_slice(), chars_of(p.state.as_str()).as_slice());
        let t = string_from(concat(y.as_slice(), chars_of(")").as_slice()).as_slice());
        let ghost before = string_views(out@);
        out.push(t);
        assert(string_views(out@) =~= before.push(port_texts(*a)[i as int]));
        assert(port_texts(*a).take(i + 1) =~= port_texts(*a).take(i as int).push(port_texts(*a)[i as int]));
        i = i + 1;
    }
    assert(port_texts(*a).take(a.ports@.len() as int) =~= port_texts(*a));
    out
}

/// The key/value lines of a link.
pub fn link_pairs(l: &LinkRecord) -> (r: Vec<(String, String)>)
    ensures
        field_views(r@) == link_pairs_spec(*l),
{
    let mut ps = no_query();
    push_field(&mut ps, "id", l.id.to_text());
    push_field(&mut ps, "name", l.name.clone());
    push_field(&mut ps, "kind", l.kind.as_str().to_owned());
    push_field(&mut ps, "state", state_text(l.state).to_owned());
    push_field(&mut ps, "over", list_text(&l.over, ", "));
    push_field(&mut ps, "mtu", opt_num(match l.mtu { Some(m) => Some(m as u64), None => None }));
    push_field(&mut ps, "mac", opt_str(&l.mac));
    push_field(&mut ps, "protected", bool_text(l.protected));
    assert(field_views(ps@) =~= seq![
        ("id"@, uuid_text(l.id.value())),
        ("name"@, l.name@),
        ("kind"@, kind_name(l.kind)),
        ("state"@, state_word(l.state)),
        ("over"@, shown_list(string_views(l.over@), ", "@)),
        ("mtu"@, shown_num(match l.mtu { Some(m) => Some(m as int), None => None })),
        ("mac"@, shown_opt(opt_seq(l.mac))),
        ("protected"@, bool_word(l.protected)),
    ]);
    push_opt(&mut ps, "mac mode", match l.mac_mode { Some(m) => Some(mac_mode_text(m).to_owned()), None => None });
    push_opt(&mut ps, "vid", match l.vid { Some(v) => Some(num_text(v as u64)), None => None });
    push_opt(&mut ps, "speed", match l.speed_mbps {
        Some(s) => Some(string_from(concat(dec_chars(s as u64).as_slice(), chars_of(" Mb/s").as_slice()).as_slice())),
        None => None,
    });
    push_opt(&mut ps, "duplex", match l.duplex { Some(d) => Some(duplex_text(d).to_owned()), None => None });
    push_opt(&mut ps, "device", match &l.device { Some(s) => Some(s.clone()), None => None });
    push_opt(&mut ps, "media", match &l.media { Some(s) => Some(s.clone()), None => None });
    match &l.aggr {
        Some(a) => {
            push_field(&mut ps, "policy", a.policy.clone());
            let x = concat(chars_of(a.lacp_mode.as_str()).as_slice(), chars_of(" ").as_slice());
            let lacp = string_from(concat(x.as_slice(), chars_of(a.lacp_timer.as_str()).as_slice()).as_slice());
            push_field(&mut ps, "lacp", lacp);
            push_field(&mut ps, "ports", join_strings(&port_strings(a), ", "));
        },
        None => {},
    }
    push_opt(&mut ps, "zone", match &l.zone { Some(s) => Some(s.clone()), None => None });
    push_metadata(&mut ps, &l.metadata);
    ps
}

/// A user as the API gives it.
#[derive(Debug, Clone)]
pub struct UserRecord {
    pub id: Id,
    pub username: String,
    pub role: Role,
    pub display_name: Option<String>,
    pub disabled: bool,
    pub locked_until: Option<Timestamp>,
    pub last_login_at: Option<Timestamp>,
}

/// A user's row: id, name, role, display name, state, last login.
pub open spec fn user_row_spec(u: UserRecord) -> Seq<Seq<char>> {
    seq![uuid_text(u.id.value()), u.username@, role_name(u.role), shown_opt(opt_seq(u.display_name)),
        if u.disabled { "disabled"@ } else if u.locked_until is Some { "locked"@ } else { "active"@ },
        shown_ts(u.last_login_at)]
}

/// A user's row: id, name, role, display name, state, last login.
pub fn user_row(u: &UserRecord) -> (r: Vec<String>)
    ensures
        string_views(r@) == user_row_spec(*u),
{
    let mut v: Vec<String> = Vec::new();
    v.push(u.id.to_text());
    v.push(u.username.clone());
    v.push(u.role.as_str().to_owned());
    v.push(opt_str(&u.display_name));
    v.push(if u.disabled {
        "disabled".to_owned()
    } else if u.locked_until.is_some() {
        "locked".to_owned()
    } else {
        "active".to_owned()
    });
    v.push(ts_text(u.last_login_at));
    assert(string_views(v@) =~= user_row_spec(*u));
    v
}

/// An image source as the API gives it.
#[derive(Debug, Clone)]
pub struct SourceRecord {
    pub id: Id,
    pub name: String,
    pub url: String,
    pub builtin: bool,
    pub enabled: bool,
    pub verified: bool,
    pub public_key: Option<String>,
    pub image_count: u32,
    pub last_refreshed_at: Option<Timestamp>,
    pub last_error: Option<String>,
}

/// A source's row: id, name (marked when built in), URL, state, image
/// count, last refresh, last error.
pub open spec fn source_row_spec(s: SourceRecord) -> Seq<Seq<char>> {
    seq![
        uuid_text(s.id.value()),
        if s.builtin { s.name@ + " (built-in)"@ } else { s.name@ },
        s.url@,
        if !s.enabled {
            "disabled"@
        } else if s.verified {
            "verified"@
        } else if s.public_key is Some {
            "not verified"@
        } else {
            "no key"@
        },
        dec(s.image_count as nat),
        shown_ts(s.last_refreshed_at),
        shown_opt(opt_seq(s.last_error)),
    ]
}

/// A source's row.
pub fn source_row(s: &SourceRecord) -> (r: Vec<String>)
    ensures
        string_views(r@) == source_row_spec(*s),
{
    let mut v: Vec<String> = Vec::new();
    v.push(s.id.to_text());
    v.push(if s.builtin {
        string_from(concat(chars_of(s.name.as_str()).as_slice(), chars_of(" (built-in)").as_slice()).as_slice())
    } else {
        s.name.clone()
    });
    v.push(s.url.clone());
    v.push(if !s.enabled {
        "disabled".to_owned()
    } else if s.verified {
        "verified".to_owned()
    } else if s.public_key.is_some() {
        "not verified".to_owned()
    } else {
        "no key".to_owned()
    });
    v.push(num_text(s.image_count as u64));
    v.push(ts_text(s.last_refreshed_at));
    v.push(opt_str(&s.last_error));
    assert(string_views(v@) =~= source_row_spec(*s));
    v
}

/// A pool as the API gives it.
#[derive(Debug, Clone)]
pub struct PoolRecord {
    pub id: Id,
    pub name: String,
    pub health: PoolHealth,
    pub size_bytes: u64,
    pub allocated_bytes: u64,
    pub free_bytes: u64,
    pub fragmentation_percent: Option<u32>,
    pub capacity_percent: Option<u32>,
    pub protected: bool,
    pub metadata: Option<Metadata>,
    pub scan: Option<ScanStatus>,
    pub status_text: Option<String>,
}

/// A scan's function in lower case.
pub open spec fn scan_function_word(f: ScanFunction) -> Seq<char> {
    match f {
        ScanFunction::Scrub => "scrub"@,
        ScanFunction::Resilver => "resilver"@,
    }
}

/// A scan's state as one lower-case word.
pub open spec fn scan_state_word(s: ScanState) -> Seq<char> {
    match s {
        ScanState::InProgress => "inprogress"@,
        ScanState::Finished => "finished"@,
        ScanState::Canceled => "canceled"@,
    }
}

/// The scan column: the function and the state, or `-` without a scan.
/// The row names the state by one word, so it shows no progress.
pub open spec fn scan_cell(s: Option<ScanStatus>) -> Seq<char> {
    match s {
        Some(x) => scan_function_word(x.function) + " "@ + scan_state_word(x.state),
        None => "-"@,
    }
}

fn scan_cell_text(s: &Option<ScanStatus>) -> (r: String)
    ensures
        r@ == scan_cell(*s),
{
    match s {
        Some(x) => {
            let f: &str = match x.function {
                ScanFunction::Scrub => "scrub ",
                ScanFunction::Resilver => "resilver ",
            };
            let t: &str = match x.state {
                ScanState::InProgress => "inprogress",
                ScanState::Finished => "finished",
                ScanState::Canceled => "canceled",
            };
            proof {
                reveal_strlit("scrub ");
                reveal_strlit("resilver ");
                reveal_strlit(" ");
                reveal_strlit("scrub");
                reveal_strlit("resilver");
                assert(f@ == scan_function_word(x.function) + " "@);
                assert(t@ == scan_state_word(x.state));
            }
            let r = string_from(concat(chars_of(f).as_slice(), chars_of(t).as_slice()).as_slice());
            r
        },
        None => "-".to_owned(),
    }
}

/// A pool's name, marked when it is protected.
pub open spec fn pool_name_cell(p: PoolRecord) -> Seq<char> {
    if p.protected { p.name@ + " (protected)"@ } else { p.name@ }
}

/// A pool's row: id, name, health, size, allocated, free, capacity,
/// fragmentation, scan.
pub open spec fn pool_row_spec(p: PoolRecord) -> Seq<Seq<char>> {
    seq![uuid_text(p.id.value()), pool_name_cell(p), health_name(p.health), shown_size(p.size_bytes as nat),
        shown_size(p.allocated_bytes as nat), shown_size(p.free_bytes as nat), shown_pct(p.capacity_percent),
        shown_pct(p.fragmentation_percent), scan_cell(p.scan)]
}

/// A pool's row: id, name, health, size, allocated, free, capacity,
/// fragmentation, scan.
pub fn pool_row(p: &PoolRecord) -> (r: Vec<String>)
    ensures
        string_views(r@) == pool_row_spec(*p),
{
    let mut v: Vec<String> = Vec::new();
    v.push(p.id.to_text());
    v.push(if p.protected {
        string_from(concat(chars_of(p.name.as_str()).as_slice(), chars_of(" (protected)").as_slice()).as_slice())
    } else {
        p.name.clone()
    });
    v.push(p.health.as_str().to_owned());
    v.push(size(p.size_bytes));
    v.push(size(p.allocated_bytes));
    v.push(size(p.free_bytes));
    v.push(pct(p.capacity_percent));
    v.push(pct(p.fragmentation_percent));
    v.push(scan_cell_text(&p.scan));
    assert(string_views(v@) =~= pool_row_spec(*p));
    v
}

/// The rows of a page of pools, in order.
pub fn pool_rows(ps: &[PoolRecord]) -> (r: Vec<Vec<String>>)
    ensures
        r@.len() == ps@.len(),
        forall|i: int| 0 <= i < ps@.len() ==> string_views(#[trigger] r@[i]@) == pool_row_spec(ps@[i]),
{
    let mut rows: Vec<Vec<String>> = Vec::new();
    let mut i: usize = 0;
    while i < ps.len()
        invariant
            0 <= i <= ps@.len(),
            rows@.len() == i,
            forall|j: int| 0 <= j < i ==> string_views(#[trigger] rows@[j]@) == pool_row_spec(ps@[j]),
        decreases ps@.len() - i,
    {
        rows.push(pool_row(&ps[i]));
        i = i + 1;
    }
    rows
}

/// The key/value lines of a pool.
pub open spec fn pool_pairs_spec(p: PoolRecord) -> Seq<(Seq<char>, Seq<char>)> {
    let base = with_metadata(seq![
        ("id"@, uuid_text(p.id.value())),
        ("name"@, p.name@),
        ("health"@, health_name(p.health)),
        ("size"@, shown_size(p.size_bytes as nat)),
        ("allocated"@, shown_size(p.allocated_bytes as nat)),
        ("free"@, shown_size(p.free_bytes as nat)),
        ("capacity"@, shown_pct(p.capacity_percent)),
        ("fragmentation"@, shown_pct(p.fragmentation_percent)),
        ("protected"@, bool_word(p.protected)),
    ], p.metadata);
    let with_scan = with_opt(base, "scan"@, match p.scan {
        Some(s) => Some(s.summary@),
        None => None,
    });
    with_opt(with_scan, "status"@, opt_seq(p.status_text))
}

/// The key/value lines of a pool.
pub fn pool_pairs(p: &PoolRecord) -> (r: Vec<(String, String)>)
    ensures
        field_views(r@) == pool_pairs_spec(*p),
{
    let mut ps = no_query();
    push_field(&mut ps, "id", p.id.to_text());
    push_field(&mut ps, "name", p.name.clone());
    push_field(&mut ps, "health", p.health.as_str().to_owned());
    push_field(&mut ps, "size", size(p.size_bytes));
    push_field(&mut ps, "allocated", size(p.allocated_bytes));
    push_field(&mut ps, "free", size(p.free_bytes));
    push_field(&mut ps, "capacity", pct(p.capacity_percent));
    push_field(&mut ps, "fragmentation", pct(p.fragmentation_percent));
    push_field(&mut ps, "protected", bool_text(p.protected));
    assert(field_views(ps@) =~= seq![
        ("id"@, uuid_text(p.id.value())),
        ("name"@, p.name@),
        ("health"@, health_name(p.health)),
        ("size"@, shown_size(p.size_bytes as nat)),
        ("allocated"@, shown_size(p.allocated_bytes as nat)),
        ("free"@, shown_size(p.free_bytes as nat)),
        ("capacity"@, shown_pct(p.capacity_percent)),
        ("fragmentation"@, shown_pct(p.fragmentation_percent)),
        ("protected"@, bool_word(p.protected)),
    ]);
    push_metadata(&mut ps, &p.metadata);
    push_opt(&mut ps, "scan", match &p.scan {
        Some(s) => Some(s.summary.clone()),
        None => None,
    });
    push_opt(&mut ps, "status", match &p.status_text {
        Some(t) => Some(t.clone()),
        None => None,
    });
    ps
}

} // verus!
