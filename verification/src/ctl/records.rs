//! What the client shows of zones and images: key/value lines and rows.
use vstd::prelude::*;
use crate::common::api::Metadata;
use crate::common::id::{Id, uuid_text};
use crate::common::image::{ImageState, ImageType, image_state_name, image_type_name};
use crate::common::shell::string_views;
use crate::common::timestamp::{Timestamp, rfc3339_text};
use crate::common::zone::{ZoneBrand, ZoneNic, ZoneState, brand_name, zone_state_name};
use crate::ctl::json::field_views;
use crate::ctl::output::{shown_opt, shown_size, size};
use crate::ctl::request::{no_query, opt_seq, push_field, push_opt, with_opt};
use crate::ctl::shown::{
    bool_text, bool_word, id_text, list_text, opt_num, opt_str, push_metadata, shown_id, shown_list, shown_num,
    shown_ts, ts_text, with_metadata,
};
use crate::text::{chars_of, concat, string_from};

verus! {

/// A zone as the API gives it.
#[derive(Debug, Clone)]
pub struct ZoneRecord {
    pub id: Id,
    pub name: String,
    pub brand: ZoneBrand,
    pub state: ZoneState,
    pub image_id: Option<Id>,
    pub dataset: Option<String>,
    pub zonepath: String,
    pub nics: Vec<ZoneNic>,
    /// The CPU cap as the API's number prints.
    pub cpu_cap: Option<String>,
    pub memory_cap_bytes: Option<u64>,
    pub autoboot: bool,
    pub hostname: Option<String>,
    pub resolvers: Vec<String>,
    pub metadata: Option<Metadata>,
}

/// A size, or `-`.
pub open spec fn shown_opt_size(o: Option<u64>) -> Seq<char> {
    match o {
        Some(b) => shown_size(b as nat),
        None => "-"@,
    }
}

fn opt_size_text(o: Option<u64>) -> (r: String)
    ensures
        r@ == shown_opt_size(o),
{
    match o {
        Some(b) => size(b),
        None => "-".to_owned(),
    }
}

/// The NICs a zone's row lists, each as `name@over`.
pub open spec fn zone_nic_links(z: ZoneRecord) -> Seq<Seq<char>> {
    z.nics@.map_values(|n: ZoneNic| n.name@ + "@"@ + n.over@)
}

/// A zone's row: id, name, brand, state, NICs, CPU cap, memory cap,
/// autoboot.
pub open spec fn zone_row_spec(z: ZoneRecord) -> Seq<Seq<char>> {
    seq![uuid_text(z.id.value()), z.name@, brand_name(z.brand), zone_state_name(z.state),
        shown_list(zone_nic_links(z), ","@), shown_opt(opt_seq(z.cpu_cap)), shown_opt_size(z.memory_cap_bytes),
        bool_word(z.autoboot)]
}

/// A zone's row: id, name, brand, state, NICs, CPU cap, memory cap,
/// autoboot.
pub fn zone_row(z: &ZoneRecord) -> (r: Vec<String>)
    ensures
        string_views(r@) == zone_row_spec(*z),
{
    let mut links: Vec<String> = Vec::new();
    let mut j: usize = 0;
    while j < z.nics.len()
        invariant
            0 <= j <= z.nics@.len(),
            string_views(links@) == zone_nic_links(*z).take(j as int),
        decreases z.nics@.len() - j,
    {
        let n = &z.nics[j];
        let x = concat(chars_of(n.name.as_str()).as_slice(), chars_of("@").as_slice());
        let t = string_from(concat(x.as_slice(), chars_of(n.over.as_str()).as_slice()).as_slice());
        let ghost before = string_views(links@);
        links.push(t);
        assert(string_views(links@) =~= before.push(zone_nic_links(*z)[j as int]));
        assert(zone_nic_links(*z).take(j + 1) =~= zone_nic_links(*z).take(j as int).push(zone_nic_links(*z)[j as int]));
        j = j + 1;
    }
    assert(zone_nic_links(*z).take(z.nics@.len() as int) =~= zone_nic_links(*z));
    let mut v: Vec<String> = Vec::new();
    v.push(z.id.to_text());
    v.push(z.name.clone());
    v.push(z.brand.as_str().to_owned());
    v.push(z.state.as_str().to_owned());
    v.push(list_text(&links, ","));
    v.push(opt_str(&z.cpu_cap));
    v.push(opt_size_text(z.memory_cap_bytes));
    v.push(bool_text(z.autoboot));
    assert(string_views(v@) =~= zone_row_spec(*z));
    v
}

/// The key/value lines of a zone; its NICs go in a table of their own.
pub open spec fn zone_pairs_spec(z: ZoneRecord) -> Seq<(Seq<char>, Seq<char>)> {
    with_metadata(seq![
        ("id"@, uuid_text(z.id.value())),
        ("name"@, z.name@),
        ("brand"@, brand_name(z.brand)),
        ("state"@, zone_state_name(z.state)),
        ("image"@, shown_id(z.image_id)),
        ("zonepath"@, z.zonepath@),
        ("dataset"@, shown_opt(opt_seq(z.dataset))),
        ("cpu cap"@, shown_opt(opt_seq(z.cpu_cap))),
        ("memory cap"@, shown_opt_size(z.memory_cap_bytes)),
        ("autoboot"@, bool_word(z.autoboot)),
        ("hostname"@, shown_opt(opt_seq(z.hostname))),
        ("resolvers"@, shown_list(string_views(z.resolvers@), ", "@)),
    ], z.metadata)
}

/// The key/value lines of a zone; its NICs go in a table of their own.
pub fn zone_pairs(z: &ZoneRecord) -> (r: Vec<(String, String)>)
    ensures
        field_views(r@) == zone_pairs_spec(*z),
{
    let mut ps = no_query();
    push_field(&mut ps, "id", z.id.to_text());
    push_field(&mut ps, "name", z.name.clone());
    push_field(&mut ps, "brand", z.brand.as_str().to_owned());
    push_field(&mut ps, "state", z.state.as_str().to_owned());
    push_field(&mut ps, "image", id_text(z.image_id));
    push_field(&mut ps, "zonepath", z.zonepath.clone());
    push_field(&mut ps, "dataset", opt_str(&z.dataset));
    push_field(&mut ps, "cpu cap", opt_str(&z.cpu_cap));
    push_field(&mut ps, "memory cap", opt_size_text(z.memory_cap_bytes));
    push_field(&mut ps, "autoboot", bool_text(z.autoboot));
    push_field(&mut ps, "hostname", opt_str(&z.hostname));
    push_field(&mut ps, "resolvers", list_text(&z.resolvers, ", "));
    assert(field_views(ps@) =~= seq![
        ("id"@, uuid_text(z.id.value())),
        ("name"@, z.name@),
        ("brand"@, brand_name(z.brand)),
        ("state"@, zone_state_name(z.state)),
        ("image"@, shown_id(z.image_id)),
        ("zonepath"@, z.zonepath@),
        ("dataset"@, shown_opt(opt_seq(z.dataset))),
        ("cpu cap"@, shown_opt(opt_seq(z.cpu_cap))),
        ("memory cap"@, shown_opt_size(z.memory_cap_bytes)),
        ("autoboot"@, bool_word(z.autoboot)),
        ("hostname"@, shown_opt(opt_seq(z.hostname))),
        ("resolvers"@, shown_list(string_views(z.resolvers@), ", "@)),
    ]);
    push_metadata(&mut ps, &z.metadata);
    ps
}

/// An image as the API gives it.
#[derive(Debug, Clone)]
pub struct ImageRecord {
    pub id: Id,
    pub name: String,
    pub version: String,
    pub type_: ImageType,
    pub state: ImageState,
    pub sha256: String,
    pub size_bytes: u64,
    pub pool: Option<String>,
    pub dataset: Option<String>,
    pub path: Option<String>,
    pub source_name: Option<String>,
    pub url: Option<String>,
    pub os: Option<String>,
    /// The progress in whole percent, as text, while one is reported.
    pub progress: Option<String>,
    pub error: Option<String>,
    pub in_use_by: Option<u32>,
    pub created_at: Timestamp,
    pub imported_at: Option<Timestamp>,
    pub metadata: Option<Metadata>,
}

/// The state cell: the state, with the progress while neither ready nor
/// failed.
pub open spec fn image_state_cell(i: ImageRecord) -> Seq<char> {
    match i.progress {
        Some(p) => if i.state != ImageState::Ready && i.state != ImageState::Failed {
            image_state_name(i.state) + " "@ + p@ + "%"@
        } else {
            image_state_name(i.state)
        },
        None => image_state_name(i.state),
    }
}

/// Where an image lies: its dataset, else its file, else `-`.
pub open spec fn image_location(i: ImageRecord) -> Seq<char> {
    match i.dataset {
        Some(d) => d@,
        None => shown_opt(opt_seq(i.path)),
    }
}

/// An image's row: id, name@version, type, state, OS, size, location.
pub open spec fn image_row_spec(i: ImageRecord) -> Seq<Seq<char>> {
    seq![uuid_text(i.id.value()), i.name@ + "@"@ + i.version@, image_type_name(i.type_), image_state_cell(i),
        shown_opt(opt_seq(i.os)), shown_size(i.size_bytes as nat), image_location(i)]
}

fn state_cell(i: &ImageRecord) -> (r: String)
    ensures
        r@ == image_state_cell(*i),
{
    let s = i.state.as_str();
    match &i.progress {
        Some(p) => if i.state != ImageState::Ready && i.state != ImageState::Failed {
            let a = concat(chars_of(s).as_slice(), chars_of(" ").as_slice());
            let b = concat(a.as_slice(), chars_of(p.as_str()).as_slice());
            string_from(concat(b.as_slice(), chars_of("%").as_slice()).as_slice())
        } else {
            s.to_owned()
        },
        None => s.to_owned(),
    }
}

/// An image's row: id, name@version, type, state, OS, size, location.
pub fn image_row(i: &ImageRecord) -> (r: Vec<String>)
    ensures
        string_views(r@) == image_row_spec(*i),
{
    let x = concat(chars_of(i.name.as_str()).as_slice(), chars_of("@").as_slice());
    let named = string_from(concat(x.as_slice(), chars_of(i.version.as_str()).as_slice()).as_slice());
    let mut v: Vec<String> = Vec::new();
    v.push(i.id.to_text());
    v.push(named);
    v.push(i.type_.as_str().to_owned());
    v.push(state_cell(i));
    v.push(opt_str(&i.os));
    v.push(size(i.size_bytes));
    v.push(match &i.dataset {
        Some(d) => d.clone(),
        None => opt_str(&i.path),
    });
    assert(string_views(v@) =~= image_row_spec(*i));
    v
}

/// The key/value lines of an image.
pub open spec fn image_pairs_spec(i: ImageRecord) -> Seq<(Seq<char>, Seq<char>)> {
    with_metadata(with_opt(seq![
        ("id"@, uuid_text(i.id.value())),
        ("name"@, i.name@),
        ("version"@, i.version@),
        ("type"@, image_type_name(i.type_)),
        ("state"@, image_state_name(i.state)),
        ("sha256"@, i.sha256@),
        ("size"@, shown_size(i.size_bytes as nat)),
        ("pool"@, shown_opt(opt_seq(i.pool))),
        ("dataset"@, shown_opt(opt_seq(i.dataset))),
        ("path"@, shown_opt(opt_seq(i.path))),
        ("source"@, shown_opt(opt_seq(i.source_name))),
        ("url"@, shown_opt(opt_seq(i.url))),
        ("os"@, shown_opt(opt_seq(i.os))),
        ("in use by"@, shown_num(match i.in_use_by { Some(n) => Some(n as int), None => None })),
        ("created"@, rfc3339_text(i.created_at.unix(), i.created_at.subsec())),
        ("imported"@, shown_ts(i.imported_at)),
    ], "error"@, opt_seq(i.error)), i.metadata)
}

/// The key/value lines of an image.
pub fn image_pairs(i: &ImageRecord) -> (r: Vec<(String, String)>)
    ensures
        field_views(r@) == image_pairs_spec(*i),
{
    let mut ps = no_query();
    push_field(&mut ps, "id", i.id.to_text());
    push_field(&mut ps, "name", i.name.clone());
    push_field(&mut ps, "version", i.version.clone());
    push_field(&mut ps, "type", i.type_.as_str().to_owned());
    push_field(&mut ps, "state", i.state.as_str().to_owned());
    push_field(&mut ps, "sha256", i.sha256.clone());
    push_field(&mut ps, "size", size(i.size_bytes));
    push_field(&mut ps, "pool", opt_str(&i.pool));
    push_field(&mut ps, "dataset", opt_str(&i.dataset));
    push_field(&mut ps, "path", opt_str(&i.path));
    push_field(&mut ps, "source", opt_str(&i.source_name));
    push_field(&mut ps, "url", opt_str(&i.url));
    push_field(&mut ps, "os", opt_str(&i.os));
    push_field(&mut ps, "in use by", opt_num(match i.in_use_by { Some(n) => Some(n as u64), None => None }));
    push_field(&mut ps, "created", i.created_at.to_rfc3339());
    push_field(&mut ps, "imported", ts_text(i.imported_at));
    assert(field_views(ps@) =~= seq![
        ("id"@, uuid_text(i.id.value())),
        ("name"@, i.name@),
        ("version"@, i.version@),
        ("type"@, image_type_name(i.type_)),
        ("state"@, image_state_name(i.state)),
        ("sha256"@, i.sha256@),
        ("size"@, shown_size(i.size_bytes as nat)),
        ("pool"@, shown_opt(opt_seq(i.pool))),
        ("dataset"@, shown_opt(opt_seq(i.dataset))),
        ("path"@, shown_opt(opt_seq(i.path))),
        ("source"@, shown_opt(opt_seq(i.source_name))),
        ("url"@, shown_opt(opt_seq(i.url))),
        ("os"@, shown_opt(opt_seq(i.os))),
        ("in use by"@, shown_num(match i.in_use_by { Some(n) => Some(n as int), None => None })),
        ("created"@, rfc3339_text(i.created_at.unix(), i.created_at.subsec())),
        ("imported"@, shown_ts(i.imported_at)),
    ]);
    push_opt(&mut ps, "error", match &i.error {
        Some(e) => Some(e.clone()),
        None => None,
    });
    push_metadata(&mut ps, &i.metadata);
    ps
}

/// An entry of the images the sources offer, as the API gives it.
#[derive(Debug, Clone)]
pub struct CatalogueRecord {
    pub source_name: String,
    pub name: String,
    pub version: String,
    pub type_: ImageType,
    pub os: Option<String>,
    pub size_bytes: u64,
    pub imported: bool,
    pub image_id: Option<Id>,
}

/// Whether an entry is here: the image's id, `yes` without one, `-` when
/// not imported.
pub open spec fn imported_cell(e: CatalogueRecord) -> Seq<char> {
    if e.imported {
        match e.image_id {
            Some(i) => uuid_text(i.value()),
            None => "yes"@,
        }
    } else {
        "-"@
    }
}

/// An offered image's row: source, name@version, type, OS, size, imported.
pub open spec fn catalogue_row_spec(e: CatalogueRecord) -> Seq<Seq<char>> {
    seq![e.source_name@, e.name@ + "@"@ + e.version@, image_type_name(e.type_), shown_opt(opt_seq(e.os)),
        shown_size(e.size_bytes as nat), imported_cell(e)]
}

/// An offered image's row: source, name@version, type, OS, size, imported.
pub fn catalogue_row(e: &CatalogueRecord) -> (r: Vec<String>)
    ensures
        string_views(r@) == catalogue_row_spec(*e),
{
    let x = concat(chars_of(e.name.as_str()).as_slice(), chars_of("@").as_slice());
    let named = string_from(concat(x.as_slice(), chars_of(e.version.as_str()).as_slice()).as_slice());
    let mut v: Vec<String> = Vec::new();
    v.push(e.source_name.clone());
    v.push(named);
    v.push(e.type_.as_str().to_owned());
    v.push(opt_str(&e.os));
    v.push(size(e.size_bytes));
    v.push(if e.imported {
        match e.image_id {
            Some(i) => i.to_text(),
            None => "yes".to_owned(),
        }
    } else {
        "-".to_owned()
    });
    assert(string_views(v@) =~= catalogue_row_spec(*e));
    v
}

} // verus!
