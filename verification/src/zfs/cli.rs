//! The command lines the ZFS driver runs: `zpool`, `zfs`, and `diskinfo`.
use vstd::prelude::*;
use crate::common::shell::{Command, string_views};
use crate::common::storage::{DatasetKind, VdevSpec, VdevSpecType};
use crate::text::{chars_of, concat, dec, dec_chars, string_from};
use crate::zfs::parse::{PoolListRow, ZFS_LIST_COLUMNS, ZFS_SNAPSHOT_COLUMNS, ZPOOL_LIST_COLUMNS};
use crate::zfs::status::PoolStatus;
use crate::zfs::types::{DatasetSpec, PoolInfo, PoolSpec, ZfsError};

verus! {

/// The `zpool create` keyword for a vdev kind; plain stripes have none.
pub open spec fn vdev_word(t: VdevSpecType) -> Option<Seq<char>> {
    match t {
        VdevSpecType::Stripe => None,
        VdevSpecType::Mirror => Some("mirror"@),
        VdevSpecType::Raidz1 => Some("raidz1"@),
        VdevSpecType::Raidz2 => Some("raidz2"@),
        VdevSpecType::Raidz3 => Some("raidz3"@),
        VdevSpecType::Log => Some("log"@),
        VdevSpecType::Cache => Some("cache"@),
        VdevSpecType::Spare => Some("spare"@),
    }
}

/// Log, cache, and spare vdevs.
pub open spec fn is_aux(t: VdevSpecType) -> bool {
    t == VdevSpecType::Log || t == VdevSpecType::Cache || t == VdevSpecType::Spare
}

/// The words for the vdevs that are (or are not) auxiliary, in order:
/// each one's keyword, then its devices.
pub open spec fn vdev_words(vs: Seq<VdevSpec>, aux: bool) -> Seq<Seq<char>>
    decreases vs.len(),
{
    if vs.len() == 0 {
        Seq::<Seq<char>>::empty()
    } else {
        let prev = vdev_words(vs.drop_last(), aux);
        let v = vs.last();
        if is_aux(v.type_) == aux {
            prev + (match vdev_word(v.type_) {
                Some(w) => seq![w],
                None => Seq::<Seq<char>>::empty(),
            }) + string_views(v.devices@)
        } else {
            prev
        }
    }
}

/// `zpool create` arguments for a layout: data vdevs first, then logs,
/// caches, and spares.
pub open spec fn vdev_arg_list(vs: Seq<VdevSpec>) -> Seq<Seq<char>> {
    vdev_words(vs, false) + vdev_words(vs, true)
}

fn word_of(t: VdevSpecType) -> (r: Option<&'static str>)
    ensures
        r matches Some(w) ==> vdev_word(t) == Some(w@),
        r is None ==> vdev_word(t) is None,
{
    match t {
        VdevSpecType::Stripe => None,
        VdevSpecType::Mirror => Some("mirror"),
        VdevSpecType::Raidz1 => Some("raidz1"),
        VdevSpecType::Raidz2 => Some("raidz2"),
        VdevSpecType::Raidz3 => Some("raidz3"),
        VdevSpecType::Log => Some("log"),
        VdevSpecType::Cache => Some("cache"),
        VdevSpecType::Spare => Some("spare"),
    }
}

fn push_vdev_words(out: &mut Vec<String>, vdevs: &[VdevSpec], aux: bool)
    ensures
        string_views(final(out)@) == string_views(old(out)@) + vdev_words(vdevs@, aux),
{
    let ghost start = string_views(out@);
    let mut i: usize = 0;
    assert(vdevs@.take(0) == Seq::<VdevSpec>::empty());
    while i < vdevs.len()
        invariant
            0 <= i <= vdevs@.len(),
            string_views(out@) == start + vdev_words(vdevs@.take(i as int), aux),
        decreases vdevs@.len() - i,
    {
        let v = &vdevs[i];
        assert(vdevs@.take(i + 1).drop_last() == vdevs@.take(i as int));
        assert(vdevs@.take(i + 1).last() == vdevs@[i as int]);
        let a = v.type_ == VdevSpecType::Log || v.type_ == VdevSpecType::Cache || v.type_ == VdevSpecType::Spare;
        if a == aux {
            let ghost mid = string_views(out@);
            match word_of(v.type_) {
                Some(w) => {
                    out.push(w.to_owned());
                },
                None => {},
            }
            let ghost after_word = string_views(out@);
            assert(after_word == mid + (match vdev_word(v.type_) {
                Some(w) => seq![w],
                None => Seq::<Seq<char>>::empty(),
            }));
            let mut j: usize = 0;
            while j < v.devices.len()
                invariant
                    0 <= j <= v.devices@.len(),
                    string_views(out@) == after_word + string_views(v.devices@).take(j as int),
                decreases v.devices@.len() - j,
            {
                let ghost b = string_views(out@);
                out.push(v.devices[j].clone());
                assert(string_views(out@) == b.push(v.devices@[j as int]@));
                assert(string_views(v.devices@).take(j + 1) == string_views(v.devices@).take(j as int).push(v.devices@[j as int]@));
                j = j + 1;
            }
            assert(string_views(v.devices@).take(v.devices@.len() as int) == string_views(v.devices@));
        }
        i = i + 1;
    }
    assert(vdevs@.take(vdevs@.len() as int) == vdevs@);
}

/// `zpool create` arguments for a layout, data vdevs first.
pub fn vdev_args(vdevs: &[VdevSpec]) -> (r: Vec<String>)
    ensures
        string_views(r@) == vdev_arg_list(vdevs@),
{
    let mut out: Vec<String> = Vec::new();
    assert(string_views(out@) == Seq::<Seq<char>>::empty());
    push_vdev_words(&mut out, vdevs, false);
    push_vdev_words(&mut out, vdevs, true);
    out
}

/// `k=v`.
pub open spec fn assignment(k: Seq<char>, v: Seq<char>) -> Seq<char> {
    k + seq!['='] + v
}

fn assign(k: &String, v: &String) -> (r: String)
    ensures
        r@ == assignment(k@, v@),
{
    let a = chars_of(k.as_str());
    let eq = chars_of("=");
    proof {
        reveal_strlit("=");
    }
    assert(eq@ == seq!['=']);
    let x = concat(a.as_slice(), eq.as_slice());
    let y = concat(x.as_slice(), chars_of(v.as_str()).as_slice());
    string_from(y.as_slice())
}

/// Each `(k, v)` as a flag and `k=v`.
pub open spec fn flagged_pairs(flag: Seq<char>, ps: Seq<(String, String)>) -> Seq<Seq<char>>
    decreases ps.len(),
{
    if ps.len() == 0 {
        Seq::<Seq<char>>::empty()
    } else {
        flagged_pairs(flag, ps.drop_last()) + seq![flag, assignment(ps.last().0@, ps.last().1@)]
    }
}

fn push_pairs(c: Command, flag: &str, ps: &Vec<(String, String)>) -> (r: Command)
    ensures
        r.program == c.program,
        r.privileged == c.privileged,
        string_views(r.args@) == string_views(c.args@) + flagged_pairs(flag@, ps@),
{
    let mut c = c;
    let ghost start = string_views(c.args@);
    let ghost prog = c.program;
    let ghost pr = c.privileged;
    let mut i: usize = 0;
    assert(ps@.take(0) == Seq::<(String, String)>::empty());
    while i < ps.len()
        invariant
            0 <= i <= ps@.len(),
            c.program == prog,
            c.privileged == pr,
            string_views(c.args@) == start + flagged_pairs(flag@, ps@.take(i as int)),
        decreases ps@.len() - i,
    {
        assert(ps@.take(i + 1).drop_last() == ps@.take(i as int));
        assert(ps@.take(i + 1).last() == ps@[i as int]);
        let kv = assign(&ps[i].0, &ps[i].1);
        c = c.arg(flag).arg_string(kv);
        i = i + 1;
    }
    assert(ps@.take(ps@.len() as int) == ps@);
    c
}

/// The `zpool create` arguments for a pool.
pub open spec fn pool_create_args(s: PoolSpec) -> Seq<Seq<char>> {
    seq!["create"@] + (if s.force { seq!["-f"@] } else { Seq::<Seq<char>>::empty() })
        + seq!["-o"@, "ashift="@ + dec(match s.ashift {
            Some(a) => a as nat,
            None => 12nat,
        })]
        + seq!["-O"@, "compression="@ + (match s.compression {
            Some(c) => c@,
            None => "lz4"@,
        })]
        + flagged_pairs("-O"@, s.root_properties@) + seq![s.name@] + vdev_arg_list(s.vdevs@)
}

fn text_then(a: &str, b: &[char]) -> (r: String)
    ensures
        r@ == a@ + b@,
{
    string_from(concat(chars_of(a).as_slice(), b).as_slice())
}

/// `zpool create`, through `pfexec`.
pub fn create_pool_command(spec: &PoolSpec) -> (c: Command)
    ensures
        c.program@ == "zpool"@,
        c.privileged,
        string_views(c.args@) == pool_create_args(*spec),
{
    let mut c = Command::new("zpool").arg("create").privileged();
    if spec.force {
        c = c.arg("-f");
    }
    let ashift: u64 = match spec.ashift {
        Some(a) => a as u64,
        None => 12,
    };
    c = c.arg("-o").arg_string(text_then("ashift=", dec_chars(ashift).as_slice()));
    let comp = match &spec.compression {
        Some(x) => chars_of(x.as_str()),
        None => chars_of("lz4"),
    };
    c = c.arg("-O").arg_string(text_then("compression=", comp.as_slice()));
    c = push_pairs(c, "-O", &spec.root_properties);
    c = c.arg(spec.name.as_str());
    let v = vdev_args(spec.vdevs.as_slice());
    let ghost before = string_views(c.args@);
    let mut i: usize = 0;
    while i < v.len()
        invariant
            0 <= i <= v@.len(),
            c.program@ == "zpool"@,
            c.privileged,
            string_views(c.args@) == before + string_views(v@).take(i as int),
        decreases v@.len() - i,
    {
        c = c.arg(v[i].as_str());
        assert(string_views(v@).take(i + 1) == string_views(v@).take(i as int).push(v@[i as int]@));
        i = i + 1;
    }
    assert(string_views(v@).take(v@.len() as int) == string_views(v@));
    c
}

/// The `zfs create` arguments for a dataset.
pub open spec fn dataset_create_args(s: DatasetSpec) -> Seq<Seq<char>> {
    seq!["create"@] + (if s.create_parents { seq!["-p"@] } else { Seq::<Seq<char>>::empty() })
        + flagged_pairs("-o"@, s.properties@)
        + (if s.kind == DatasetKind::Volume {
            (if s.sparse { seq!["-s"@] } else { Seq::<Seq<char>>::empty() }) + seq!["-V"@, dec(match s.volsize {
                Some(v) => v as nat,
                None => 0nat,
            })]
        } else {
            Seq::<Seq<char>>::empty()
        }) + seq![s.name@]
}

/// `zfs create`, through `pfexec`.
pub fn create_dataset_command(spec: &DatasetSpec) -> (c: Command)
    ensures
        c.program@ == "zfs"@,
        c.privileged,
        string_views(c.args@) == dataset_create_args(*spec),
{
    let mut c = Command::new("zfs").arg("create").privileged();
    if spec.create_parents {
        c = c.arg("-p");
    }
    c = push_pairs(c, "-o", &spec.properties);
    if spec.kind == DatasetKind::Volume {
        if spec.sparse {
            c = c.arg("-s");
        }
        let size: u64 = match spec.volsize {
            Some(v) => v,
            None => 0,
        };
        c = c.arg("-V").arg_string(string_from(dec_chars(size).as_slice()));
    }
    c.arg(spec.name.as_str())
}

/// Each `(k, v)` as `k=v`.
pub open spec fn assignments(ps: Seq<(String, String)>) -> Seq<Seq<char>>
    decreases ps.len(),
{
    if ps.len() == 0 {
        Seq::<Seq<char>>::empty()
    } else {
        assignments(ps.drop_last()).push(assignment(ps.last().0@, ps.last().1@))
    }
}

/// `zfs set k=v ... name`, through `pfexec`; nothing to run when there
/// are no properties.
pub fn set_properties_command(name: &str, props: &Vec<(String, String)>) -> (r: Option<Command>)
    ensures
        props@.len() == 0 <==> r is None,
        r matches Some(c) ==> c.program@ == "zfs"@ && c.privileged
            && string_views(c.args@) == seq!["set"@] + assignments(props@) + seq![name@],
{
    if props.len() == 0 {
        return None;
    }
    let mut c = Command::new("zfs").arg("set").privileged();
    let ghost start = string_views(c.args@);
    let mut i: usize = 0;
    assert(props@.take(0) == Seq::<(String, String)>::empty());
    while i < props.len()
        invariant
            0 <= i <= props@.len(),
            c.program@ == "zfs"@,
            c.privileged,
            string_views(c.args@) == start + assignments(props@.take(i as int)),
        decreases props@.len() - i,
    {
        assert(props@.take(i + 1).drop_last() == props@.take(i as int));
        assert(props@.take(i + 1).last() == props@[i as int]);
        c = c.arg_string(assign(&props[i].0, &props[i].1));
        i = i + 1;
    }
    assert(props@.take(props@.len() as int) == props@);
    Some(c.arg(name))
}

/// `zfs snapshot [-r] dataset@name`, through `pfexec`.
pub fn snapshot_command(dataset: &str, name: &str, recursive: bool) -> (c: Command)
    ensures
        c.program@ == "zfs"@,
        c.privileged,
        string_views(c.args@) == seq!["snapshot"@] + (if recursive { seq!["-r"@] } else { Seq::<Seq<char>>::empty() })
            + seq![dataset@ + seq!['@'] + name@],
{
    let mut c = Command::new("zfs").arg("snapshot").privileged();
    if recursive {
        c = c.arg("-r");
    }
    let at = chars_of("@");
    proof {
        reveal_strlit("@");
    }
    assert(at@ == seq!['@']);
    let a = concat(chars_of(dataset).as_slice(), at.as_slice());
    let full = concat(a.as_slice(), chars_of(name).as_slice());
    c.arg_string(string_from(full.as_slice()))
}

/// `zfs list` of snapshots: one dataset's (`-d 1`), or with its
/// descendants' (`-r`), or all when no dataset is named.
pub fn list_snapshots_command(dataset: Option<&str>, recursive: bool) -> (c: Command)
    ensures
        c.program@ == "zfs"@,
        !c.privileged,
        string_views(c.args@) == seq!["list"@, "-Hp"@, "-t"@, "snapshot"@, "-s"@, "creation"@, "-o"@,
            crate::zfs::parse::ZFS_SNAPSHOT_COLUMNS@] + (match dataset {
            Some(d) => (if recursive { seq!["-r"@] } else { seq!["-d"@, "1"@] }) + seq![d@],
            None => Seq::<Seq<char>>::empty(),
        }),
{
    let mut c = Command::new("zfs").args(&["list", "-Hp", "-t", "snapshot", "-s", "creation", "-o",
        crate::zfs::parse::ZFS_SNAPSHOT_COLUMNS]);
    match dataset {
        Some(d) => {
            c = if recursive { c.arg("-r") } else { c.arg("-d").arg("1") };
            c = c.arg(d);
        },
        None => {},
    }
    c
}

/// A `zfs` or `zpool` action with an optional flag, through `pfexec`:
/// `program verb [flag] name`.
pub fn flagged_command(program: &str, verb: &str, flag: &str, on: bool, name: &str) -> (c: Command)
    ensures
        c.program@ == program@,
        c.privileged,
        string_views(c.args@) == seq![verb@] + (if on { seq![flag@] } else { Seq::<Seq<char>>::empty() }) + seq![name@],
{
    let mut c = Command::new(program).arg(verb).privileged();
    if on {
        c = c.arg(flag);
    }
    c.arg(name)
}


/// A pool as the driver reports it: the `zpool list` row's figures with
/// the tree, scan, and status text `zpool status` gives.
pub fn pool_info(row: PoolListRow, status: PoolStatus) -> (p: PoolInfo)
    ensures
        p.name == row.name && p.health == row.health && p.size == row.size && p.allocated == row.allocated,
        p.free == row.free && p.fragmentation == row.fragmentation && p.capacity == row.capacity,
        p.dedup_ratio == row.dedup_ratio,
        p.vdevs == status.vdevs && p.scan == status.scan && p.status_text == status.status_text,
{
    PoolInfo {
        name: row.name,
        health: row.health,
        size: row.size,
        allocated: row.allocated,
        free: row.free,
        fragmentation: row.fragmentation,
        capacity: row.capacity,
        dedup_ratio: row.dedup_ratio,
        vdevs: status.vdevs,
        scan: status.scan,
        status_text: status.status_text,
    }
}

/// `zpool list -Hp -o <columns> [name]`.
pub fn zpool_list_command(name: Option<&str>) -> (c: Command)
    ensures
        c.program@ == "zpool"@,
        !c.privileged,
        string_views(c.args@) == seq!["list"@, "-Hp"@, "-o"@, ZPOOL_LIST_COLUMNS@] + (match name {
            Some(n) => seq![n@],
            None => Seq::<Seq<char>>::empty(),
        }),
{
    let c = Command::new("zpool").args(&["list", "-Hp", "-o", ZPOOL_LIST_COLUMNS]);
    match name {
        Some(n) => c.arg(n),
        None => c,
    }
}

/// `zpool status <name>`.
pub fn zpool_status_command(name: &str) -> (c: Command)
    ensures
        c.program@ == "zpool"@,
        !c.privileged,
        string_views(c.args@) == seq!["status"@, name@],
{
    Command::new("zpool").arg("status").arg(name)
}

/// `zfs list` of filesystems and volumes: all of them in name order, or
/// the one named.
pub fn zfs_list_command(name: Option<&str>) -> (c: Command)
    ensures
        c.program@ == "zfs"@,
        !c.privileged,
        string_views(c.args@) == seq!["list"@, "-Hp"@, "-t"@, "filesystem,volume"@] + (match name {
            Some(n) => seq!["-o"@, ZFS_LIST_COLUMNS@, n@],
            None => seq!["-s"@, "name"@, "-o"@, ZFS_LIST_COLUMNS@],
        }),
{
    let c = Command::new("zfs").args(&["list", "-Hp", "-t", "filesystem,volume"]);
    match name {
        Some(n) => c.args(&["-o", ZFS_LIST_COLUMNS]).arg(n),
        None => c.args(&["-s", "name", "-o", ZFS_LIST_COLUMNS]),
    }
}

/// `zfs list -Hp -t snapshot -o <columns> <name>`: one snapshot.
pub fn zfs_snapshot_command(name: &str) -> (c: Command)
    ensures
        c.program@ == "zfs"@,
        !c.privileged,
        string_views(c.args@) == seq!["list"@, "-Hp"@, "-t"@, "snapshot"@, "-o"@, ZFS_SNAPSHOT_COLUMNS@, name@],
{
    Command::new("zfs").args(&["list", "-Hp", "-t", "snapshot", "-o", ZFS_SNAPSHOT_COLUMNS]).arg(name)
}

/// `pfexec zfs clone <snapshot> <target>`.
pub fn clone_command(snapshot: &str, target: &str) -> (c: Command)
    ensures
        c.program@ == "zfs"@,
        c.privileged,
        string_views(c.args@) == seq!["clone"@, snapshot@, target@],
{
    Command::new("zfs").arg("clone").arg(snapshot).arg(target).privileged()
}

/// `diskinfo -Hp`.
pub fn diskinfo_command() -> (c: Command)
    ensures
        c.program@ == "diskinfo"@,
        !c.privileged,
        string_views(c.args@) == seq!["-Hp"@],
{
    Command::new("diskinfo").arg("-Hp")
}

/// The first object a listing of `name` gives, else that it is not there.
pub fn first_listed<T>(mut v: Vec<T>, name: &str) -> (r: Result<T, ZfsError>)
    ensures
        v@.len() > 0 ==> r == Ok::<T, ZfsError>(v@[0]),
        v@.len() == 0 ==> (r matches Err(ZfsError::NotFound(n)) && n@ == name@),
{
    if v.len() > 0 {
        Ok(v.remove(0))
    } else {
        Err(ZfsError::NotFound(name.to_owned()))
    }
}

} // verus!
