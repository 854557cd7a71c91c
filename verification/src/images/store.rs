//! The commands the ZFS-backed store runs for each store step, and where a
//! payload is staged before import.
use vstd::prelude::*;
use crate::common::shell::{Command, string_views};
use crate::images::types::Compression;
use crate::images::IMAGE_SNAPSHOT;
use crate::text::{chars_of, concat, dec, dec_string, string_from};

verus! {

/// The datasets `prepare` makes sure exist under a pool.
pub open spec fn prepared_dataset(pool: Seq<char>, sub: Seq<char>) -> Seq<char> {
    pool + "/"@ + sub
}

fn joined3(a: &str, b: &str, c: &str) -> (r: String)
    ensures
        r@ == a@ + b@ + c@,
{
    let x = concat(chars_of(a).as_slice(), chars_of(b).as_slice());
    string_from(concat(x.as_slice(), chars_of(c).as_slice()).as_slice())
}

/// `pfexec zfs create -p <pool>/<sub>`.
fn create_parent(pool: &str, sub: &str) -> (r: Command)
    ensures
        r.program@ == "zfs"@,
        r.privileged,
        string_views(r.args@) == seq!["create"@, "-p"@, prepared_dataset(pool@, sub@)],
{
    let c = Command::new("zfs").arg("create").arg("-p").arg_string(joined3(pool, "/", sub)).privileged();
    assert(string_views(c.args@) =~= seq!["create"@, "-p"@, prepared_dataset(pool@, sub@)]);
    c
}

/// What `prepare` runs: the image, ISO, and staging datasets, then the
/// ISO and staging directories handed to the daemon's user.
pub fn prepare_commands(pool: &str, owner: &str) -> (r: Vec<Command>)
    ensures
        r@.len() == 4,
        forall|i: int| 0 <= i < 3 ==> (#[trigger] r@[i]).program@ == "zfs"@ && r@[i].privileged,
        string_views(r@[0].args@) == seq!["create"@, "-p"@, pool@ + "/images"@],
        string_views(r@[1].args@) == seq!["create"@, "-p"@, pool@ + "/images/iso"@],
        string_views(r@[2].args@) == seq!["create"@, "-p"@, pool@ + "/images/staging"@],
        r@[3].program@ == "chown"@,
        r@[3].privileged,
        string_views(r@[3].args@) == seq![owner@, "/"@ + pool@ + "/images/iso"@, "/"@ + pool@ + "/images/staging"@],
{
    proof {
        reveal_strlit("/");
        reveal_strlit("images");
        reveal_strlit("images/iso");
        reveal_strlit("images/staging");
        reveal_strlit("/images");
        reveal_strlit("/images/iso");
        reveal_strlit("/images/staging");
    }
    let mut v: Vec<Command> = Vec::new();
    v.push(create_parent(pool, "images"));
    v.push(create_parent(pool, "images/iso"));
    v.push(create_parent(pool, "images/staging"));
    let c = Command::new("chown").arg(owner)
        .arg_string(joined3("/", pool, "/images/iso"))
        .arg_string(joined3("/", pool, "/images/staging"))
        .privileged();
    v.push(c);
    assert(prepared_dataset(pool@, "images"@) =~= pool@ + "/images"@);
    assert(prepared_dataset(pool@, "images/iso"@) =~= pool@ + "/images/iso"@);
    assert(prepared_dataset(pool@, "images/staging"@) =~= pool@ + "/images/staging"@);
    assert(string_views(v@[3].args@) =~= seq![owner@, "/"@ + pool@ + "/images/iso"@, "/"@ + pool@ + "/images/staging"@]);
    v
}

/// Where a payload is downloaded before import.
pub open spec fn staging_file(pool: Seq<char>, id: Seq<char>) -> Seq<char> {
    "/"@ + pool + "/images/staging/"@ + id + ".part"@
}

/// Where a payload is downloaded before import.
pub fn staging_path(pool: &str, id: &str) -> (r: String)
    ensures
        r@ == staging_file(pool@, id@),
{
    let a = joined3("/", pool, "/images/staging/");
    let b = concat(chars_of(a.as_str()).as_slice(), chars_of(id).as_slice());
    string_from(concat(b.as_slice(), chars_of(".part").as_slice()).as_slice())
}

/// `pfexec zfs receive -u <dataset>`: the sink a ZFS stream is fed to.
pub fn receive_sink(dataset: &str) -> (r: Command)
    ensures
        r.program@ == "zfs"@,
        r.privileged,
        string_views(r.args@) == seq!["receive"@, "-u"@, dataset@],
{
    let c = Command::new("zfs").arg("receive").arg("-u").arg(dataset).privileged();
    assert(string_views(c.args@) =~= seq!["receive"@, "-u"@, dataset@]);
    c
}

/// `pfexec zfs create -V <size> <zvol>`.
pub fn create_volume_command(zvol: &str, size: u64) -> (r: Command)
    ensures
        r.program@ == "zfs"@,
        r.privileged,
        string_views(r.args@) == seq!["create"@, "-V"@, dec(size as nat), zvol@],
{
    let c = Command::new("zfs").arg("create").arg("-V").arg_string(dec_string(size)).arg(zvol).privileged();
    assert(string_views(c.args@) =~= seq!["create"@, "-V"@, dec(size as nat), zvol@]);
    c
}

/// `pfexec dd of=/dev/zvol/rdsk/<zvol> bs=1M`: the sink a raw image is
/// written through.
pub fn volume_sink(zvol: &str) -> (r: Command)
    ensures
        r.program@ == "dd"@,
        r.privileged,
        string_views(r.args@) == seq!["of=/dev/zvol/rdsk/"@ + zvol@, "bs=1M"@],
{
    let target = string_from(concat(chars_of("of=/dev/zvol/rdsk/").as_slice(), chars_of(zvol).as_slice()).as_slice());
    let c = Command::new("dd").arg_string(target).arg("bs=1M").privileged();
    assert(string_views(c.args@) =~= seq!["of=/dev/zvol/rdsk/"@ + zvol@, "bs=1M"@]);
    c
}

/// `pfexec zfs snapshot <dataset>@image`.
pub fn snapshot_command(dataset: &str) -> (r: Command)
    ensures
        r.program@ == "zfs"@,
        r.privileged,
        string_views(r.args@) == seq!["snapshot"@, dataset@ + "@"@ + IMAGE_SNAPSHOT@],
{
    let name = joined3(dataset, "@", IMAGE_SNAPSHOT);
    let c = Command::new("zfs").arg("snapshot").arg_string(name).privileged();
    assert(string_views(c.args@) =~= seq!["snapshot"@, dataset@ + "@"@ + IMAGE_SNAPSHOT@]);
    c
}

/// `pfexec zfs destroy -r <dataset>`.
pub fn destroy_command(dataset: &str) -> (r: Command)
    ensures
        r.program@ == "zfs"@,
        r.privileged,
        string_views(r.args@) == seq!["destroy"@, "-r"@, dataset@],
{
    let c = Command::new("zfs").arg("destroy").arg("-r").arg(dataset).privileged();
    assert(string_views(c.args@) =~= seq!["destroy"@, "-r"@, dataset@]);
    c
}

/// `[gzip -dc file] | sink`, or `cat file | sink` when plain: the
/// pipeline that feeds a staged file to a sink.
pub fn feed_pipeline(file: &str, compression: Compression, sink: Command) -> (r: Vec<Command>)
    ensures
        r@.len() == 2,
        r@[1] == sink,
        !r@[0].privileged,
        r@[0].program@ == (match compression {
            Compression::Plain => "cat"@,
            Compression::Gzip => "gzip"@,
            Compression::Xz => "xz"@,
        }),
        string_views(r@[0].args@) == (if compression == Compression::Plain {
            seq![file@]
        } else {
            seq!["-dc"@, file@]
        }),
{
    let first = match compression.decompressor() {
        Some(dec) => dec.arg(file),
        None => Command::new("cat").arg(file),
    };
    proof {
        if compression == Compression::Plain {
            assert(string_views(first.args@) =~= seq![file@]);
        } else {
            assert(string_views(first.args@) =~= seq!["-dc"@, file@]);
        }
    }
    let mut v: Vec<Command> = Vec::new();
    v.push(first);
    v.push(sink);
    v
}

} // verus!
