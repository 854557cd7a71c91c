//! The command lines the zones driver runs.
use vstd::prelude::*;
use crate::common::shell::{Command, string_views};
use crate::text::{chars_of, join, joined, string_from, views};
use crate::zones::types::InstallSource;

verus! {

/// The `zoneadm install` arguments for a source.
pub open spec fn install_words(s: InstallSource) -> Seq<Seq<char>> {
    match s {
        InstallSource::Packages => seq!["install"@],
        InstallSource::Archive(p) => seq!["install"@, "-s"@, p@],
        InstallSource::Prepared => seq!["install"@, "-x"@, "nodataset"@],
    }
}

/// The `zoneadm install` arguments for a source: an archive with `-s`, a
/// prepared zonepath with `-x nodataset`.
pub fn install_args(source: &InstallSource) -> (r: Vec<String>)
    ensures
        string_views(r@) == install_words(*source),
{
    let mut args: Vec<String> = Vec::new();
    args.push("install".to_owned());
    match source {
        InstallSource::Packages => {},
        InstallSource::Archive(path) => {
            args.push("-s".to_owned());
            args.push(path.clone());
        },
        InstallSource::Prepared => {
            args.push("-x".to_owned());
            args.push("nodataset".to_owned());
        },
    }
    assert(string_views(args@) == install_words(*source));
    args
}

/// `pfexec zonecfg -z <name> "<commands; ...>"`: the script is one
/// argument, never a shell string.
pub fn zonecfg_command(name: &str, commands: &Vec<String>) -> (c: Command)
    ensures
        c.program@ == "zonecfg"@,
        c.privileged,
        string_views(c.args@) == seq!["-z"@, name@, join(string_views(commands@), "; "@)],
{
    let mut parts: Vec<Vec<char>> = Vec::new();
    let mut i: usize = 0;
    while i < commands.len()
        invariant
            0 <= i <= commands@.len(),
            views(parts@) == string_views(commands@).take(i as int),
        decreases commands@.len() - i,
    {
        let ghost before = views(parts@);
        parts.push(chars_of(commands[i].as_str()));
        assert(views(parts@) == before.push(commands@[i as int]@));
        assert(string_views(commands@).take(i + 1) == string_views(commands@).take(i as int).push(commands@[i as int]@));
        i = i + 1;
    }
    assert(string_views(commands@).take(commands@.len() as int) == string_views(commands@));
    let script = joined(&parts, "; ");
    Command::new("zonecfg").arg("-z").arg(name).arg_string(string_from(script.as_slice())).privileged()
}

/// `pfexec zoneadm -z <name> <args...>`.
pub fn zoneadm_command(name: &str, args: &Vec<String>) -> (c: Command)
    ensures
        c.program@ == "zoneadm"@,
        c.privileged,
        string_views(c.args@) == seq!["-z"@, name@] + string_views(args@),
{
    let mut c = Command::new("zoneadm").arg("-z").arg(name);
    let ghost start = string_views(c.args@);
    let mut i: usize = 0;
    while i < args.len()
        invariant
            0 <= i <= args@.len(),
            c.program@ == "zoneadm"@,
            !c.privileged,
            string_views(c.args@) == start + string_views(args@).take(i as int),
        decreases args@.len() - i,
    {
        c = c.arg(args[i].as_str());
        assert(string_views(args@).take(i + 1) == string_views(args@).take(i as int).push(args@[i as int]@));
        i = i + 1;
    }
    assert(string_views(args@).take(args@.len() as int) == string_views(args@));
    c.privileged()
}

} // verus!
