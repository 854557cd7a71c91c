//! What reading `zonecfg export` promises of every input: a NIC's MAC is
//! a fixed address or none, never the keyword `auto`.
use vstd::prelude::*;
use crate::zones::parse::{
    anet_of, export_fold, export_result_ok, export_step, finish, nic_view, prop_get, ExportAcc,
};
use crate::zones::types::{ZoneConfig, ZoneError, ZoneSummary};
use crate::zones::parse::zone_row_ok;
use crate::common::zone::zone_state_of;
use crate::net::parse::opt_view;
use crate::zones::parse::{ResView, zone_size};
use crate::text::parse_unsigned;

verus! {

/// An `anet` block's NIC has the block's (first) `mac-address` as its
/// MAC, unless that is the keyword `auto`, which leaves the NIC without
/// one; a block with no `mac-address` gives none either.
pub proof fn lemma_anet_mac(props: Seq<(Seq<char>, Seq<char>)>)
    ensures
        prop_get(props, "mac-address"@) == Some("auto"@) ==> anet_of(props).mac is None,
        prop_get(props, "mac-address"@) is None ==> anet_of(props).mac is None,
        forall|m: Seq<char>| prop_get(props, "mac-address"@) == Some(m) && m != "auto"@
            ==> #[trigger] anet_of(props).mac == Some(m),
        anet_of(props).mac != Some("auto"@),
{
}

/// No NIC gathered from any lines of `zonecfg export` has the MAC `auto`.
pub proof fn lemma_export_no_auto_mac(ls: Seq<Seq<char>>)
    ensures
        forall|i: int| 0 <= i < export_fold(ls).nics.len() ==> #[trigger] export_fold(ls).nics[i].mac != Some(
            "auto"@),
    decreases ls.len(),
{
    if ls.len() > 0 {
        lemma_export_no_auto_mac(ls.drop_last());
        let a = export_fold(ls.drop_last());
        let b = export_fold(ls);
        assert(b == export_step(a, ls.last()));
        match a.res {
            Some(r) => {
                lemma_anet_mac(r.props);
                let c = ExportAcc { res: None, ..a };
                assert(c.nics == a.nics);
                if r.kind == "anet"@ {
                    assert(finish(c, r).nics == a.nics.push(anet_of(r.props)));
                } else {
                    assert(finish(c, r).nics == a.nics);
                }
            },
            None => {},
        }
        assert forall|i: int| 0 <= i < b.nics.len() implies #[trigger] b.nics[i].mac != Some("auto"@) by {
            if i < a.nics.len() && b.nics.len() >= a.nics.len() {
                assert(a.nics[i].mac != Some("auto"@));
            }
        }
    }
}

/// A configuration read from `zonecfg export` has no NIC whose MAC is
/// `auto`.
pub proof fn lemma_config_no_auto_mac(r: Result<ZoneConfig, ZoneError>, name: Seq<char>, out: Seq<char>)
    requires
        export_result_ok(r, name, out),
    ensures
        r matches Ok(c) ==> forall|i: int| 0 <= i < c.nics@.len() ==> #[trigger] nic_view(c.nics@[i]).mac != Some(
            "auto"@),
{
    if r is Ok {
        let c = r->Ok_0;
        lemma_export_no_auto_mac(crate::text::lines(out));
        let a = export_fold(crate::text::lines(out));
        assert forall|i: int| 0 <= i < c.nics@.len() implies #[trigger] nic_view(c.nics@[i]).mac != Some("auto"@) by {
            assert(crate::zones::parse::nic_views(c.nics@)[i] == nic_view(c.nics@[i]));
            assert(a.nics[i] == nic_view(c.nics@[i]));
        }
    }
}

/// An `anet` block's NIC takes its name from `linkname`, the link it sits
/// on from `lower-link`, its VLAN from `vlan-id`, its allowed address from
/// `allowed-address` and its router from `defrouter` (the first of each
/// set in the block).
pub proof fn lemma_anet_fields(props: Seq<(Seq<char>, Seq<char>)>)
    ensures
        prop_get(props, "linkname"@) matches Some(n) ==> anet_of(props).name == n,
        prop_get(props, "linkname"@) is None ==> anet_of(props).name.len() == 0,
        prop_get(props, "lower-link"@) matches Some(o) ==> anet_of(props).over == o,
        prop_get(props, "lower-link"@) is None ==> anet_of(props).over.len() == 0,
        anet_of(props).address == prop_get(props, "allowed-address"@),
        anet_of(props).gateway == prop_get(props, "defrouter"@),
        prop_get(props, "vlan-id"@) is None ==> anet_of(props).vid is None,
        anet_of(props).vid matches Some(v) ==> prop_get(props, "vlan-id"@) matches Some(t)
            && parse_unsigned(t, 10, u16::MAX as int) matches Some(n) && v == n as u16,
{
}

/// Closing a block adds to the configuration what its kind names: a NIC
/// for `anet`, the CPU cap from `capped-cpu`'s `ncpus`, the memory cap
/// from `capped-memory`'s `physical`, a dataset from `dataset`'s `name`, a
/// device pattern from `device`'s `match`; other parts stay as they were.
pub proof fn lemma_finish_kinds(acc: ExportAcc, r: ResView)
    ensures
        r.kind == "anet"@ ==> finish(acc, r).nics == acc.nics.push(anet_of(r.props)),
        r.kind != "anet"@ ==> finish(acc, r).nics == acc.nics,
        r.kind == "capped-memory"@ ==> finish(acc, r).memory_cap == (match prop_get(r.props, "physical"@) {
            Some(p) => zone_size(p),
            None => None,
        }),
        r.kind != "capped-memory"@ ==> finish(acc, r).memory_cap == acc.memory_cap,
        r.kind == "capped-cpu"@ && prop_get(r.props, "ncpus"@) is None ==> finish(acc, r).cpu_cap is None,
        r.kind == "capped-cpu"@ ==> (finish(acc, r).cpu_cap matches Some(c) ==> prop_get(r.props, "ncpus"@) == Some(c)),
        r.kind != "capped-cpu"@ ==> finish(acc, r).cpu_cap == acc.cpu_cap,
        r.kind == "dataset"@ ==> finish(acc, r).datasets == (match prop_get(r.props, "name"@) {
            Some(n) => acc.datasets.push(n),
            None => acc.datasets,
        }),
        r.kind != "dataset"@ ==> finish(acc, r).datasets == acc.datasets,
        r.kind == "device"@ ==> finish(acc, r).devices == (match prop_get(r.props, "match"@) {
            Some(m) => acc.devices.push(m),
            None => acc.devices,
        }),
        r.kind != "device"@ ==> finish(acc, r).devices == acc.devices,
        r.kind != "attr"@ ==> finish(acc, r).attrs == acc.attrs,
        finish(acc, r).brand == acc.brand && finish(acc, r).zonepath == acc.zonepath,
{
    reveal_strlit("anet");
    reveal_strlit("capped-cpu");
    reveal_strlit("capped-memory");
    reveal_strlit("attr");
    reveal_strlit("dataset");
    reveal_strlit("device");
    reveal_strlit("fs");
    assert("anet"@ != "capped-cpu"@) by { assert("anet"@.len() != "capped-cpu"@.len()); }
    assert("anet"@ != "capped-memory"@) by { assert("anet"@.len() != "capped-memory"@.len()); }
    assert("anet"@ != "attr"@) by { assert("anet"@[1] != "attr"@[1]); }
    assert("anet"@ != "dataset"@) by { assert("anet"@.len() != "dataset"@.len()); }
    assert("anet"@ != "device"@) by { assert("anet"@.len() != "device"@.len()); }
    assert("anet"@ != "fs"@) by { assert("anet"@.len() != "fs"@.len()); }
    assert("capped-cpu"@ != "capped-memory"@) by { assert("capped-cpu"@.len() != "capped-memory"@.len()); }
    assert("capped-cpu"@ != "attr"@) by { assert("capped-cpu"@.len() != "attr"@.len()); }
    assert("capped-cpu"@ != "dataset"@) by { assert("capped-cpu"@.len() != "dataset"@.len()); }
    assert("capped-cpu"@ != "device"@) by { assert("capped-cpu"@.len() != "device"@.len()); }
    assert("capped-cpu"@ != "fs"@) by { assert("capped-cpu"@.len() != "fs"@.len()); }
    assert("capped-memory"@ != "attr"@) by { assert("capped-memory"@.len() != "attr"@.len()); }
    assert("capped-memory"@ != "dataset"@) by { assert("capped-memory"@.len() != "dataset"@.len()); }
    assert("capped-memory"@ != "device"@) by { assert("capped-memory"@.len() != "device"@.len()); }
    assert("capped-memory"@ != "fs"@) by { assert("capped-memory"@.len() != "fs"@.len()); }
    assert("attr"@ != "dataset"@) by { assert("attr"@.len() != "dataset"@.len()); }
    assert("attr"@ != "device"@) by { assert("attr"@.len() != "device"@.len()); }
    assert("attr"@ != "fs"@) by { assert("attr"@.len() != "fs"@.len()); }
    assert("dataset"@ != "device"@) by { assert("dataset"@.len() != "device"@.len()); }
    assert("dataset"@ != "fs"@) by { assert("dataset"@.len() != "fs"@.len()); }
    assert("device"@ != "fs"@) by { assert("device"@.len() != "fs"@.len()); }
}

/// The fields of a `zoneadm list -p` line, in order, as `zoneadm(8)`
/// documents its parsable output.
pub open spec fn zoneadm_fields() -> Seq<Seq<char>> {
    seq!["zoneid"@, "zonename"@, "state"@, "zonepath"@, "uuid"@, "brand"@, "ip-type"@]
}

/// Each part of a zone read from `zoneadm list -p` comes from the field of
/// that name: its name from `zonename`, its state from `state`, and so on;
/// an empty `uuid` is none, and the IP stack is exclusive exactly when
/// `ip-type` is `excl`.
pub proof fn lemma_zoneadm_fields(z: ZoneSummary, f: Seq<Seq<char>>, i: int)
    requires
        zone_row_ok(z, f),
        0 <= i < zoneadm_fields().len(),
    ensures
        zoneadm_fields()[i] == "zonename"@ ==> (z.name@ == f[i]),
        zoneadm_fields()[i] == "state"@ ==> (z.state == zone_state_of(f[i])),
        zoneadm_fields()[i] == "zonepath"@ ==> (z.zonepath@ == f[i]),
        zoneadm_fields()[i] == "uuid"@ ==> (opt_view(z.uuid) == (if f[i].len() == 0 { None } else { Some(f[i]) })),
        zoneadm_fields()[i] == "brand"@ ==> (z.brand@ == f[i]),
        zoneadm_fields()[i] == "ip-type"@ ==> (z.exclusive_ip == (f[i] == "excl"@)),
{
    let c = zoneadm_fields();
    reveal_strlit("zoneid");
    reveal_strlit("zonename");
    reveal_strlit("state");
    reveal_strlit("zonepath");
    reveal_strlit("uuid");
    reveal_strlit("brand");
    reveal_strlit("ip-type");
    if i == 0 {
        assert(c[0] == "zoneid"@);
        assert("zoneid"@ != "zonename"@) by { assert("zoneid"@.len() != "zonename"@.len()); }
        assert("zoneid"@ != "state"@) by { assert("zoneid"@.len() != "state"@.len()); }
        assert("zoneid"@ != "zonepath"@) by { assert("zoneid"@.len() != "zonepath"@.len()); }
        assert("zoneid"@ != "uuid"@) by { assert("zoneid"@.len() != "uuid"@.len()); }
        assert("zoneid"@ != "brand"@) by { assert("zoneid"@.len() != "brand"@.len()); }
        assert("zoneid"@ != "ip-type"@) by { assert("zoneid"@.len() != "ip-type"@.len()); }
    }
    if i == 1 {
        assert(c[1] == "zonename"@);
        assert("zonename"@ != "state"@) by { assert("zonename"@.len() != "state"@.len()); }
        assert("zonename"@ != "zonepath"@) by { assert("zonename"@[4] != "zonepath"@[4]); }
        assert("zonename"@ != "uuid"@) by { assert("zonename"@.len() != "uuid"@.len()); }
        assert("zonename"@ != "brand"@) by { assert("zonename"@.len() != "brand"@.len()); }
        assert("zonename"@ != "ip-type"@) by { assert("zonename"@.len() != "ip-type"@.len()); }
    }
    if i == 2 {
        assert(c[2] == "state"@);
        assert("state"@ != "zonename"@) by { assert("state"@.len() != "zonename"@.len()); }
        assert("state"@ != "zonepath"@) by { assert("state"@.len() != "zonepath"@.len()); }
        assert("state"@ != "uuid"@) by { assert("state"@.len() != "uuid"@.len()); }
        assert("state"@ != "brand"@) by { assert("state"@[0] != "brand"@[0]); }
        assert("state"@ != "ip-type"@) by { assert("state"@.len() != "ip-type"@.len()); }
    }
    if i == 3 {
        assert(c[3] == "zonepath"@);
        assert("zonepath"@ != "zonename"@) by { assert("zonepath"@[4] != "zonename"@[4]); }
        assert("zonepath"@ != "state"@) by { assert("zonepath"@.len() != "state"@.len()); }
        assert("zonepath"@ != "uuid"@) by { assert("zonepath"@.len() != "uuid"@.len()); }
        assert("zonepath"@ != "brand"@) by { assert("zonepath"@.len() != "brand"@.len()); }
        assert("zonepath"@ != "ip-type"@) by { assert("zonepath"@.len() != "ip-type"@.len()); }
    }
    if i == 4 {
        assert(c[4] == "uuid"@);
        assert("uuid"@ != "zonename"@) by { assert("uuid"@.len() != "zonename"@.len()); }
        assert("uuid"@ != "state"@) by { assert("uuid"@.len() != "state"@.len()); }
        assert("uuid"@ != "zonepath"@) by { assert("uuid"@.len() != "zonepath"@.len()); }
        assert("uuid"@ != "brand"@) by { assert("uuid"@.len() != "brand"@.len()); }
        assert("uuid"@ != "ip-type"@) by { assert("uuid"@.len() != "ip-type"@.len()); }
    }
    if i == 5 {
        assert(c[5] == "brand"@);
        assert("brand"@ != "zonename"@) by { assert("brand"@.len() != "zonename"@.len()); }
        assert("brand"@ != "state"@) by { assert("brand"@[0] != "state"@[0]); }
        assert("brand"@ != "zonepath"@) by { assert("brand"@.len() != "zonepath"@.len()); }
        assert("brand"@ != "uuid"@) by { assert("brand"@.len() != "uuid"@.len()); }
        assert("brand"@ != "ip-type"@) by { assert("brand"@.len() != "ip-type"@.len()); }
    }
    if i == 6 {
        assert(c[6] == "ip-type"@);
        assert("ip-type"@ != "zonename"@) by { assert("ip-type"@.len() != "zonename"@.len()); }
        assert("ip-type"@ != "state"@) by { assert("ip-type"@.len() != "state"@.len()); }
        assert("ip-type"@ != "zonepath"@) by { assert("ip-type"@.len() != "zonepath"@.len()); }
        assert("ip-type"@ != "uuid"@) by { assert("ip-type"@.len() != "uuid"@.len()); }
        assert("ip-type"@ != "brand"@) by { assert("ip-type"@.len() != "brand"@.len()); }
    }
}

} // verus!
