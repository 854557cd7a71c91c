//! Which column of `dladm` and `ipadm` output each field of a parsed row
//! comes from, by the column's name.
use vstd::prelude::*;
use crate::common::network::{address_kind_of, kind_of_class, lacp_mode_of, lacp_timer_of, mac_mode_of, state_of};
use crate::common::shell::string_views;
use crate::net::laws::{lemma_show_vnic_columns, show_vnic_columns};
use crate::net::parse::{
    AggrPortRow, AggrRow, LinkRow, PhysRow, SHOW_ADDR_COLUMNS, SHOW_AGGR_COLUMNS, SHOW_AGGR_PORT_COLUMNS,
    SHOW_IF_COLUMNS, SHOW_LINK_COLUMNS, SHOW_PHYS_COLUMNS, SHOW_VLAN_COLUMNS, SHOW_VNIC_COLUMNS, VlanRow, VnicRow,
    addr_row_ok, address_family, aggr_row_ok, duplex_field, if_row_ok, is_na, link_row_ok, mac_field, opt_field,
    opt_is, opt_u32, over_list, phys_row_ok, port_row_ok, speed_of, vid_field, vlan_row_ok, vnic_row_ok,
};
use crate::net::types::{AddressInfo, InterfaceInfo, interface_part};
use crate::text::{join, parse_unsigned};
use crate::zfs::laws::lemma_join_take;

verus! {

/// The columns `dladm show-link` is asked for, in order.
pub open spec fn show_link_columns() -> Seq<Seq<char>> {
    seq!["link"@, "class"@, "mtu"@, "state"@, "bridge"@, "over"@]
}

#[verifier::rlimit(100)]
proof fn lemma_show_link_columns_text()
    ensures
        SHOW_LINK_COLUMNS@ == "link"@ + ","@ + "class"@ + ","@ + "mtu"@ + ","@ + "state"@ + ","@ + "bridge"@ + ","@ + "over"@,
{
    reveal_strlit(",");
    reveal_strlit("link");
    reveal_strlit("class");
    reveal_strlit("mtu");
    reveal_strlit("state");
    reveal_strlit("bridge");
    reveal_strlit("over");
    reveal_strlit("link,class,mtu,state,bridge,over");
    assert(SHOW_LINK_COLUMNS@ =~= "link"@ + ","@ + "class"@ + ","@ + "mtu"@ + ","@ + "state"@ + ","@ + "bridge"@ + ","@ + "over"@);
}

/// The column list sent to `dladm show-link` is those columns, comma-joined.
pub proof fn lemma_show_link_columns()
    ensures
        join(show_link_columns(), ","@) == SHOW_LINK_COLUMNS@,
{
    let c = show_link_columns();
    let s = ","@;
    assert(c.take(1) =~= seq![c[0]]);
    lemma_join_take(c, s, 1);
    lemma_join_take(c, s, 2);
    lemma_join_take(c, s, 3);
    lemma_join_take(c, s, 4);
    lemma_join_take(c, s, 5);
    assert(c.take(6) =~= c);
    lemma_show_link_columns_text();
}

/// Each field of a row read from `dladm show-link` comes from the column of that
/// name.
#[verifier::rlimit(100)]
pub proof fn lemma_show_link_fields(r: LinkRow, f: Seq<Seq<char>>, i: int)
    requires
        link_row_ok(r, f),
        0 <= i < show_link_columns().len(),
    ensures
        join(show_link_columns(), ","@) == SHOW_LINK_COLUMNS@,
        show_link_columns()[i] == "link"@ ==> (r.name@ == f[i]),
        show_link_columns()[i] == "class"@ ==> (r.kind == kind_of_class(f[i])),
        show_link_columns()[i] == "mtu"@ ==> (r.mtu == opt_u32(f[i])),
        show_link_columns()[i] == "state"@ ==> (r.state == state_of(f[i])),
        show_link_columns()[i] == "over"@ ==> (string_views(r.over@) == over_list(f[i])),
{
    lemma_show_link_columns();
    let c = show_link_columns();
    reveal_strlit("link");
    reveal_strlit("class");
    reveal_strlit("mtu");
    reveal_strlit("state");
    reveal_strlit("bridge");
    reveal_strlit("over");
    if i == 0 {
        assert(c[0] == "link"@);
        assert("link"@ != "class"@) by { assert("link"@.len() != "class"@.len()); }
        assert("link"@ != "mtu"@) by { assert("link"@.len() != "mtu"@.len()); }
        assert("link"@ != "state"@) by { assert("link"@.len() != "state"@.len()); }
        assert("link"@ != "over"@) by { assert("link"@[0] != "over"@[0]); }
    }
    if i == 1 {
        assert(c[1] == "class"@);
        assert("class"@ != "link"@) by { assert("class"@.len() != "link"@.len()); }
        assert("class"@ != "mtu"@) by { assert("class"@.len() != "mtu"@.len()); }
        assert("class"@ != "state"@) by { assert("class"@[0] != "state"@[0]); }
        assert("class"@ != "over"@) by { assert("class"@.len() != "over"@.len()); }
    }
    if i == 2 {
        assert(c[2] == "mtu"@);
        assert("mtu"@ != "link"@) by { assert("mtu"@.len() != "link"@.len()); }
        assert("mtu"@ != "class"@) by { assert("mtu"@.len() != "class"@.len()); }
        assert("mtu"@ != "state"@) by { assert("mtu"@.len() != "state"@.len()); }
        assert("mtu"@ != "over"@) by { assert("mtu"@.len() != "over"@.len()); }
    }
    if i == 3 {
        assert(c[3] == "state"@);
        assert("state"@ != "link"@) by { assert("state"@.len() != "link"@.len()); }
        assert("state"@ != "class"@) by { assert("state"@[0] != "class"@[0]); }
        assert("state"@ != "mtu"@) by { assert("state"@.len() != "mtu"@.len()); }
        assert("state"@ != "over"@) by { assert("state"@.len() != "over"@.len()); }
    }
    if i == 4 {
        assert(c[4] == "bridge"@);
        assert("bridge"@ != "link"@) by { assert("bridge"@.len() != "link"@.len()); }
        assert("bridge"@ != "class"@) by { assert("bridge"@.len() != "class"@.len()); }
        assert("bridge"@ != "mtu"@) by { assert("bridge"@.len() != "mtu"@.len()); }
        assert("bridge"@ != "state"@) by { assert("bridge"@.len() != "state"@.len()); }
        assert("bridge"@ != "over"@) by { assert("bridge"@.len() != "over"@.len()); }
    }
    if i == 5 {
        assert(c[5] == "over"@);
        assert("over"@ != "link"@) by { assert("over"@[0] != "link"@[0]); }
        assert("over"@ != "class"@) by { assert("over"@.len() != "class"@.len()); }
        assert("over"@ != "mtu"@) by { assert("over"@.len() != "mtu"@.len()); }
        assert("over"@ != "state"@) by { assert("over"@.len() != "state"@.len()); }
    }
}

/// The columns `dladm show-phys` is asked for, in order.
pub open spec fn show_phys_columns() -> Seq<Seq<char>> {
    seq!["link"@, "media"@, "state"@, "speed"@, "duplex"@, "device"@]
}

#[verifier::rlimit(100)]
proof fn lemma_show_phys_columns_text()
    ensures
        SHOW_PHYS_COLUMNS@ == "link"@ + ","@ + "media"@ + ","@ + "state"@ + ","@ + "speed"@ + ","@ + "duplex"@ + ","@ + "device"@,
{
    reveal_strlit(",");
    reveal_strlit("link");
    reveal_strlit("media");
    reveal_strlit("state");
    reveal_strlit("speed");
    reveal_strlit("duplex");
    reveal_strlit("device");
    reveal_strlit("link,media,state,speed,duplex,device");
    assert(SHOW_PHYS_COLUMNS@ =~= "link"@ + ","@ + "media"@ + ","@ + "state"@ + ","@ + "speed"@ + ","@ + "duplex"@ + ","@ + "device"@);
}

/// The column list sent to `dladm show-phys` is those columns, comma-joined.
pub proof fn lemma_show_phys_columns()
    ensures
        join(show_phys_columns(), ","@) == SHOW_PHYS_COLUMNS@,
{
    let c = show_phys_columns();
    let s = ","@;
    assert(c.take(1) =~= seq![c[0]]);
    lemma_join_take(c, s, 1);
    lemma_join_take(c, s, 2);
    lemma_join_take(c, s, 3);
    lemma_join_take(c, s, 4);
    lemma_join_take(c, s, 5);
    assert(c.take(6) =~= c);
    lemma_show_phys_columns_text();
}

/// Each field of a row read from `dladm show-phys` comes from the column of that
/// name.
#[verifier::rlimit(100)]
pub proof fn lemma_show_phys_fields(r: PhysRow, f: Seq<Seq<char>>, i: int)
    requires
        phys_row_ok(r, f),
        0 <= i < show_phys_columns().len(),
    ensures
        join(show_phys_columns(), ","@) == SHOW_PHYS_COLUMNS@,
        show_phys_columns()[i] == "link"@ ==> (r.name@ == f[i]),
        show_phys_columns()[i] == "media"@ ==> (opt_is(r.media, f[i])),
        show_phys_columns()[i] == "state"@ ==> (r.state == state_of(f[i])),
        show_phys_columns()[i] == "speed"@ ==> (r.speed_mbps == speed_of(f[i])),
        show_phys_columns()[i] == "duplex"@ ==> (r.duplex == duplex_field(f[i])),
        show_phys_columns()[i] == "device"@ ==> (opt_is(r.device, f[i])),
{
    lemma_show_phys_columns();
    let c = show_phys_columns();
    reveal_strlit("link");
    reveal_strlit("media");
    reveal_strlit("state");
    reveal_strlit("speed");
    reveal_strlit("duplex");
    reveal_strlit("device");
    if i == 0 {
        assert(c[0] == "link"@);
        assert("link"@ != "media"@) by { assert("link"@.len() != "media"@.len()); }
        assert("link"@ != "state"@) by { assert("link"@.len() != "state"@.len()); }
        assert("link"@ != "speed"@) by { assert("link"@.len() != "speed"@.len()); }
        assert("link"@ != "duplex"@) by { assert("link"@.len() != "duplex"@.len()); }
        assert("link"@ != "device"@) by { assert("link"@.len() != "device"@.len()); }
    }
    if i == 1 {
        assert(c[1] == "media"@);
        assert("media"@ != "link"@) by { assert("media"@.len() != "link"@.len()); }
        assert("media"@ != "state"@) by { assert("media"@[0] != "state"@[0]); }
        assert("media"@ != "speed"@) by { assert("media"@[0] != "speed"@[0]); }
        assert("media"@ != "duplex"@) by { assert("media"@.len() != "duplex"@.len()); }
        assert("media"@ != "device"@) by { assert("media"@.len() != "device"@.len()); }
    }
    if i == 2 {
        assert(c[2] == "state"@);
        assert("state"@ != "link"@) by { assert("state"@.len() != "link"@.len()); }
        assert("state"@ != "media"@) by { assert("state"@[0] != "media"@[0]); }
        assert("state"@ != "speed"@) by { assert("state"@[1] != "speed"@[1]); }
        assert("state"@ != "duplex"@) by { assert("state"@.len() != "duplex"@.len()); }
        assert("state"@ != "device"@) by { assert("state"@.len() != "device"@.len()); }
    }
    if i == 3 {
        assert(c[3] == "speed"@);
        assert("speed"@ != "link"@) by { assert("speed"@.len() != "link"@.len()); }
        assert("speed"@ != "media"@) by { assert("speed"@[0] != "media"@[0]); }
        assert("speed"@ != "state"@) by { assert("speed"@[1] != "state"@[1]); }
        assert("speed"@ != "duplex"@) by { assert("speed"@.len() != "duplex"@.len()); }
        assert("speed"@ != "device"@) by { assert("speed"@.len() != "device"@.len()); }
    }
    if i == 4 {
        assert(c[4] == "duplex"@);
        assert("duplex"@ != "link"@) by { assert("duplex"@.len() != "link"@.len()); }
        assert("duplex"@ != "media"@) by { assert("duplex"@.len() != "media"@.len()); }
        assert("duplex"@ != "state"@) by { assert("duplex"@.len() != "state"@.len()); }
        assert("duplex"@ != "speed"@) by { assert("duplex"@.len() != "speed"@.len()); }
        assert("duplex"@ != "device"@) by { assert("duplex"@[1] != "device"@[1]); }
    }
    if i == 5 {
        assert(c[5] == "device"@);
        assert("device"@ != "link"@) by { assert("device"@.len() != "link"@.len()); }
        assert("device"@ != "media"@) by { assert("device"@.len() != "media"@.len()); }
        assert("device"@ != "state"@) by { assert("device"@.len() != "state"@.len()); }
        assert("device"@ != "speed"@) by { assert("device"@.len() != "speed"@.len()); }
        assert("device"@ != "duplex"@) by { assert("device"@[1] != "duplex"@[1]); }
    }
}

/// The columns `dladm show-aggr` is asked for, in order.
pub open spec fn show_aggr_columns() -> Seq<Seq<char>> {
    seq!["link"@, "policy"@, "addrpolicy"@, "lacpactivity"@, "lacptimer"@, "flags"@]
}

#[verifier::rlimit(100)]
proof fn lemma_show_aggr_columns_text()
    ensures
        SHOW_AGGR_COLUMNS@ == "link"@ + ","@ + "policy"@ + ","@ + "addrpolicy"@ + ","@ + "lacpactivity"@ + ","@ + "lacptimer"@ + ","@ + "flags"@,
{
    reveal_strlit(",");
    reveal_strlit("link");
    reveal_strlit("policy");
    reveal_strlit("addrpolicy");
    reveal_strlit("lacpactivity");
    reveal_strlit("lacptimer");
    reveal_strlit("flags");
    reveal_strlit("link,policy,addrpolicy,lacpactivity,lacptimer,flags");
    assert(SHOW_AGGR_COLUMNS@ =~= "link"@ + ","@ + "policy"@ + ","@ + "addrpolicy"@ + ","@ + "lacpactivity"@ + ","@ + "lacptimer"@ + ","@ + "flags"@);
}

/// The column list sent to `dladm show-aggr` is those columns, comma-joined.
pub proof fn lemma_show_aggr_columns()
    ensures
        join(show_aggr_columns(), ","@) == SHOW_AGGR_COLUMNS@,
{
    let c = show_aggr_columns();
    let s = ","@;
    assert(c.take(1) =~= seq![c[0]]);
    lemma_join_take(c, s, 1);
    lemma_join_take(c, s, 2);
    lemma_join_take(c, s, 3);
    lemma_join_take(c, s, 4);
    lemma_join_take(c, s, 5);
    assert(c.take(6) =~= c);
    lemma_show_aggr_columns_text();
}

/// Each field of a row read from `dladm show-aggr` comes from the column of that
/// name.
#[verifier::rlimit(100)]
pub proof fn lemma_show_aggr_fields(r: AggrRow, f: Seq<Seq<char>>, i: int)
    requires
        aggr_row_ok(r, f),
        0 <= i < show_aggr_columns().len(),
    ensures
        join(show_aggr_columns(), ","@) == SHOW_AGGR_COLUMNS@,
        show_aggr_columns()[i] == "link"@ ==> (r.name@ == f[i]),
        show_aggr_columns()[i] == "policy"@ ==> (r.policy@ == f[i]),
        show_aggr_columns()[i] == "lacpactivity"@ ==> (r.lacp_mode == lacp_mode_of(f[i])),
        show_aggr_columns()[i] == "lacptimer"@ ==> (r.lacp_timer == lacp_timer_of(f[i])),
{
    lemma_show_aggr_columns();
    let c = show_aggr_columns();
    reveal_strlit("link");
    reveal_strlit("policy");
    reveal_strlit("addrpolicy");
    reveal_strlit("lacpactivity");
    reveal_strlit("lacptimer");
    reveal_strlit("flags");
    if i == 0 {
        assert(c[0] == "link"@);
        assert("link"@ != "policy"@) by { assert("link"@.len() != "policy"@.len()); }
        assert("link"@ != "lacpactivity"@) by { assert("link"@.len() != "lacpactivity"@.len()); }
        assert("link"@ != "lacptimer"@) by { assert("link"@.len() != "lacptimer"@.len()); }
    }
    if i == 1 {
        assert(c[1] == "policy"@);
        assert("policy"@ != "link"@) by { assert("policy"@.len() != "link"@.len()); }
        assert("policy"@ != "lacpactivity"@) by { assert("policy"@.len() != "lacpactivity"@.len()); }
        assert("policy"@ != "lacptimer"@) by { assert("policy"@.len() != "lacptimer"@.len()); }
    }
    if i == 2 {
        assert(c[2] == "addrpolicy"@);
        assert("addrpolicy"@ != "link"@) by { assert("addrpolicy"@.len() != "link"@.len()); }
        assert("addrpolicy"@ != "policy"@) by { assert("addrpolicy"@.len() != "policy"@.len()); }
        assert("addrpolicy"@ != "lacpactivity"@) by { assert("addrpolicy"@.len() != "lacpactivity"@.len()); }
        assert("addrpolicy"@ != "lacptimer"@) by { assert("addrpolicy"@.len() != "lacptimer"@.len()); }
    }
    if i == 3 {
        assert(c[3] == "lacpactivity"@);
        assert("lacpactivity"@ != "link"@) by { assert("lacpactivity"@.len() != "link"@.len()); }
        assert("lacpactivity"@ != "policy"@) by { assert("lacpactivity"@.len() != "policy"@.len()); }
        assert("lacpactivity"@ != "lacptimer"@) by { assert("lacpactivity"@.len() != "lacptimer"@.len()); }
    }
    if i == 4 {
        assert(c[4] == "lacptimer"@);
        assert("lacptimer"@ != "link"@) by { assert("lacptimer"@.len() != "link"@.len()); }
        assert("lacptimer"@ != "policy"@) by { assert("lacptimer"@.len() != "policy"@.len()); }
        assert("lacptimer"@ != "lacpactivity"@) by { assert("lacptimer"@.len() != "lacpactivity"@.len()); }
    }
    if i == 5 {
        assert(c[5] == "flags"@);
        assert("flags"@ != "link"@) by { assert("flags"@.len() != "link"@.len()); }
        assert("flags"@ != "policy"@) by { assert("flags"@.len() != "policy"@.len()); }
        assert("flags"@ != "lacpactivity"@) by { assert("flags"@.len() != "lacpactivity"@.len()); }
        assert("flags"@ != "lacptimer"@) by { assert("flags"@.len() != "lacptimer"@.len()); }
    }
}

/// The columns `dladm show-aggr -x` is asked for, in order.
pub open spec fn show_aggr_port_columns() -> Seq<Seq<char>> {
    seq!["link"@, "port"@, "speed"@, "duplex"@, "state"@, "address"@, "portstate"@]
}

#[verifier::rlimit(100)]
proof fn lemma_show_aggr_port_columns_text()
    ensures
        SHOW_AGGR_PORT_COLUMNS@ == "link"@ + ","@ + "port"@ + ","@ + "speed"@ + ","@ + "duplex"@ + ","@ + "state"@ + ","@ + "address"@ + ","@ + "portstate"@,
{
    reveal_strlit(",");
    reveal_strlit("link");
    reveal_strlit("port");
    reveal_strlit("speed");
    reveal_strlit("duplex");
    reveal_strlit("state");
    reveal_strlit("address");
    reveal_strlit("portstate");
    reveal_strlit("link,port,speed,duplex,state,address,portstate");
    assert(SHOW_AGGR_PORT_COLUMNS@ =~= "link"@ + ","@ + "port"@ + ","@ + "speed"@ + ","@ + "duplex"@ + ","@ + "state"@ + ","@ + "address"@ + ","@ + "portstate"@);
}

/// The column list sent to `dladm show-aggr -x` is those columns, comma-joined.
pub proof fn lemma_show_aggr_port_columns()
    ensures
        join(show_aggr_port_columns(), ","@) == SHOW_AGGR_PORT_COLUMNS@,
{
    let c = show_aggr_port_columns();
    let s = ","@;
    assert(c.take(1) =~= seq![c[0]]);
    lemma_join_take(c, s, 1);
    lemma_join_take(c, s, 2);
    lemma_join_take(c, s, 3);
    lemma_join_take(c, s, 4);
    lemma_join_take(c, s, 5);
    lemma_join_take(c, s, 6);
    assert(c.take(7) =~= c);
    lemma_show_aggr_port_columns_text();
}

/// Each field of a row read from `dladm show-aggr -x` comes from the column of that
/// name.
#[verifier::rlimit(100)]
pub proof fn lemma_show_aggr_port_fields(r: AggrPortRow, aggr: Seq<char>, f: Seq<Seq<char>>, i: int)
    requires
        port_row_ok(r, aggr, f),
        0 <= i < show_aggr_port_columns().len(),
    ensures
        join(show_aggr_port_columns(), ","@) == SHOW_AGGR_PORT_COLUMNS@,
        show_aggr_port_columns()[i] == "port"@ ==> (opt_is(r.port, f[i])),
        show_aggr_port_columns()[i] == "speed"@ ==> (r.speed_mbps == speed_of(f[i])),
        show_aggr_port_columns()[i] == "duplex"@ ==> (r.duplex == duplex_field(f[i])),
        show_aggr_port_columns()[i] == "state"@ ==> (r.state@ == f[i]),
        show_aggr_port_columns()[i] == "address"@ ==> (match r.mac { Some(m) => !is_na(f[i]) && m@ == mac_field(f[i]), None => is_na(f[i]) }),
        show_aggr_port_columns()[i] == "portstate"@ ==> (opt_is(r.port_state, f[i])),
{
    lemma_show_aggr_port_columns();
    let c = show_aggr_port_columns();
    reveal_strlit("link");
    reveal_strlit("port");
    reveal_strlit("speed");
    reveal_strlit("duplex");
    reveal_strlit("state");
    reveal_strlit("address");
    reveal_strlit("portstate");
    if i == 0 {
        assert(c[0] == "link"@);
        assert("link"@ != "port"@) by { assert("link"@[0] != "port"@[0]); }
        assert("link"@ != "speed"@) by { assert("link"@.len() != "speed"@.len()); }
        assert("link"@ != "duplex"@) by { assert("link"@.len() != "duplex"@.len()); }
        assert("link"@ != "state"@) by { assert("link"@.len() != "state"@.len()); }
        assert("link"@ != "address"@) by { assert("link"@.len() != "address"@.len()); }
        assert("link"@ != "portstate"@) by { assert("link"@.len() != "portstate"@.len()); }
    }
    if i == 1 {
        assert(c[1] == "port"@);
        assert("port"@ != "speed"@) by { assert("port"@.len() != "speed"@.len()); }
        assert("port"@ != "duplex"@) by { assert("port"@.len() != "duplex"@.len()); }
        assert("port"@ != "state"@) by { assert("port"@.len() != "state"@.len()); }
        assert("port"@ != "address"@) by { assert("port"@.len() != "address"@.len()); }
        assert("port"@ != "portstate"@) by { assert("port"@.len() != "portstate"@.len()); }
    }
    if i == 2 {
        assert(c[2] == "speed"@);
        assert("speed"@ != "port"@) by { assert("speed"@.len() != "port"@.len()); }
        assert("speed"@ != "duplex"@) by { assert("speed"@.len() != "duplex"@.len()); }
        assert("speed"@ != "state"@) by { assert("speed"@[1] != "state"@[1]); }
        assert("speed"@ != "address"@) by { assert("speed"@.len() != "address"@.len()); }
        assert("speed"@ != "portstate"@) by { assert("speed"@.len() != "portstate"@.len()); }
    }
    if i == 3 {
        assert(c[3] == "duplex"@);
        assert("duplex"@ != "port"@) by { assert("duplex"@.len() != "port"@.len()); }
        assert("duplex"@ != "speed"@) by { assert("duplex"@.len() != "speed"@.len()); }
        assert("duplex"@ != "state"@) by { assert("duplex"@.len() != "state"@.len()); }
        assert("duplex"@ != "address"@) by { assert("duplex"@.len() != "address"@.len()); }
        assert("duplex"@ != "portstate"@) by { assert("duplex"@.len() != "portstate"@.len()); }
    }
    if i == 4 {
        assert(c[4] == "state"@);
        assert("state"@ != "port"@) by { assert("state"@.len() != "port"@.len()); }
        assert("state"@ != "speed"@) by { assert("state"@[1] != "speed"@[1]); }
        assert("state"@ != "duplex"@) by { assert("state"@.len() != "duplex"@.len()); }
        assert("state"@ != "address"@) by { assert("state"@.len() != "address"@.len()); }
        assert("state"@ != "portstate"@) by { assert("state"@.len() != "portstate"@.len()); }
    }
    if i == 5 {
        assert(c[5] == "address"@);
        assert("address"@ != "port"@) by { assert("address"@.len() != "port"@.len()); }
        assert("address"@ != "speed"@) by { assert("address"@.len() != "speed"@.len()); }
        assert("address"@ != "duplex"@) by { assert("address"@.len() != "duplex"@.len()); }
        assert("address"@ != "state"@) by { assert("address"@.len() != "state"@.len()); }
        assert("address"@ != "portstate"@) by { assert("address"@.len() != "portstate"@.len()); }
    }
    if i == 6 {
        assert(c[6] == "portstate"@);
        assert("portstate"@ != "port"@) by { assert("portstate"@.len() != "port"@.len()); }
        assert("portstate"@ != "speed"@) by { assert("portstate"@.len() != "speed"@.len()); }
        assert("portstate"@ != "duplex"@) by { assert("portstate"@.len() != "duplex"@.len()); }
        assert("portstate"@ != "state"@) by { assert("portstate"@.len() != "state"@.len()); }
        assert("portstate"@ != "address"@) by { assert("portstate"@.len() != "address"@.len()); }
    }
}

/// The columns `dladm show-vlan` is asked for, in order.
pub open spec fn show_vlan_columns() -> Seq<Seq<char>> {
    seq!["link"@, "vid"@, "over"@, "flags"@]
}

#[verifier::rlimit(100)]
proof fn lemma_show_vlan_columns_text()
    ensures
        SHOW_VLAN_COLUMNS@ == "link"@ + ","@ + "vid"@ + ","@ + "over"@ + ","@ + "flags"@,
{
    reveal_strlit(",");
    reveal_strlit("link");
    reveal_strlit("vid");
    reveal_strlit("over");
    reveal_strlit("flags");
    reveal_strlit("link,vid,over,flags");
    assert(SHOW_VLAN_COLUMNS@ =~= "link"@ + ","@ + "vid"@ + ","@ + "over"@ + ","@ + "flags"@);
}

/// The column list sent to `dladm show-vlan` is those columns, comma-joined.
pub proof fn lemma_show_vlan_columns()
    ensures
        join(show_vlan_columns(), ","@) == SHOW_VLAN_COLUMNS@,
{
    let c = show_vlan_columns();
    let s = ","@;
    assert(c.take(1) =~= seq![c[0]]);
    lemma_join_take(c, s, 1);
    lemma_join_take(c, s, 2);
    lemma_join_take(c, s, 3);
    assert(c.take(4) =~= c);
    lemma_show_vlan_columns_text();
}

/// Each field of a row read from `dladm show-vlan` comes from the column of that
/// name.
#[verifier::rlimit(100)]
pub proof fn lemma_show_vlan_fields(r: VlanRow, f: Seq<Seq<char>>, i: int)
    requires
        vlan_row_ok(r, f),
        0 <= i < show_vlan_columns().len(),
    ensures
        join(show_vlan_columns(), ","@) == SHOW_VLAN_COLUMNS@,
        show_vlan_columns()[i] == "link"@ ==> (r.name@ == f[i]),
        show_vlan_columns()[i] == "vid"@ ==> (parse_unsigned(f[i], 10, u16::MAX as int) == Some(r.vid as int)),
        show_vlan_columns()[i] == "over"@ ==> (r.over@ == f[i]),
{
    lemma_show_vlan_columns();
    let c = show_vlan_columns();
    reveal_strlit("link");
    reveal_strlit("vid");
    reveal_strlit("over");
    reveal_strlit("flags");
    if i == 0 {
        assert(c[0] == "link"@);
        assert("link"@ != "vid"@) by { assert("link"@.len() != "vid"@.len()); }
        assert("link"@ != "over"@) by { assert("link"@[0] != "over"@[0]); }
    }
    if i == 1 {
        assert(c[1] == "vid"@);
        assert("vid"@ != "link"@) by { assert("vid"@.len() != "link"@.len()); }
        assert("vid"@ != "over"@) by { assert("vid"@.len() != "over"@.len()); }
    }
    if i == 2 {
        assert(c[2] == "over"@);
        assert("over"@ != "link"@) by { assert("over"@[0] != "link"@[0]); }
        assert("over"@ != "vid"@) by { assert("over"@.len() != "vid"@.len()); }
    }
    if i == 3 {
        assert(c[3] == "flags"@);
        assert("flags"@ != "link"@) by { assert("flags"@.len() != "link"@.len()); }
        assert("flags"@ != "vid"@) by { assert("flags"@.len() != "vid"@.len()); }
        assert("flags"@ != "over"@) by { assert("flags"@.len() != "over"@.len()); }
    }
}

/// Each field of a row read from `dladm show-vnic` comes from the column of that
/// name.
#[verifier::rlimit(100)]
pub proof fn lemma_show_vnic_fields(r: VnicRow, f: Seq<Seq<char>>, i: int)
    requires
        vnic_row_ok(r, f),
        0 <= i < show_vnic_columns().len(),
    ensures
        join(show_vnic_columns(), ","@) == SHOW_VNIC_COLUMNS@,
        show_vnic_columns()[i] == "link"@ ==> (r.name@ == f[i]),
        show_vnic_columns()[i] == "over"@ ==> (r.over@ == f[i]),
        show_vnic_columns()[i] == "speed"@ ==> (r.speed_mbps == speed_of(f[i])),
        show_vnic_columns()[i] == "macaddress"@ ==> (match r.mac { Some(m) => !is_na(f[i]) && m@ == mac_field(f[i]), None => is_na(f[i]) }),
        show_vnic_columns()[i] == "macaddrtype"@ ==> (r.mac_mode == mac_mode_of(f[i])),
        show_vnic_columns()[i] == "vid"@ ==> (r.vid == vid_field(f[i])),
        show_vnic_columns()[i] == "zone"@ ==> (opt_is(r.zone, f[i])),
{
    lemma_show_vnic_columns();
    let c = show_vnic_columns();
    reveal_strlit("link");
    reveal_strlit("over");
    reveal_strlit("speed");
    reveal_strlit("macaddress");
    reveal_strlit("macaddrtype");
    reveal_strlit("vid");
    reveal_strlit("zone");
    if i == 0 {
        assert(c[0] == "link"@);
        assert("link"@ != "over"@) by { assert("link"@[0] != "over"@[0]); }
        assert("link"@ != "speed"@) by { assert("link"@.len() != "speed"@.len()); }
        assert("link"@ != "macaddress"@) by { assert("link"@.len() != "macaddress"@.len()); }
        assert("link"@ != "macaddrtype"@) by { assert("link"@.len() != "macaddrtype"@.len()); }
        assert("link"@ != "vid"@) by { assert("link"@.len() != "vid"@.len()); }
        assert("link"@ != "zone"@) by { assert("link"@[0] != "zone"@[0]); }
    }
    if i == 1 {
        assert(c[1] == "over"@);
        assert("over"@ != "link"@) by { assert("over"@[0] != "link"@[0]); }
        assert("over"@ != "speed"@) by { assert("over"@.len() != "speed"@.len()); }
        assert("over"@ != "macaddress"@) by { assert("over"@.len() != "macaddress"@.len()); }
        assert("over"@ != "macaddrtype"@) by { assert("over"@.len() != "macaddrtype"@.len()); }
        assert("over"@ != "vid"@) by { assert("over"@.len() != "vid"@.len()); }
        assert("over"@ != "zone"@) by { assert("over"@[0] != "zone"@[0]); }
    }
    if i == 2 {
        assert(c[2] == "speed"@);
        assert("speed"@ != "link"@) by { assert("speed"@.len() != "link"@.len()); }
        assert("speed"@ != "over"@) by { assert("speed"@.len() != "over"@.len()); }
        assert("speed"@ != "macaddress"@) by { assert("speed"@.len() != "macaddress"@.len()); }
        assert("speed"@ != "macaddrtype"@) by { assert("speed"@.len() != "macaddrtype"@.len()); }
        assert("speed"@ != "vid"@) by { assert("speed"@.len() != "vid"@.len()); }
        assert("speed"@ != "zone"@) by { assert("speed"@.len() != "zone"@.len()); }
    }
    if i == 3 {
        assert(c[3] == "macaddress"@);
        assert("macaddress"@ != "link"@) by { assert("macaddress"@.len() != "link"@.len()); }
        assert("macaddress"@ != "over"@) by { assert("macaddress"@.len() != "over"@.len()); }
        assert("macaddress"@ != "speed"@) by { assert("macaddress"@.len() != "speed"@.len()); }
        assert("macaddress"@ != "macaddrtype"@) by { assert("macaddress"@.len() != "macaddrtype"@.len()); }
        assert("macaddress"@ != "vid"@) by { assert("macaddress"@.len() != "vid"@.len()); }
        assert("macaddress"@ != "zone"@) by { assert("macaddress"@.len() != "zone"@.len()); }
    }
    if i == 4 {
        assert(c[4] == "macaddrtype"@);
        assert("macaddrtype"@ != "link"@) by { assert("macaddrtype"@.len() != "link"@.len()); }
        assert("macaddrtype"@ != "over"@) by { assert("macaddrtype"@.len() != "over"@.len()); }
        assert("macaddrtype"@ != "speed"@) by { assert("macaddrtype"@.len() != "speed"@.len()); }
        assert("macaddrtype"@ != "macaddress"@) by { assert("macaddrtype"@.len() != "macaddress"@.len()); }
        assert("macaddrtype"@ != "vid"@) by { assert("macaddrtype"@.len() != "vid"@.len()); }
        assert("macaddrtype"@ != "zone"@) by { assert("macaddrtype"@.len() != "zone"@.len()); }
    }
    if i == 5 {
        assert(c[5] == "vid"@);
        assert("vid"@ != "link"@) by { assert("vid"@.len() != "link"@.len()); }
        assert("vid"@ != "over"@) by { assert("vid"@.len() != "over"@.len()); }
        assert("vid"@ != "speed"@) by { assert("vid"@.len() != "speed"@.len()); }
        assert("vid"@ != "macaddress"@) by { assert("vid"@.len() != "macaddress"@.len()); }
        assert("vid"@ != "macaddrtype"@) by { assert("vid"@.len() != "macaddrtype"@.len()); }
        assert("vid"@ != "zone"@) by { assert("vid"@.len() != "zone"@.len()); }
    }
    if i == 6 {
        assert(c[6] == "zone"@);
        assert("zone"@ != "link"@) by { assert("zone"@[0] != "link"@[0]); }
        assert("zone"@ != "over"@) by { assert("zone"@[0] != "over"@[0]); }
        assert("zone"@ != "speed"@) by { assert("zone"@.len() != "speed"@.len()); }
        assert("zone"@ != "macaddress"@) by { assert("zone"@.len() != "macaddress"@.len()); }
        assert("zone"@ != "macaddrtype"@) by { assert("zone"@.len() != "macaddrtype"@.len()); }
        assert("zone"@ != "vid"@) by { assert("zone"@.len() != "vid"@.len()); }
    }
}

/// The columns `ipadm show-if` is asked for, in order.
pub open spec fn show_if_columns() -> Seq<Seq<char>> {
    seq!["ifname"@, "class"@, "state"@, "current"@, "persistent"@, "over"@]
}

#[verifier::rlimit(100)]
proof fn lemma_show_if_columns_text()
    ensures
        SHOW_IF_COLUMNS@ == "ifname"@ + ","@ + "class"@ + ","@ + "state"@ + ","@ + "current"@ + ","@ + "persistent"@ + ","@ + "over"@,
{
    reveal_strlit(",");
    reveal_strlit("ifname");
    reveal_strlit("class");
    reveal_strlit("state");
    reveal_strlit("current");
    reveal_strlit("persistent");
    reveal_strlit("over");
    reveal_strlit("ifname,class,state,current,persistent,over");
    assert(SHOW_IF_COLUMNS@ =~= "ifname"@ + ","@ + "class"@ + ","@ + "state"@ + ","@ + "current"@ + ","@ + "persistent"@ + ","@ + "over"@);
}

/// The column list sent to `ipadm show-if` is those columns, comma-joined.
pub proof fn lemma_show_if_columns()
    ensures
        join(show_if_columns(), ","@) == SHOW_IF_COLUMNS@,
{
    let c = show_if_columns();
    let s = ","@;
    assert(c.take(1) =~= seq![c[0]]);
    lemma_join_take(c, s, 1);
    lemma_join_take(c, s, 2);
    lemma_join_take(c, s, 3);
    lemma_join_take(c, s, 4);
    lemma_join_take(c, s, 5);
    assert(c.take(6) =~= c);
    lemma_show_if_columns_text();
}

/// Each field of a row read from `ipadm show-if` comes from the column of that
/// name.
#[verifier::rlimit(100)]
pub proof fn lemma_show_if_fields(r: InterfaceInfo, f: Seq<Seq<char>>, i: int)
    requires
        if_row_ok(r, f),
        0 <= i < show_if_columns().len(),
    ensures
        join(show_if_columns(), ","@) == SHOW_IF_COLUMNS@,
        show_if_columns()[i] == "ifname"@ ==> (r.name@ == f[i]),
        show_if_columns()[i] == "class"@ ==> (r.class@ == f[i]),
        show_if_columns()[i] == "state"@ ==> (r.state@ == f[i]),
        show_if_columns()[i] == "over"@ ==> (opt_is(r.over, f[i])),
{
    lemma_show_if_columns();
    let c = show_if_columns();
    reveal_strlit("ifname");
    reveal_strlit("class");
    reveal_strlit("state");
    reveal_strlit("current");
    reveal_strlit("persistent");
    reveal_strlit("over");
    if i == 0 {
        assert(c[0] == "ifname"@);
        assert("ifname"@ != "class"@) by { assert("ifname"@.len() != "class"@.len()); }
        assert("ifname"@ != "state"@) by { assert("ifname"@.len() != "state"@.len()); }
        assert("ifname"@ != "over"@) by { assert("ifname"@.len() != "over"@.len()); }
    }
    if i == 1 {
        assert(c[1] == "class"@);
        assert("class"@ != "ifname"@) by { assert("class"@.len() != "ifname"@.len()); }
        assert("class"@ != "state"@) by { assert("class"@[0] != "state"@[0]); }
        assert("class"@ != "over"@) by { assert("class"@.len() != "over"@.len()); }
    }
    if i == 2 {
        assert(c[2] == "state"@);
        assert("state"@ != "ifname"@) by { assert("state"@.len() != "ifname"@.len()); }
        assert("state"@ != "class"@) by { assert("state"@[0] != "class"@[0]); }
        assert("state"@ != "over"@) by { assert("state"@.len() != "over"@.len()); }
    }
    if i == 3 {
        assert(c[3] == "current"@);
        assert("current"@ != "ifname"@) by { assert("current"@.len() != "ifname"@.len()); }
        assert("current"@ != "class"@) by { assert("current"@.len() != "class"@.len()); }
        assert("current"@ != "state"@) by { assert("current"@.len() != "state"@.len()); }
        assert("current"@ != "over"@) by { assert("current"@.len() != "over"@.len()); }
    }
    if i == 4 {
        assert(c[4] == "persistent"@);
        assert("persistent"@ != "ifname"@) by { assert("persistent"@.len() != "ifname"@.len()); }
        assert("persistent"@ != "class"@) by { assert("persistent"@.len() != "class"@.len()); }
        assert("persistent"@ != "state"@) by { assert("persistent"@.len() != "state"@.len()); }
        assert("persistent"@ != "over"@) by { assert("persistent"@.len() != "over"@.len()); }
    }
    if i == 5 {
        assert(c[5] == "over"@);
        assert("over"@ != "ifname"@) by { assert("over"@.len() != "ifname"@.len()); }
        assert("over"@ != "class"@) by { assert("over"@.len() != "class"@.len()); }
        assert("over"@ != "state"@) by { assert("over"@.len() != "state"@.len()); }
    }
}

/// The columns `ipadm show-addr` is asked for, in order.
pub open spec fn show_addr_columns() -> Seq<Seq<char>> {
    seq!["addrobj"@, "type"@, "state"@, "current"@, "persistent"@, "addr"@]
}

#[verifier::rlimit(100)]
proof fn lemma_show_addr_columns_text()
    ensures
        SHOW_ADDR_COLUMNS@ == "addrobj"@ + ","@ + "type"@ + ","@ + "state"@ + ","@ + "current"@ + ","@ + "persistent"@ + ","@ + "addr"@,
{
    reveal_strlit(",");
    reveal_strlit("addrobj");
    reveal_strlit("type");
    reveal_strlit("state");
    reveal_strlit("current");
    reveal_strlit("persistent");
    reveal_strlit("addr");
    reveal_strlit("addrobj,type,state,current,persistent,addr");
    assert(SHOW_ADDR_COLUMNS@ =~= "addrobj"@ + ","@ + "type"@ + ","@ + "state"@ + ","@ + "current"@ + ","@ + "persistent"@ + ","@ + "addr"@);
}

/// The column list sent to `ipadm show-addr` is those columns, comma-joined.
pub proof fn lemma_show_addr_columns()
    ensures
        join(show_addr_columns(), ","@) == SHOW_ADDR_COLUMNS@,
{
    let c = show_addr_columns();
    let s = ","@;
    assert(c.take(1) =~= seq![c[0]]);
    lemma_join_take(c, s, 1);
    lemma_join_take(c, s, 2);
    lemma_join_take(c, s, 3);
    lemma_join_take(c, s, 4);
    lemma_join_take(c, s, 5);
    assert(c.take(6) =~= c);
    lemma_show_addr_columns_text();
}

/// Each field of a row read from `ipadm show-addr` comes from the column of that
/// name.
#[verifier::rlimit(100)]
pub proof fn lemma_show_addr_fields(r: AddressInfo, f: Seq<Seq<char>>, i: int)
    requires
        addr_row_ok(r, f),
        0 <= i < show_addr_columns().len(),
    ensures
        join(show_addr_columns(), ","@) == SHOW_ADDR_COLUMNS@,
        show_addr_columns()[i] == "addrobj"@ ==> (r.name@ == f[i] && r.interface@ == interface_part(f[i])),
        show_addr_columns()[i] == "type"@ ==> (address_kind_of(f[i]) == Some(r.kind)),
        show_addr_columns()[i] == "state"@ ==> (r.state@ == f[i]),
        show_addr_columns()[i] == "persistent"@ ==> (r.persistent == f[i].contains('U')),
        show_addr_columns()[i] == "addr"@ ==> (opt_is(r.address, f[i]) && r.family == address_family(r.kind, opt_field(f[i]))),
{
    lemma_show_addr_columns();
    let c = show_addr_columns();
    reveal_strlit("addrobj");
    reveal_strlit("type");
    reveal_strlit("state");
    reveal_strlit("current");
    reveal_strlit("persistent");
    reveal_strlit("addr");
    if i == 0 {
        assert(c[0] == "addrobj"@);
        assert("addrobj"@ != "type"@) by { assert("addrobj"@.len() != "type"@.len()); }
        assert("addrobj"@ != "state"@) by { assert("addrobj"@.len() != "state"@.len()); }
        assert("addrobj"@ != "persistent"@) by { assert("addrobj"@.len() != "persistent"@.len()); }
        assert("addrobj"@ != "addr"@) by { assert("addrobj"@.len() != "addr"@.len()); }
    }
    if i == 1 {
        assert(c[1] == "type"@);
        assert("type"@ != "addrobj"@) by { assert("type"@.len() != "addrobj"@.len()); }
        assert("type"@ != "state"@) by { assert("type"@.len() != "state"@.len()); }
        assert("type"@ != "persistent"@) by { assert("type"@.len() != "persistent"@.len()); }
        assert("type"@ != "addr"@) by { assert("type"@[0] != "addr"@[0]); }
    }
    if i == 2 {
        assert(c[2] == "state"@);
        assert("state"@ != "addrobj"@) by { assert("state"@.len() != "addrobj"@.len()); }
        assert("state"@ != "type"@) by { assert("state"@.len() != "type"@.len()); }
        assert("state"@ != "persistent"@) by { assert("state"@.len() != "persistent"@.len()); }
        assert("state"@ != "addr"@) by { assert("state"@.len() != "addr"@.len()); }
    }
    if i == 3 {
        assert(c[3] == "current"@);
        assert("current"@ != "addrobj"@) by { assert("current"@[0] != "addrobj"@[0]); }
        assert("current"@ != "type"@) by { assert("current"@.len() != "type"@.len()); }
        assert("current"@ != "state"@) by { assert("current"@.len() != "state"@.len()); }
        assert("current"@ != "persistent"@) by { assert("current"@.len() != "persistent"@.len()); }
        assert("current"@ != "addr"@) by { assert("current"@.len() != "addr"@.len()); }
    }
    if i == 4 {
        assert(c[4] == "persistent"@);
        assert("persistent"@ != "addrobj"@) by { assert("persistent"@.len() != "addrobj"@.len()); }
        assert("persistent"@ != "type"@) by { assert("persistent"@.len() != "type"@.len()); }
        assert("persistent"@ != "state"@) by { assert("persistent"@.len() != "state"@.len()); }
        assert("persistent"@ != "addr"@) by { assert("persistent"@.len() != "addr"@.len()); }
    }
    if i == 5 {
        assert(c[5] == "addr"@);
        assert("addr"@ != "addrobj"@) by { assert("addr"@.len() != "addrobj"@.len()); }
        assert("addr"@ != "type"@) by { assert("addr"@[0] != "type"@[0]); }
        assert("addr"@ != "state"@) by { assert("addr"@.len() != "state"@.len()); }
        assert("addr"@ != "persistent"@) by { assert("addr"@.len() != "persistent"@.len()); }
    }
}

} // verus!
