//! An in-memory zone stack with the same observable behaviour as the real
//! one: zones filed by name, each with its configuration and state.
use vstd::prelude::*;
use crate::common::shell::ShellError;
use crate::common::zone::{ZoneNic, ZoneState, zone_state_name};
use crate::net::parse::opt_view;
use crate::text::{chars_of, concat, first_where, lemma_first_where, lemma_none_where, str_eq, string_from};
use crate::zfs::keyed::{
    Keyed, entry, find_key, has_key, keys, lemma_entry_at, lemma_index_has, lemma_put_back, lemma_put_entry,
    lemma_put_sorted, lemma_without_sorted, put, put_item, remove_item, strictly_sorted, without,
};
use crate::zones::parse::{
    attr_put, has_attr, key_is, lemma_attr_put_sorted, nic_view, nic_views, pair_views, put_attr, valid_zone_name,
    zone_name_ok,
};
use crate::zones::types::{InstallSource, ZoneConfig, ZoneError, ZoneSpec, ZoneSummary};

verus! {

/// A zone as the fake holds it.
#[derive(Debug, Clone)]
pub struct ZoneEntry {
    /// Its configuration.
    pub config: ZoneConfig,
    /// Its state.
    pub state: ZoneState,
}

impl Keyed for ZoneEntry {
    open spec fn key(&self) -> Seq<char> {
        self.config.name@
    }

    fn key_str(&self) -> (r: &str) {
        self.config.name.as_str()
    }
}

/// The in-memory host.
pub struct FakeZones {
    zones: Vec<ZoneEntry>,
}

/// Whether `e` is the fake tool's failure with this message.
pub open spec fn zone_tool_error_is(e: ZoneError, message: Seq<char>) -> bool {
    e matches ZoneError::Command(ShellError::Failed { command, status, stderr })
        && command@ == "fake"@ && status == 1 && stderr@ == message
}

/// The failure the in-memory tools report, as `zonecfg` or `zoneadm` would.
fn tool_error(message: &[char]) -> (e: ZoneError)
    ensures
        zone_tool_error_is(e, message@),
{
    ZoneError::Command(ShellError::Failed { command: "fake".to_owned(), status: 1, stderr: string_from(message) })
}

/// What the tools say of a zone that is not there.
pub open spec fn missing_zone(name: Seq<char>) -> Seq<char> {
    "zonecfg: zone '"@ + name + "': No such zone configured"@
}

fn text3(a: &str, b: &str, c: &str) -> (r: Vec<char>)
    ensures
        r@ == a@ + b@ + c@,
{
    let x = concat(chars_of(a).as_slice(), chars_of(b).as_slice());
    concat(x.as_slice(), chars_of(c).as_slice())
}

fn not_found(name: &str) -> (e: ZoneError)
    ensures
        zone_tool_error_is(e, missing_zone(name@)),
{
    tool_error(text3("zonecfg: zone '", name, "': No such zone configured").as_slice())
}

/// The row `zoneadm list` shows for a zone.
pub open spec fn summary_of(s: ZoneSummary, e: ZoneEntry) -> bool {
    &&& s.name@ == e.config.name@
    &&& s.state == e.state
    &&& s.brand@ == e.config.brand@
    &&& s.zonepath@ == e.config.zonepath@
    &&& s.uuid is None
    &&& s.exclusive_ip == (e.config.ip_type@ != "shared"@)
}

/// A zone with its state changed.
pub open spec fn with_state(e: ZoneEntry, s: ZoneState) -> ZoneEntry {
    ZoneEntry { state: s, ..e }
}

/// A zone with its configuration changed.
pub open spec fn with_config(e: ZoneEntry, c: ZoneConfig) -> ZoneEntry {
    ZoneEntry { config: c, ..e }
}

/// Why a state change of zone `name` is refused, if it is: no such zone,
/// or a state outside `allowed`.
pub open spec fn change_refusal(
    zs: Seq<ZoneEntry>,
    name: Seq<char>,
    allowed: Seq<ZoneState>,
    refusal: Seq<char>,
) -> Option<Seq<char>> {
    if !has_key(zs, name) {
        Some(missing_zone(name))
    } else if !allowed.contains(entry(zs, name).state) {
        Some(
            "zoneadm: zone '"@ + name + "': "@ + refusal + " (state "@ + zone_state_name(entry(zs, name).state)
                + ")"@,
        )
    } else {
        None
    }
}

/// The states `zoneadm install` starts from.
pub open spec fn install_from() -> Seq<ZoneState> {
    seq![ZoneState::Configured, ZoneState::Incomplete]
}

/// The states `zoneadm boot` starts from.
pub open spec fn boot_from() -> Seq<ZoneState> {
    seq![ZoneState::Installed, ZoneState::Ready, ZoneState::Down]
}

/// The states `zoneadm shutdown` starts from.
pub open spec fn shutdown_from() -> Seq<ZoneState> {
    seq![ZoneState::Running]
}

/// The states `zoneadm halt` starts from.
pub open spec fn halt_from() -> Seq<ZoneState> {
    seq![ZoneState::Running, ZoneState::Ready, ZoneState::ShuttingDown, ZoneState::Down, ZoneState::Installed]
}

/// The states `zoneadm uninstall` starts from.
pub open spec fn uninstall_from() -> Seq<ZoneState> {
    seq![ZoneState::Installed, ZoneState::Incomplete, ZoneState::Down, ZoneState::Configured]
}

fn state_in(s: ZoneState, allowed: &Vec<ZoneState>) -> (r: bool)
    ensures
        r == allowed@.contains(s),
{
    let mut i: usize = 0;
    while i < allowed.len()
        invariant
            0 <= i <= allowed@.len(),
            forall|j: int| 0 <= j < i ==> allowed@[j] != s,
        decreases allowed@.len() - i,
    {
        if allowed[i] == s {
            return true;
        }
        i = i + 1;
    }
    false
}

fn refusal_text(name: &str, refusal: &str, st: ZoneState) -> (r: Vec<char>)
    ensures
        r@ == "zoneadm: zone '"@ + name@ + "': "@ + refusal@ + " (state "@ + zone_state_name(st) + ")"@,
{
    let head = text3("zoneadm: zone '", name, "': ");
    let mid = text3(refusal, " (state ", st.as_str());
    let msg = concat(concat(head.as_slice(), mid.as_slice()).as_slice(), chars_of(")").as_slice());
    assert(msg@ =~= "zoneadm: zone '"@ + name@ + "': "@ + refusal@ + " (state "@ + zone_state_name(st) + ")"@);
    msg
}

impl FakeZones {
    /// The zones, in name order.
    pub closed spec fn zone_list(&self) -> Seq<ZoneEntry> {
        self.zones@
    }

    /// Zones are filed in strictly increasing name order.
    pub open spec fn wf(&self) -> bool {
        strictly_sorted(keys(self.zone_list()))
    }

    /// No zones.
    pub fn new() -> (r: FakeZones)
        ensures
            r.wf(),
            r.zone_list().len() == 0,
    {
        proof {
            reveal(strictly_sorted);
        }
        FakeZones { zones: Vec::new() }
    }

    /// Add a zone in a given state, as if it existed before the daemon; it
    /// replaces a zone of the same name.
    pub fn add_zone(&mut self, config: ZoneConfig, state: ZoneState)
        requires
            old(self).wf(),
        ensures
            final(self).wf(),
            final(self).zone_list() == put(old(self).zone_list(), ZoneEntry { config, state }),
    {
        let e = ZoneEntry { config, state };
        proof {
            lemma_put_sorted(self.zones@, e);
        }
        put_item(&mut self.zones, e);
    }

    /// A typical host: one native zone `build` created out of band, so it
    /// has no Mandrake id, installed but not running.
    pub fn typical() -> (r: FakeZones)
        ensures
            r.wf(),
            r.zone_list().len() == 1,
            has_key(r.zone_list(), "build"@),
            entry(r.zone_list(), "build"@).state == ZoneState::Installed,
    {
        let mut fake = FakeZones::new();
        let config = ZoneConfig {
            name: "build".to_owned(),
            brand: "ipkg".to_owned(),
            zonepath: "/rpool/zones/build".to_owned(),
            autoboot: false,
            ip_type: "exclusive".to_owned(),
            nics: Vec::new(),
            cpu_cap: None,
            memory_cap: None,
            attrs: Vec::new(),
            devices: Vec::new(),
            fs: Vec::new(),
            datasets: Vec::new(),
            other: Vec::new(),
        };
        let e = ZoneEntry { config, state: ZoneState::Installed };
        proof {
            lemma_put_entry(fake.zones@, e);
            lemma_put_sorted(fake.zones@, e);
            assert(put(fake.zones@, e) =~= seq![e]) by {
                crate::text::lemma_first_where_none(keys(fake.zones@), crate::zfs::keyed::is_key(e.key()));
                crate::text::lemma_first_where_none(keys(fake.zones@), crate::zfs::keyed::not_below(e.key()));
            }
        }
        fake.add_zone(e.config, e.state);
        fake
    }

    /// A zone's state, if the zone is there.
    pub fn state_of(&self, name: &str) -> (r: Option<ZoneState>)
        requires
            self.wf(),
        ensures
            r == (if has_key(self.zone_list(), name@) {
                Some(entry(self.zone_list(), name@).state)
            } else {
                None::<ZoneState>
            }),
    {
        proof {
            lemma_index_has(self.zones@, name@);
        }
        match find_key(&self.zones, name) {
            Some(i) => {
                proof {
                    lemma_entry_at(self.zones@, name@, i as int);
                }
                Some(self.zones[i].state)
            },
            None => None,
        }
    }

    /// Every zone, as `zoneadm list` shows them, in name order.
    pub fn list(&self) -> (r: Vec<ZoneSummary>)
        ensures
            r@.len() == self.zone_list().len(),
            forall|i: int| 0 <= i < r@.len() ==> summary_of(#[trigger] r@[i], self.zone_list()[i]),
    {
        let mut out: Vec<ZoneSummary> = Vec::new();
        let mut i: usize = 0;
        while i < self.zones.len()
            invariant
                0 <= i <= self.zones@.len(),
                out@.len() == i,
                forall|j: int| 0 <= j < i ==> summary_of(#[trigger] out@[j], self.zones@[j]),
            decreases self.zones@.len() - i,
        {
            let e = &self.zones[i];
            let shared = str_eq(e.config.ip_type.as_str(), "shared");
            proof {
                reveal_strlit("shared");
            }
            out.push(ZoneSummary {
                name: e.config.name.clone(),
                state: e.state,
                brand: e.config.brand.clone(),
                zonepath: e.config.zonepath.clone(),
                uuid: None,
                exclusive_ip: !shared,
            });
            i = i + 1;
        }
        out
    }

    /// A zone's configuration.
    pub fn config(&self, name: &str) -> (r: Result<&ZoneConfig, ZoneError>)
        requires
            self.wf(),
        ensures
            r is Ok <==> has_key(self.zone_list(), name@),
            r matches Ok(c) ==> *c == entry(self.zone_list(), name@).config,
            r matches Err(e) ==> (e matches ZoneError::NotFound(n) && n@ == name@),
    {
        proof {
            lemma_index_has(self.zones@, name@);
        }
        match find_key(&self.zones, name) {
            Some(i) => {
                proof {
                    lemma_entry_at(self.zones@, name@, i as int);
                }
                Ok(&self.zones[i].config)
            },
            None => Err(ZoneError::NotFound(name.to_owned())),
        }
    }

    /// Move zone `name` to `next` when its state is one of `allowed`.
    fn transition(&mut self, name: &str, allowed: &Vec<ZoneState>, next: ZoneState, refusal: &str) -> (r: Result<(), ZoneError>)
        requires
            old(self).wf(),
        ensures
            final(self).wf(),
            r is Err <==> change_refusal(old(self).zone_list(), name@, allowed@, refusal@) is Some,
            r matches Err(e) ==> zone_tool_error_is(e, change_refusal(old(self).zone_list(), name@, allowed@, refusal@)->0),
            r is Err ==> final(self).zone_list() == old(self).zone_list(),
            r is Ok ==> final(self).zone_list() == put(
                old(self).zone_list(),
                with_state(entry(old(self).zone_list(), name@), next),
            ),
    {
        proof {
            lemma_index_has(self.zones@, name@);
        }
        let i = match find_key(&self.zones, name) {
            Some(i) => i,
            None => {
                return Err(not_found(name));
            },
        };
        proof {
            lemma_entry_at(self.zones@, name@, i as int);
        }
        let st = self.zones[i].state;
        if !state_in(st, allowed) {
            return Err(tool_error(refusal_text(name, refusal, st).as_slice()));
        }
        let ghost before = self.zones@;
        let mut e = self.zones.remove(i);
        e.state = next;
        proof {
            lemma_put_back(before, i as int, e);
            lemma_put_sorted(before, e);
        }
        self.zones.insert(i, e);
        Ok(())
    }

    /// Install a configured zone, as `zoneadm install`; where it comes from
    /// does not matter to the fake.
    pub fn install(&mut self, name: &str, source: &InstallSource) -> (r: Result<(), ZoneError>)
        requires
            old(self).wf(),
        ensures
            final(self).wf(),
            r is Err <==> change_refusal(old(self).zone_list(), name@, install_from(), "zone is already installed"@) is Some,
            r matches Err(e) ==> zone_tool_error_is(
                e,
                change_refusal(old(self).zone_list(), name@, install_from(), "zone is already installed"@)->0,
            ),
            r is Err ==> final(self).zone_list() == old(self).zone_list(),
            r is Ok ==> final(self).zone_list() == put(
                old(self).zone_list(),
                with_state(entry(old(self).zone_list(), name@), ZoneState::Installed),
            ),
    {
        let allowed = vec![ZoneState::Configured, ZoneState::Incomplete];
        assert(allowed@ == install_from());
        self.transition(name, &allowed, ZoneState::Installed, "zone is already installed")
    }

    /// Boot a zone, as `zoneadm boot`: refused when it is already running or
    /// not installed.
    pub fn boot(&mut self, name: &str) -> (r: Result<(), ZoneError>)
        requires
            old(self).wf(),
        ensures
            final(self).wf(),
            has_key(old(self).zone_list(), name@) && entry(old(self).zone_list(), name@).state == ZoneState::Running
                ==> (r matches Err(e) && zone_tool_error_is(
                    e,
                    "zoneadm: zone '"@ + name@ + "': zone is already running"@,
                )),
            !(has_key(old(self).zone_list(), name@) && entry(old(self).zone_list(), name@).state
                == ZoneState::Running) ==> {
                &&& r is Err <==> change_refusal(
                    old(self).zone_list(),
                    name@,
                    boot_from(),
                    "cannot boot: zone is not installed"@,
                ) is Some
                &&& r matches Err(e) ==> zone_tool_error_is(
                    e,
                    change_refusal(old(self).zone_list(), name@, boot_from(), "cannot boot: zone is not installed"@)->0,
                )
            },
            r is Err ==> final(self).zone_list() == old(self).zone_list(),
            r is Ok ==> final(self).zone_list() == put(
                old(self).zone_list(),
                with_state(entry(old(self).zone_list(), name@), ZoneState::Running),
            ),
    {
        match self.state_of(name) {
            None => {
                return Err(not_found(name));
            },
            Some(st) => {
                if st == ZoneState::Running {
                    let m = text3("zoneadm: zone '", name, "': zone is already running");
                    return Err(tool_error(m.as_slice()));
                }
            },
        }
        let allowed = vec![ZoneState::Installed, ZoneState::Ready, ZoneState::Down];
        assert(allowed@ == boot_from());
        self.transition(name, &allowed, ZoneState::Running, "cannot boot: zone is not installed")
    }

    /// Shut a running zone down, as `zoneadm shutdown`; with `reboot` it
    /// comes back up.
    pub fn shutdown(&mut self, name: &str, reboot: bool) -> (r: Result<(), ZoneError>)
        requires
            old(self).wf(),
        ensures
            final(self).wf(),
            r is Err <==> change_refusal(old(self).zone_list(), name@, shutdown_from(), "zone is not running"@) is Some,
            r matches Err(e) ==> zone_tool_error_is(
                e,
                change_refusal(old(self).zone_list(), name@, shutdown_from(), "zone is not running"@)->0,
            ),
            r is Err ==> final(self).zone_list() == old(self).zone_list(),
            r is Ok ==> final(self).zone_list() == put(
                old(self).zone_list(),
                with_state(
                    entry(old(self).zone_list(), name@),
                    if reboot { ZoneState::Running } else { ZoneState::Installed },
                ),
            ),
    {
        let next = if reboot { ZoneState::Running } else { ZoneState::Installed };
        let allowed = vec![ZoneState::Running];
        assert(allowed@ == shutdown_from());
        self.transition(name, &allowed, next, "zone is not running")
    }

    /// Halt a zone, as `zoneadm halt`.
    pub fn halt(&mut self, name: &str) -> (r: Result<(), ZoneError>)
        requires
            old(self).wf(),
        ensures
            final(self).wf(),
            r is Err <==> change_refusal(old(self).zone_list(), name@, halt_from(), "zone is not running"@) is Some,
            r matches Err(e) ==> zone_tool_error_is(
                e,
                change_refusal(old(self).zone_list(), name@, halt_from(), "zone is not running"@)->0,
            ),
            r is Err ==> final(self).zone_list() == old(self).zone_list(),
            r is Ok ==> final(self).zone_list() == put(
                old(self).zone_list(),
                with_state(entry(old(self).zone_list(), name@), ZoneState::Installed),
            ),
    {
        let allowed = vec![
            ZoneState::Running,
            ZoneState::Ready,
            ZoneState::ShuttingDown,
            ZoneState::Down,
            ZoneState::Installed,
        ];
        assert(allowed@ == halt_from());
        self.transition(name, &allowed, ZoneState::Installed, "zone is not running")
    }

    /// Uninstall a zone that is not running, as `zoneadm uninstall`.
    pub fn uninstall(&mut self, name: &str) -> (r: Result<(), ZoneError>)
        requires
            old(self).wf(),
        ensures
            final(self).wf(),
            r is Err <==> change_refusal(
                old(self).zone_list(),
                name@,
                uninstall_from(),
                "zone is running; cannot uninstall"@,
            ) is Some,
            r matches Err(e) ==> zone_tool_error_is(
                e,
                change_refusal(old(self).zone_list(), name@, uninstall_from(), "zone is running; cannot uninstall"@)->0,
            ),
            r is Err ==> final(self).zone_list() == old(self).zone_list(),
            r is Ok ==> final(self).zone_list() == put(
                old(self).zone_list(),
                with_state(entry(old(self).zone_list(), name@), ZoneState::Configured),
            ),
    {
        let allowed = vec![ZoneState::Installed, ZoneState::Incomplete, ZoneState::Down, ZoneState::Configured];
        assert(allowed@ == uninstall_from());
        self.transition(name, &allowed, ZoneState::Configured, "zone is running; cannot uninstall")
    }

    /// Delete a zone's configuration, as `zonecfg delete`; only a zone
    /// that is configured and nothing more can go.
    pub fn delete(&mut self, name: &str) -> (r: Result<(), ZoneError>)
        requires
            old(self).wf(),
        ensures
            final(self).wf(),
            !has_key(old(self).zone_list(), name@) ==> (r matches Err(e) && zone_tool_error_is(
                e,
                missing_zone(name@),
            )),
            has_key(old(self).zone_list(), name@) && entry(old(self).zone_list(), name@).state != ZoneState::Configured
                ==> (r matches Err(e) && zone_tool_error_is(
                    e,
                    "zonecfg: zone '"@ + name@ + "': zone is installed; cannot delete"@,
                )),
            r is Ok <==> has_key(old(self).zone_list(), name@)
                && entry(old(self).zone_list(), name@).state == ZoneState::Configured,
            r is Err ==> final(self).zone_list() == old(self).zone_list(),
            r is Ok ==> final(self).zone_list() == without(old(self).zone_list(), name@),
    {
        proof {
            lemma_without_sorted(self.zones@, name@);
        }
        match self.state_of(name) {
            None => Err(not_found(name)),
            Some(st) => {
                if st != ZoneState::Configured {
                    let m = text3("zonecfg: zone '", name, "': zone is installed; cannot delete");
                    return Err(tool_error(m.as_slice()));
                }
                remove_item(&mut self.zones, name);
                Ok(())
            },
        }
    }
}


/// The attribute list with `k` taken out.
pub open spec fn attr_drop(attrs: Seq<(Seq<char>, Seq<char>)>, k: Seq<char>) -> Seq<(Seq<char>, Seq<char>)> {
    match first_where(attrs, key_is(k)) {
        Some(i) => attrs.remove(i),
        None => attrs,
    }
}

/// The managed attributes a spec does not name taken out.
pub open spec fn managed_kept(attrs: Seq<(Seq<char>, Seq<char>)>, ps: Seq<(String, String)>) -> Seq<(Seq<char>, Seq<char>)> {
    let a = if has_attr(ps, "hostname"@) { attrs } else { attr_drop(attrs, "hostname"@) };
    if has_attr(ps, "resolvers"@) { a } else { attr_drop(a, "resolvers"@) }
}

/// Each attribute of a spec set in turn.
pub open spec fn attrs_put(attrs: Seq<(Seq<char>, Seq<char>)>, ps: Seq<(String, String)>) -> Seq<(Seq<char>, Seq<char>)>
    decreases ps.len(),
{
    if ps.len() == 0 {
        attrs
    } else {
        attr_put(attrs_put(attrs, ps.drop_last()), ps.last().0@, ps.last().1@)
    }
}

/// A configuration `d` that is `c` brought to spec `s`: autoboot, NICs and
/// caps replaced, managed attributes `s` does not name removed, then each
/// of its attributes set.
pub open spec fn applied(c: ZoneConfig, s: ZoneSpec, d: ZoneConfig) -> bool {
    &&& d.name == c.name && d.brand == c.brand && d.zonepath == c.zonepath && d.ip_type == c.ip_type
    &&& d.devices == c.devices && d.fs == c.fs && d.datasets == c.datasets && d.other == c.other
    &&& d.autoboot == s.autoboot
    &&& nic_views(d.nics@) == nic_views(s.nics@)
    &&& opt_view(d.cpu_cap) == opt_view(s.cpu_cap)
    &&& d.memory_cap == s.memory_cap
    &&& pair_views(d.attrs@) == attrs_put(managed_kept(pair_views(c.attrs@), s.attrs@), s.attrs@)
}

/// The configuration `create` writes for a spec: its names, an exclusive
/// stack, the spec's settings and attributes, and nothing else.
pub open spec fn created(c: ZoneConfig, s: ZoneSpec) -> bool {
    &&& c.name@ == s.name@ && c.brand@ == s.brand@ && c.zonepath@ == s.zonepath@
    &&& c.ip_type@ == "exclusive"@
    &&& c.devices@.len() == 0 && c.fs@.len() == 0 && c.datasets@.len() == 0 && c.other@.len() == 0
    &&& c.autoboot == s.autoboot
    &&& nic_views(c.nics@) == nic_views(s.nics@)
    &&& opt_view(c.cpu_cap) == opt_view(s.cpu_cap)
    &&& c.memory_cap == s.memory_cap
    &&& pair_views(c.attrs@) == attrs_put(Seq::empty(), s.attrs@)
}

/// Why `create` is refused, if it is: the name is taken or not a zone
/// name, or another zone has the zonepath.
pub open spec fn create_refusal(zs: Seq<ZoneEntry>, s: ZoneSpec) -> Option<Seq<char>> {
    if has_key(zs, s.name@) {
        Some("zonecfg: zone '"@ + s.name@ + "': Zone already exists"@)
    } else if !zone_name_ok(s.name@) {
        Some("zonecfg: invalid zone name"@)
    } else if exists|i: int| 0 <= i < zs.len() && #[trigger] zs[i].config.zonepath@ == s.zonepath@ {
        Some("zonecfg: zonepath "@ + s.zonepath@ + " is in use"@)
    } else {
        None
    }
}

fn drop_attr(attrs: &mut Vec<(String, String)>, k: &str)
    ensures
        pair_views(final(attrs)@) == attr_drop(pair_views(old(attrs)@), k@),
{
    let ghost pv = pair_views(attrs@);
    let ghost pred = key_is(k@);
    let mut i: usize = 0;
    while i < attrs.len()
        invariant
            0 <= i <= attrs@.len(),
            attrs@ == old(attrs)@,
            pv == pair_views(attrs@),
            pred == key_is(k@),
            forall|j: int| 0 <= j < i ==> !pred(pv[j]),
        decreases attrs@.len() - i,
    {
        if str_eq(attrs[i].0.as_str(), k) {
            proof {
                lemma_first_where(pv, pred, i as int);
            }
            attrs.remove(i);
            assert(pair_views(attrs@) =~= pv.remove(i as int));
            return;
        }
        i = i + 1;
    }
    proof {
        lemma_none_where(pv, pred);
    }
}

fn copy_text(o: &Option<String>) -> (r: Option<String>)
    ensures
        opt_view(r) == opt_view(*o),
{
    match o {
        Some(t) => Some(t.clone()),
        None => None,
    }
}

fn copy_nics(ns: &Vec<ZoneNic>) -> (r: Vec<ZoneNic>)
    ensures
        nic_views(r@) == nic_views(ns@),
{
    let mut out: Vec<ZoneNic> = Vec::new();
    let mut i: usize = 0;
    while i < ns.len()
        invariant
            0 <= i <= ns@.len(),
            nic_views(out@) == nic_views(ns@.take(i as int)),
        decreases ns@.len() - i,
    {
        let n = &ns[i];
        let c = ZoneNic {
            name: n.name.clone(),
            over: n.over.clone(),
            mac: copy_text(&n.mac),
            vid: n.vid,
            address: copy_text(&n.address),
            gateway: copy_text(&n.gateway),
        };
        assert(nic_view(c) == nic_view(*n));
        let ghost before = out@;
        out.push(c);
        assert(ns@.take(i + 1) == ns@.take(i as int).push(ns@[i as int]));
        assert(nic_views(out@) =~= nic_views(before).push(nic_view(c)));
        assert(nic_views(ns@.take(i as int).push(ns@[i as int])) =~= nic_views(ns@.take(i as int)).push(nic_view(ns@[i as int])));
        i = i + 1;
    }
    assert(ns@.take(ns@.len() as int) == ns@);
    out
}

/// Bring a configuration to a spec.
fn apply_spec(c: &mut ZoneConfig, spec: &ZoneSpec)
    ensures
        applied(*old(c), *spec, *final(c)),
{
    c.autoboot = spec.autoboot;
    c.nics = copy_nics(&spec.nics);
    c.cpu_cap = copy_text(&spec.cpu_cap);
    c.memory_cap = spec.memory_cap;
    let mut attrs: Vec<(String, String)> = Vec::new();
    std::mem::swap(&mut attrs, &mut c.attrs);
    if !crate::zones::parse::attr_present(&spec.attrs, "hostname") {
        drop_attr(&mut attrs, "hostname");
    }
    if !crate::zones::parse::attr_present(&spec.attrs, "resolvers") {
        drop_attr(&mut attrs, "resolvers");
    }
    let ghost start = pair_views(attrs@);
    assert(start == managed_kept(pair_views(old(c).attrs@), spec.attrs@));
    let mut i: usize = 0;
    while i < spec.attrs.len()
        invariant
            0 <= i <= spec.attrs@.len(),
            pair_views(attrs@) == attrs_put(start, spec.attrs@.take(i as int)),
        decreases spec.attrs@.len() - i,
    {
        assert(spec.attrs@.take(i + 1).drop_last() == spec.attrs@.take(i as int));
        put_attr(&mut attrs, chars_of(spec.attrs[i].0.as_str()), chars_of(spec.attrs[i].1.as_str()));
        i = i + 1;
    }
    assert(spec.attrs@.take(i as int) == spec.attrs@);
    c.attrs = attrs;
}

impl FakeZones {
    fn zonepath_used(&self, zonepath: &str) -> (r: bool)
        ensures
            r == exists|i: int| 0 <= i < self.zone_list().len()
                && #[trigger] self.zone_list()[i].config.zonepath@ == zonepath@,
    {
        let mut i: usize = 0;
        while i < self.zones.len()
            invariant
                0 <= i <= self.zones@.len(),
                self.zone_list() == self.zones@,
                forall|j: int| 0 <= j < i ==> #[trigger] self.zone_list()[j].config.zonepath@ != zonepath@,
            decreases self.zones@.len() - i,
        {
            if str_eq(self.zones[i].config.zonepath.as_str(), zonepath) {
                assert(self.zone_list()[i as int].config.zonepath@ == zonepath@);
                return true;
            }
            i = i + 1;
        }
        false
    }

    /// Configure a new zone from a spec, as `zonecfg create`; it starts
    /// configured.
    pub fn create(&mut self, spec: &ZoneSpec) -> (r: Result<(), ZoneError>)
        requires
            old(self).wf(),
        ensures
            final(self).wf(),
            r is Err <==> create_refusal(old(self).zone_list(), *spec) is Some,
            r matches Err(e) ==> zone_tool_error_is(e, create_refusal(old(self).zone_list(), *spec)->0),
            r is Err ==> final(self).zone_list() == old(self).zone_list(),
            r is Ok ==> exists|c: ZoneConfig| #[trigger] created(c, *spec)
                && final(self).zone_list() == put(
                    old(self).zone_list(),
                    ZoneEntry { config: c, state: ZoneState::Configured },
                ),
    {
        proof {
            lemma_index_has(self.zones@, spec.name@);
        }
        if find_key(&self.zones, spec.name.as_str()).is_some() {
            let m = text3("zonecfg: zone '", spec.name.as_str(), "': Zone already exists");
            return Err(tool_error(m.as_slice()));
        }
        if !valid_zone_name(spec.name.as_str()) {
            proof {
                reveal_strlit("zonecfg: invalid zone name");
            }
            return Err(tool_error(chars_of("zonecfg: invalid zone name").as_slice()));
        }
        if self.zonepath_used(spec.zonepath.as_str()) {
            let m = text3("zonecfg: zonepath ", spec.zonepath.as_str(), " is in use");
            return Err(tool_error(m.as_slice()));
        }
        let mut config = ZoneConfig {
            name: spec.name.clone(),
            brand: spec.brand.clone(),
            zonepath: spec.zonepath.clone(),
            autoboot: false,
            ip_type: "exclusive".to_owned(),
            nics: Vec::new(),
            cpu_cap: None,
            memory_cap: None,
            attrs: Vec::new(),
            devices: Vec::new(),
            fs: Vec::new(),
            datasets: Vec::new(),
            other: Vec::new(),
        };
        proof {
            let e = Seq::<(Seq<char>, Seq<char>)>::empty();
            assert(pair_views(config.attrs@) =~= e);
            crate::text::lemma_first_where_none(e, key_is("hostname"@));
            crate::text::lemma_first_where_none(e, key_is("resolvers"@));
            assert(managed_kept(e, spec.attrs@) == e);
        }
        apply_spec(&mut config, spec);
        let en = ZoneEntry { config, state: ZoneState::Configured };
        assert(created(en.config, *spec));
        proof {
            lemma_put_sorted(self.zones@, en);
        }
        put_item(&mut self.zones, en);
        Ok(())
    }

    /// Bring an existing zone's configuration to a spec, as `zonecfg`
    /// would with the update script.
    pub fn update(&mut self, spec: &ZoneSpec) -> (r: Result<(), ZoneError>)
        requires
            old(self).wf(),
        ensures
            final(self).wf(),
            r is Ok <==> has_key(old(self).zone_list(), spec.name@),
            r matches Err(e) ==> zone_tool_error_is(e, missing_zone(spec.name@)),
            r is Err ==> final(self).zone_list() == old(self).zone_list(),
            r is Ok ==> exists|c: ZoneConfig| applied(entry(old(self).zone_list(), spec.name@).config, *spec, c)
                && final(self).zone_list() == put(
                    old(self).zone_list(),
                    #[trigger] with_config(entry(old(self).zone_list(), spec.name@), c),
                ),
    {
        proof {
            lemma_index_has(self.zones@, spec.name@);
        }
        let i = match find_key(&self.zones, spec.name.as_str()) {
            Some(i) => i,
            None => {
                return Err(not_found(spec.name.as_str()));
            },
        };
        proof {
            lemma_entry_at(self.zones@, spec.name@, i as int);
        }
        let ghost before = self.zones@;
        let mut e = self.zones.remove(i);
        apply_spec(&mut e.config, spec);
        assert(e == with_config(before[i as int], e.config));
        proof {
            lemma_put_back(before, i as int, e);
            lemma_put_sorted(before, e);
        }
        self.zones.insert(i, e);
        Ok(())
    }

    /// Set one attribute of a zone, as `zonecfg` would.
    pub fn set_attr(&mut self, name: &str, key: &str, value: &str) -> (r: Result<(), ZoneError>)
        requires
            old(self).wf(),
        ensures
            final(self).wf(),
            r is Ok <==> has_key(old(self).zone_list(), name@),
            r matches Err(e) ==> zone_tool_error_is(e, missing_zone(name@)),
            r is Err ==> final(self).zone_list() == old(self).zone_list(),
            r is Ok ==> exists|c: ZoneConfig| {
                &&& c == ZoneConfig { attrs: c.attrs, ..entry(old(self).zone_list(), name@).config }
                &&& pair_views(c.attrs@) == attr_put(
                    pair_views(entry(old(self).zone_list(), name@).config.attrs@),
                    key@,
                    value@,
                )
                &&& final(self).zone_list() == put(
                    old(self).zone_list(),
                    #[trigger] with_config(entry(old(self).zone_list(), name@), c),
                )
            },
    {
        proof {
            lemma_index_has(self.zones@, name@);
        }
        let i = match find_key(&self.zones, name) {
            Some(i) => i,
            None => {
                return Err(not_found(name));
            },
        };
        proof {
            lemma_entry_at(self.zones@, name@, i as int);
        }
        let ghost before = self.zones@;
        let mut e = self.zones.remove(i);
        let mut attrs: Vec<(String, String)> = Vec::new();
        std::mem::swap(&mut attrs, &mut e.config.attrs);
        put_attr(&mut attrs, chars_of(key), chars_of(value));
        e.config.attrs = attrs;
        assert(e == with_config(before[i as int], e.config));
        proof {
            lemma_put_back(before, i as int, e);
            lemma_put_sorted(before, e);
        }
        self.zones.insert(i, e);
        Ok(())
    }
}

} // verus!
