//! Boot environments: `beadm list -H` and an in-memory host that follows
//! beadm's rules.
use vstd::prelude::*;
use crate::common::id::{Id, uuid_parse};
use crate::common::shell::ShellError;
use crate::common::timestamp::{MAX_UNIX, MIN_UNIX, Timestamp};
use crate::net::parse::opt_view;
use crate::text::{
    chars_of, concat, content_lines, content_lines_of, dec, dec_chars, first_where, has_char, is,
    lemma_first_where, lemma_none_where, parse_i64, parse_signed, parse_u64, parse_unsigned,
    split_char, split_on, string_from, views,
};
use crate::zfs::types::{ZfsError, tool_error, tool_error_is};

verus! {

/// A boot environment.
#[derive(Debug, Clone)]
pub struct BootEnvironment {
    /// The `beadm` uuid.
    pub id: Id,
    /// Name.
    pub name: String,
    /// Boots next (`R`).
    pub active: bool,
    /// Booted now (`N`).
    pub booted: bool,
    /// Mountpoint, when mounted.
    pub mountpoint: Option<String>,
    /// Space used.
    pub space_bytes: u64,
    /// Retention policy.
    pub policy: Option<String>,
    /// Created.
    pub created_at: Timestamp,
}

/// The `;`-separated fields of a `beadm list -H` line.
pub open spec fn be_fields(l: Seq<char>) -> Seq<Seq<char>> {
    split_char(l, ';')
}

/// A creation column: seconds since the epoch that `time` can hold.
pub open spec fn be_time(f: Seq<char>) -> Option<int> {
    match parse_signed(f, i64::MIN as int, i64::MAX as int) {
        Some(n) => if MIN_UNIX <= n <= MAX_UNIX { Some(n) } else { None },
        None => None,
    }
}

/// Why a `beadm list -H` line is refused, if it is.
pub open spec fn be_line_error(line: Seq<char>) -> Option<Seq<char>> {
    let f = be_fields(line);
    if f.len() < 7 {
        Some("expected 7 fields, got "@ + dec(f.len()) + ": "@ + line)
    } else if uuid_parse(f[1]) is None {
        Some("bad uuid for "@ + f[0] + ": "@ + f[1])
    } else if parse_unsigned(f[4], 10, u64::MAX as int) is None {
        Some("bad space for "@ + f[0] + ": "@ + f[4])
    } else if be_time(f[6]) is None {
        Some("bad creation time for "@ + f[0] + ": "@ + f[6])
    } else {
        None
    }
}

/// Whether a `beadm list -H` line is refused.
pub open spec fn be_line_bad() -> spec_fn(Seq<char>) -> bool {
    |l: Seq<char>| be_line_error(l) is Some
}

/// A column where `-` and empty mean none.
pub open spec fn dash_opt(f: Seq<char>) -> Option<Seq<char>> {
    if f == "-"@ || f.len() == 0 { None } else { Some(f) }
}

/// What a `beadm list -H` line gives.
pub open spec fn be_row_ok(b: BootEnvironment, f: Seq<Seq<char>>) -> bool {
    &&& uuid_parse(f[1]) == Some(b.id.value())
    &&& b.name@ == f[0]
    &&& b.active == f[2].contains('R')
    &&& b.booted == f[2].contains('N')
    &&& opt_view(b.mountpoint) == dash_opt(f[3])
    &&& parse_unsigned(f[4], 10, u64::MAX as int) == Some(b.space_bytes as int)
    &&& opt_view(b.policy) == dash_opt(f[5])
    &&& be_time(f[6]) == Some(b.created_at.unix()) && b.created_at.subsec() == 0
}

fn dash_field(f: &[char]) -> (r: Option<String>)
    ensures
        opt_view(r) == dash_opt(f@),
{
    if is(f, "-") || f.len() == 0 {
        None
    } else {
        Some(string_from(f))
    }
}

fn be_detail(a: &str, name: &[char], b: &str, value: &[char]) -> (r: Vec<char>)
    ensures
        r@ == a@ + name@ + b@ + value@,
{
    let x = concat(chars_of(a).as_slice(), name);
    let y = concat(x.as_slice(), chars_of(b).as_slice());
    concat(y.as_slice(), value)
}

fn be_row(line: &[char]) -> (r: Result<BootEnvironment, Vec<char>>)
    ensures
        be_line_error(line@) matches Some(d) ==> (r matches Err(e) && e@ == d),
        be_line_error(line@) is None ==> (r matches Ok(b) && be_row_ok(b, be_fields(line@))),
{
    let f = split_on(line, ';');
    if f.len() < 7 {
        let a = concat(chars_of("expected 7 fields, got ").as_slice(), dec_chars(f.len() as u64).as_slice());
        let b = concat(a.as_slice(), chars_of(": ").as_slice());
        return Err(concat(b.as_slice(), line));
    }
    proof {
        assert forall|i: int| 0 <= i < 7 implies f@[i]@ == be_fields(line@)[i] by {}
    }
    let id = match Id::parse(string_from(f[1].as_slice()).as_str()) {
        Some(id) => id,
        None => return Err(be_detail("bad uuid for ", f[0].as_slice(), ": ", f[1].as_slice())),
    };
    let space_bytes = match parse_u64(f[4].as_slice()) {
        Some(n) => n,
        None => return Err(be_detail("bad space for ", f[0].as_slice(), ": ", f[4].as_slice())),
    };
    let created_at = match parse_i64(f[6].as_slice()) {
        Some(n) => match Timestamp::from_unix(n) {
            Some(t) => t,
            None => return Err(be_detail("bad creation time for ", f[0].as_slice(), ": ", f[6].as_slice())),
        },
        None => return Err(be_detail("bad creation time for ", f[0].as_slice(), ": ", f[6].as_slice())),
    };
    Ok(BootEnvironment {
        id,
        name: string_from(f[0].as_slice()),
        active: has_char(f[2].as_slice(), 'R'),
        booted: has_char(f[2].as_slice(), 'N'),
        mountpoint: dash_field(f[3].as_slice()),
        space_bytes,
        policy: dash_field(f[5].as_slice()),
        created_at,
    })
}

/// Parse `beadm list -H`: `name;uuid;active;mountpoint;space;policy;created`.
/// The active column holds flags: `N` booted now, `R` boots next, `-` none.
pub fn parse_list(out: &str) -> (r: Result<Vec<BootEnvironment>, ZfsError>)
    ensures
        r is Ok <==> first_where(content_lines(out@), be_line_bad()) is None,
        r matches Ok(v) ==> v@.len() == content_lines(out@).len()
            && forall|i: int| 0 <= i < v@.len() ==> be_row_ok(#[trigger] v@[i], be_fields(content_lines(out@)[i])),
        r matches Err(e) ==> first_where(content_lines(out@), be_line_bad()) matches Some(k)
            && crate::zfs::parse::parse_error_is(e, "beadm list -H"@, be_line_error(content_lines(out@)[k])->0),
{
    let c = chars_of(out);
    let ls = content_lines_of(c.as_slice());
    let ghost lv = content_lines(out@);
    let ghost bad = be_line_bad();
    let mut v: Vec<BootEnvironment> = Vec::new();
    let mut i: usize = 0;
    while i < ls.len()
        invariant
            0 <= i <= ls@.len(),
            views(ls@) == lv,
            lv == content_lines(out@),
            bad == be_line_bad(),
            v@.len() == i,
            forall|j: int| 0 <= j < i ==> !bad(lv[j]),
            forall|j: int| 0 <= j < i ==> be_row_ok(#[trigger] v@[j], be_fields(lv[j])),
        decreases ls@.len() - i,
    {
        assert(ls@[i as int]@ == lv[i as int]);
        match be_row(ls[i].as_slice()) {
            Ok(b) => {
                v.push(b);
            },
            Err(d) => {
                proof {
                    lemma_first_where(lv, bad, i as int);
                }
                return Err(ZfsError::Parse { command: "beadm list -H".to_owned(), detail: string_from(d.as_slice()) });
            },
        }
        i = i + 1;
    }
    proof {
        lemma_none_where(lv, bad);
    }
    Ok(v)
}


/// In-memory boot environments with beadm's observable rules.
pub struct FakeBeadm {
    bes: Vec<BootEnvironment>,
}

/// The boot environment named `name`.
pub open spec fn be_named(name: Seq<char>) -> spec_fn(BootEnvironment) -> bool {
    |b: BootEnvironment| b.name@ == name
}

/// No two boot environments share a name.
pub open spec fn distinct_names(envs: Seq<BootEnvironment>) -> bool {
    forall|i: int, j: int| 0 <= i < j < envs.len() ==> (#[trigger] envs[i]).name@ != (#[trigger] envs[j]).name@
}

/// At most one boot environment boots next.
pub open spec fn one_active(envs: Seq<BootEnvironment>) -> bool {
    forall|i: int, j: int| 0 <= i < envs.len() && 0 <= j < envs.len() && (#[trigger] envs[i]).active
        && (#[trigger] envs[j]).active ==> i == j
}

/// The boot environment that boots next.
pub open spec fn be_active() -> spec_fn(BootEnvironment) -> bool {
    |b: BootEnvironment| b.active
}

/// `b` as `a` but for the active flag.
pub open spec fn same_but_active(a: BootEnvironment, b: BootEnvironment) -> bool {
    &&& a.id == b.id
    &&& a.name@ == b.name@
    &&& a.booted == b.booted
    &&& opt_view(a.mountpoint) == opt_view(b.mountpoint)
    &&& a.space_bytes == b.space_bytes
    &&& opt_view(a.policy) == opt_view(b.policy)
    &&& a.created_at == b.created_at
}

fn copy_opt(o: &Option<String>) -> (r: Option<String>)
    ensures
        opt_view(r) == opt_view(*o),
{
    match o {
        Some(s) => Some(s.clone()),
        None => None,
    }
}

fn be_copy(b: &BootEnvironment, active: bool) -> (r: BootEnvironment)
    ensures
        same_but_active(*b, r),
        r.active == active,
{
    BootEnvironment {
        id: b.id,
        name: b.name.clone(),
        active,
        booted: b.booted,
        mountpoint: copy_opt(&b.mountpoint),
        space_bytes: b.space_bytes,
        policy: copy_opt(&b.policy),
        created_at: b.created_at,
    }
}

fn position_named(bes: &Vec<BootEnvironment>, name: &str) -> (r: Option<usize>)
    ensures
        r matches Some(k) ==> first_where(bes@, be_named(name@)) == Some(k as int) && k < bes@.len(),
        r is None ==> first_where(bes@, be_named(name@)) is None,
{
    let ghost p = be_named(name@);
    let mut i: usize = 0;
    while i < bes.len()
        invariant
            0 <= i <= bes@.len(),
            p == be_named(name@),
            forall|j: int| 0 <= j < i ==> !p(bes@[j]),
        decreases bes@.len() - i,
    {
        if crate::text::str_eq(bes[i].name.as_str(), name) {
            proof {
                lemma_first_where(bes@, p, i as int);
            }
            return Some(i);
        }
        i = i + 1;
    }
    proof {
        lemma_none_where(bes@, p);
    }
    None
}

impl FakeBeadm {
    /// The boot environments, in `beadm`'s order.
    pub closed spec fn envs(&self) -> Seq<BootEnvironment> {
        self.bes@
    }

    /// One BE, booted and active: `mandrake-0.1.0`.
    pub fn typical() -> (r: FakeBeadm)
        ensures
            r.envs().len() == 1,
            r.envs()[0].name@ == "mandrake-0.1.0"@,
            r.envs()[0].active && r.envs()[0].booted,
            opt_view(r.envs()[0].mountpoint) == Some("/"@),
            r.envs()[0].space_bytes == 8123456789,
            opt_view(r.envs()[0].policy) == Some("static"@),
            r.envs()[0].created_at.unix() == 1756684800,
            distinct_names(r.envs()),
            one_active(r.envs()),
    {
        let created_at = match Timestamp::from_unix(1756684800) {
            Some(t) => t,
            None => Timestamp::now(),
        };
        let be = BootEnvironment {
            id: Id::new(),
            name: "mandrake-0.1.0".to_owned(),
            active: true,
            booted: true,
            mountpoint: Some("/".to_owned()),
            space_bytes: 8123456789,
            policy: Some("static".to_owned()),
            created_at,
        };
        let mut bes: Vec<BootEnvironment> = Vec::new();
        bes.push(be);
        FakeBeadm { bes }
    }

    /// Every boot environment, in order.
    pub fn list(&self) -> (r: Vec<BootEnvironment>)
        ensures
            r@.len() == self.envs().len(),
            forall|i: int| 0 <= i < r@.len() ==> same_but_active(self.envs()[i], #[trigger] r@[i])
                && r@[i].active == self.envs()[i].active,
    {
        let mut out: Vec<BootEnvironment> = Vec::new();
        let mut i: usize = 0;
        while i < self.bes.len()
            invariant
                0 <= i <= self.bes@.len(),
                out@.len() == i,
                forall|j: int| 0 <= j < i ==> same_but_active(self.bes@[j], #[trigger] out@[j])
                    && out@[j].active == self.bes@[j].active,
            decreases self.bes@.len() - i,
        {
            out.push(be_copy(&self.bes[i], self.bes[i].active));
            i = i + 1;
        }
        out
    }

    /// `beadm create <name>`: a new, inactive BE with the active BE's
    /// policy; refused when the name is taken or nothing is active.
    pub fn create(&mut self, name: &str) -> (r: Result<(), ZfsError>)
        ensures
            first_where(old(self).envs(), be_named(name@)) is Some ==> (r matches Err(e)
                && tool_error_is(e, "BE "@ + name@ + " already exists"@) && final(self).envs() == old(self).envs()),
            first_where(old(self).envs(), be_named(name@)) is None && first_where(old(self).envs(), be_active()) is None
                ==> (r matches Err(e) && tool_error_is(e, "no active BE to clone"@) && final(self).envs() == old(self).envs()),
            first_where(old(self).envs(), be_named(name@)) is None ==> (first_where(old(self).envs(), be_active()) matches Some(a)
                ==> {
                    &&& r is Ok
                    &&& final(self).envs().len() == old(self).envs().len() + 1
                    &&& final(self).envs().drop_last() == old(self).envs()
                    &&& final(self).envs().last().name@ == name@
                    &&& !final(self).envs().last().active && !final(self).envs().last().booted
                    &&& final(self).envs().last().mountpoint is None
                    &&& final(self).envs().last().space_bytes == 0
                    &&& opt_view(final(self).envs().last().policy) == opt_view(old(self).envs()[a].policy)
                }),
            distinct_names(old(self).envs()) ==> distinct_names(final(self).envs()),
            one_active(old(self).envs()) ==> one_active(final(self).envs()),
    {
        if position_named(&self.bes, name).is_some() {
            let a = concat(chars_of("BE ").as_slice(), chars_of(name).as_slice());
            let m = concat(a.as_slice(), chars_of(" already exists").as_slice());
            return Err(tool_error(m.as_slice()));
        }
        let ghost p = be_active();
        let mut k: usize = 0;
        while k < self.bes.len() && !self.bes[k].active
            invariant
                0 <= k <= self.bes@.len(),
                p == be_active(),
                forall|j: int| 0 <= j < k ==> !p(self.bes@[j]),
            decreases self.bes@.len() - k,
        {
            k = k + 1;
        }
        if k == self.bes.len() {
            proof {
                lemma_none_where(self.bes@, p);
            }
            return Err(tool_error(chars_of("no active BE to clone").as_slice()));
        }
        proof {
            lemma_first_where(self.bes@, p, k as int);
        }
        let policy = copy_opt(&self.bes[k].policy);
        let be = BootEnvironment {
            id: Id::new(),
            name: string_from(chars_of(name).as_slice()),
            active: false,
            booted: false,
            mountpoint: None,
            space_bytes: 0,
            policy,
            created_at: Timestamp::now(),
        };
        self.bes.push(be);
        assert(self.bes@.drop_last() == old(self).bes@);
        Ok(())
    }

    /// `beadm activate <name>`: that BE, and only it, boots next.
    pub fn activate(&mut self, name: &str) -> (r: Result<(), ZfsError>)
        ensures
            first_where(old(self).envs(), be_named(name@)) is None ==> (r matches Err(ZfsError::NotFound(m))
                && m@ == "BE "@ + name@ && final(self).envs() == old(self).envs()),
            first_where(old(self).envs(), be_named(name@)) is Some ==> {
                &&& r is Ok
                &&& final(self).envs().len() == old(self).envs().len()
                &&& forall|i: int| 0 <= i < old(self).envs().len() ==> same_but_active(old(self).envs()[i], #[trigger] final(self).envs()[i])
                    && final(self).envs()[i].active == (old(self).envs()[i].name@ == name@)
            },
            distinct_names(old(self).envs()) ==> distinct_names(final(self).envs()),
            distinct_names(old(self).envs()) && first_where(old(self).envs(), be_named(name@)) is Some
                ==> one_active(final(self).envs()),
    {
        if position_named(&self.bes, name).is_none() {
            let m = concat(chars_of("BE ").as_slice(), chars_of(name).as_slice());
            return Err(ZfsError::NotFound(string_from(m.as_slice())));
        }
        let mut out: Vec<BootEnvironment> = Vec::new();
        let mut i: usize = 0;
        while i < self.bes.len()
            invariant
                0 <= i <= self.bes@.len(),
                self.bes@ == old(self).bes@,
                out@.len() == i,
                forall|j: int| 0 <= j < i ==> same_but_active(self.bes@[j], #[trigger] out@[j])
                    && out@[j].active == (self.bes@[j].name@ == name@),
            decreases self.bes@.len() - i,
        {
            let on = crate::text::str_eq(self.bes[i].name.as_str(), name);
            out.push(be_copy(&self.bes[i], on));
            i = i + 1;
        }
        self.bes = out;
        Ok(())
    }

    /// `beadm destroy -F <name>`: refused for the active or booted BE.
    pub fn destroy(&mut self, name: &str) -> (r: Result<(), ZfsError>)
        ensures
            first_where(old(self).envs(), be_named(name@)) is None ==> (r matches Err(ZfsError::NotFound(m))
                && m@ == "BE "@ + name@ && final(self).envs() == old(self).envs()),
            first_where(old(self).envs(), be_named(name@)) matches Some(k) ==> (if old(self).envs()[k].booted || old(self).envs()[k].active {
                r matches Err(e) && tool_error_is(e, "Unable to destroy "@ + name@ + ": it is the active or booted BE"@)
                    && final(self).envs() == old(self).envs()
            } else {
                r is Ok && final(self).envs() == old(self).envs().remove(k)
            }),
            distinct_names(old(self).envs()) ==> distinct_names(final(self).envs()),
            one_active(old(self).envs()) ==> one_active(final(self).envs()),
    {
        let k = match position_named(&self.bes, name) {
            Some(k) => k,
            None => {
                let m = concat(chars_of("BE ").as_slice(), chars_of(name).as_slice());
                return Err(ZfsError::NotFound(string_from(m.as_slice())));
            },
        };
        if self.bes[k].booted || self.bes[k].active {
            let a = concat(chars_of("Unable to destroy ").as_slice(), chars_of(name).as_slice());
            let m = concat(a.as_slice(), chars_of(": it is the active or booted BE").as_slice());
            return Err(tool_error(m.as_slice()));
        }
        self.bes.remove(k);
        Ok(())
    }
}

impl Default for FakeBeadm {
    fn default() -> (r: FakeBeadm)
        ensures
            r.envs().len() == 1,
    {
        FakeBeadm::typical()
    }
}

} // verus!
