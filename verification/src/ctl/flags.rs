//! The client's flag values: NIC specs, sizes, vdev specs, and where a
//! password comes from.
use vstd::prelude::*;
use crate::common::zone::ZoneNic;
use crate::ctl::client::Error;
use crate::text::{
    chars_of, chars_of_string, concat, is, lower, lowered, parse_u16, parse_unsigned, split_char, split_on,
    split_once, split_once_at, string_from, strip_trailing, trim, trimmed, views, without_trailing,
};
use crate::text::{all_digits, mantissa_ok, mantissa_syntax};
use crate::zfs::parse::{
    decimal_parts, decimal_split, find_number_end, lemma_parts_digits, number_end, scaled, scaled_value,
};

verus! {

/// Every piece trimmed.
pub open spec fn trim_each(ps: Seq<Seq<char>>) -> Seq<Seq<char>> {
    ps.map_values(|p: Seq<char>| trim(p))
}

fn trimmed_pieces(s: &[char], sep: char) -> (r: Vec<Vec<char>>)
    ensures
        views(r@) == trim_each(split_char(s@, sep)),
{
    let parts = split_on(s, sep);
    let mut out: Vec<Vec<char>> = Vec::new();
    let mut i: usize = 0;
    while i < parts.len()
        invariant
            0 <= i <= parts@.len(),
            views(parts@) == split_char(s@, sep),
            views(out@) == trim_each(views(parts@).take(i as int)),
        decreases parts@.len() - i,
    {
        let t = trimmed(parts[i].as_slice());
        let ghost before = views(out@);
        out.push(t);
        assert(views(out@) == before.push(t@));
        assert(views(parts@).take(i + 1) == views(parts@).take(i as int).push(parts@[i as int]@));
        assert(trim_each(views(parts@).take(i + 1)) =~= trim_each(views(parts@).take(i as int)).push(t@));
        i = i + 1;
    }
    assert(views(parts@).take(parts@.len() as int) == views(parts@));
    out
}

/// The options of a NIC spec as they stand: MAC, VLAN id, address, gateway.
pub type NicOptions = (Option<Seq<char>>, Option<int>, Option<Seq<char>>, Option<Seq<char>>);

/// One `key=value` option applied, or why it cannot be.
pub open spec fn nic_option(o: NicOptions, extra: Seq<char>) -> Result<NicOptions, Seq<char>> {
    match split_once(extra, '=') {
        None => Err("nic option must be key=value: "@ + extra),
        Some((k, v)) => if k == "vid"@ {
            match parse_unsigned(v, 10, 65535) {
                Some(n) => Ok((o.0, Some(n), o.2, o.3)),
                None => Err("bad vid: "@ + v),
            }
        } else if k == "address"@ {
            Ok((o.0, o.1, Some(v), o.3))
        } else if k == "gateway"@ {
            Ok((o.0, o.1, o.2, Some(v)))
        } else if k == "mac"@ {
            Ok((Some(v), o.1, o.2, o.3))
        } else {
            Err("unknown nic option: "@ + k)
        },
    }
}

/// The options applied in order; the first bad one is the error.
pub open spec fn nic_options(extras: Seq<Seq<char>>) -> Result<NicOptions, Seq<char>>
    decreases extras.len(),
{
    if extras.len() == 0 {
        Ok((None, None, None, None))
    } else {
        match nic_options(extras.drop_last()) {
            Err(e) => Err(e),
            Ok(o) => nic_option(o, extras.last()),
        }
    }
}

/// What a NIC spec gives: name, link, and options, or the message.
pub open spec fn nic_spec(text: Seq<char>) -> Result<(Seq<char>, Seq<char>, NicOptions), Seq<char>> {
    let parts = trim_each(split_char(text, ','));
    if parts[0].len() == 0 || parts.len() < 2 || parts[1].len() == 0 {
        Err("nic needs NAME,OVER: "@ + text)
    } else {
        match nic_options(parts.skip(2)) {
            Err(e) => Err(e),
            Ok(o) => Ok((parts[0], parts[1], o)),
        }
    }
}

/// A NIC's options as the contracts see them.
pub open spec fn nic_options_of(n: ZoneNic) -> NicOptions {
    (
        match n.mac { Some(m) => Some(m@), None => None },
        match n.vid { Some(v) => Some(v as int), None => None },
        match n.address { Some(a) => Some(a@), None => None },
        match n.gateway { Some(g) => Some(g@), None => None },
    )
}

/// `NAME,OVER[,vid=N][,address=A/P][,gateway=G][,mac=M]` to a NIC: pieces
/// split on commas and trimmed, the first two non-empty, each further one
/// a known `key=value`; a later option replaces an earlier one.
pub fn parse_nic(text: &str) -> (r: Result<ZoneNic, Error>)
    ensures
        r matches Ok(n) ==> nic_spec(text@) == Ok::<(Seq<char>, Seq<char>, NicOptions), Seq<char>>(
            (n.name@, n.over@, nic_options_of(n))),
        r matches Err(e) ==> nic_spec(text@) matches Err(m) && e matches Error::Config(t) && t@ == m,
{
    let c = chars_of(text);
    let parts = trimmed_pieces(c.as_slice(), ',');
    proof {
        crate::text::lemma_split_char_nonempty(c@, ',');
    }
    if parts[0].len() == 0 || parts.len() < 2 || parts[1].len() == 0 {
        let msg = concat(chars_of("nic needs NAME,OVER: ").as_slice(), c.as_slice());
        return Err(Error::Config(string_from(msg.as_slice())));
    }
    let ghost ps = views(parts@);
    let mut nic = ZoneNic {
        name: string_from(parts[0].as_slice()),
        over: string_from(parts[1].as_slice()),
        mac: None,
        vid: None,
        address: None,
        gateway: None,
    };
    let mut i: usize = 2;
    assert(ps.skip(2).take(0) =~= Seq::<Seq<char>>::empty());
    while i < parts.len()
        invariant
            2 <= i <= parts@.len(),
            ps == views(parts@),
            ps == trim_each(split_char(text@, ',')),
            ps.len() >= 2 && ps[0].len() > 0 && ps[1].len() > 0,
            nic.name@ == ps[0],
            nic.over@ == ps[1],
            nic_options(ps.skip(2).take(i - 2)) == Ok::<NicOptions, Seq<char>>(nic_options_of(nic)),
        decreases parts@.len() - i,
    {
        let extra = &parts[i];
        let ghost before = nic_options_of(nic);
        assert(ps.skip(2).take(i - 1).drop_last() == ps.skip(2).take(i - 2));
        assert(ps.skip(2).take(i - 1).last() == extra@);
        match split_once_at(extra.as_slice(), '=') {
            None => {
                let msg = concat(chars_of("nic option must be key=value: ").as_slice(), extra.as_slice());
                proof { lemma_options_stop(ps.skip(2), i - 1); }
                return Err(Error::Config(string_from(msg.as_slice())));
            },
            Some((k, v)) => {
                if is(k.as_slice(), "vid") {
                    match parse_u16(v.as_slice()) {
                        Some(n) => {
                            nic.vid = Some(n);
                        },
                        None => {
                            let msg = concat(chars_of("bad vid: ").as_slice(), v.as_slice());
                            proof { lemma_options_stop(ps.skip(2), i - 1); }
                            return Err(Error::Config(string_from(msg.as_slice())));
                        },
                    }
                } else if is(k.as_slice(), "address") {
                    nic.address = Some(string_from(v.as_slice()));
                } else if is(k.as_slice(), "gateway") {
                    nic.gateway = Some(string_from(v.as_slice()));
                } else if is(k.as_slice(), "mac") {
                    nic.mac = Some(string_from(v.as_slice()));
                } else {
                    let msg = concat(chars_of("unknown nic option: ").as_slice(), k.as_slice());
                    proof { lemma_options_stop(ps.skip(2), i - 1); }
                    return Err(Error::Config(string_from(msg.as_slice())));
                }
            },
        }
        i = i + 1;
    }
    assert(ps.skip(2).take(i - 2) == ps.skip(2));
    Ok(nic)
}

/// Once an option fails, the options as a whole fail with its message.
proof fn lemma_options_stop(extras: Seq<Seq<char>>, n: int)
    requires
        0 < n <= extras.len(),
        nic_options(extras.take(n)) is Err,
    ensures
        nic_options(extras) == nic_options(extras.take(n)),
    decreases extras.len() - n,
{
    if n < extras.len() {
        assert(extras.take(n + 1).drop_last() == extras.take(n));
        lemma_options_stop(extras, n + 1);
    } else {
        assert(extras.take(n) == extras);
    }
}

/// A size unit's multiplier: the unit trimmed, lower-cased, and stripped
/// of trailing `b`s and then `i`s.
pub open spec fn flag_unit_mult(u: Seq<char>) -> Option<int> {
    let w = strip_trailing(strip_trailing(lower(trim(u)), 'b'), 'i');
    if w.len() == 0 {
        Some(1)
    } else if w == "k"@ {
        Some(1024)
    } else if w == "m"@ {
        Some(1048576)
    } else if w == "g"@ {
        Some(1073741824)
    } else if w == "t"@ {
        Some(1099511627776)
    } else if w == "p"@ {
        Some(1125899906842624)
    } else {
        None
    }
}

/// `10G`, `512M`, `1.5T`, `4K`, or plain bytes, in bytes: the decimal
/// times its unit, rounded half up and capped at `u64::MAX`.
pub open spec fn flag_size(text: Seq<char>) -> Option<int> {
    let t = trim(text);
    let number = t.take(number_end(t));
    match flag_unit_mult(t.skip(number_end(t))) {
        Some(m) => if mantissa_syntax(number) {
            Some(scaled_value(decimal_parts(number).0, decimal_parts(number).1, m))
        } else {
            None
        },
        None => None,
    }
}

fn unit_mult_of(u: &[char]) -> (r: Option<u64>)
    ensures
        r matches Some(m) ==> flag_unit_mult(u@) == Some(m as int) && 1 <= m <= 1125899906842624,
        r is None ==> flag_unit_mult(u@) is None,
{
    let t = trimmed(u);
    let l = lowered(t.as_slice());
    let w1 = without_trailing(l.as_slice(), 'b');
    let w = without_trailing(w1.as_slice(), 'i');
    if w.len() == 0 {
        Some(1)
    } else if is(w.as_slice(), "k") {
        Some(1024)
    } else if is(w.as_slice(), "m") {
        Some(1048576)
    } else if is(w.as_slice(), "g") {
        Some(1073741824)
    } else if is(w.as_slice(), "t") {
        Some(1099511627776)
    } else if is(w.as_slice(), "p") {
        Some(1125899906842624)
    } else {
        None
    }
}

/// `10G`, `512M`, `1.5T`, `4K`, or plain bytes.
pub fn parse_size(text: &str) -> (r: Result<u64, Error>)
    ensures
        r matches Ok(v) ==> flag_size(text@) == Some(v as int),
        r matches Err(e) ==> (e matches Error::Config(m) && m@ == "not a size: "@ + text@ && flag_size(text@) is None),
{
    let c = chars_of(text);
    let t = trimmed(c.as_slice());
    let k = find_number_end(t.as_slice());
    let number = crate::text::slice(t.as_slice(), 0, k);
    let unit = crate::text::drop_front(t.as_slice(), k);
    assert(number@ == t@.take(k as int));
    let bad = concat(chars_of("not a size: ").as_slice(), c.as_slice());
    let m = match unit_mult_of(unit.as_slice()) {
        Some(m) => m,
        None => return Err(Error::Config(string_from(bad.as_slice()))),
    };
    if !mantissa_ok(number.as_slice()) {
        return Err(Error::Config(string_from(bad.as_slice())));
    }
    let (a, b) = decimal_split(number.as_slice());
    proof {
        lemma_parts_digits(number@);
    }
    Ok(scaled(a.as_slice(), b.as_slice(), m))
}

/// What a size flag asks: `none` clears it, anything else is a size.
pub fn size_patch(text: &str) -> (r: Result<Option<u64>, Error>)
    ensures
        lower(text@) == "none"@ ==> r matches Ok(None),
        lower(text@) != "none"@ ==> (r matches Ok(Some(v)) ==> flag_size(text@) == Some(v as int)),
        lower(text@) != "none"@ ==> (r matches Err(e) ==> (e matches Error::Config(m)
            && m@ == "not a size: "@ + text@ && flag_size(text@) is None)),
        lower(text@) != "none"@ ==> !(r matches Ok(None)),
{
    let c = chars_of(text);
    if is(lowered(c.as_slice()).as_slice(), "none") {
        return Ok(None);
    }
    match parse_size(text) {
        Ok(v) => Ok(Some(v)),
        Err(e) => Err(e),
    }
}

/// A vdev as the pool API takes it.
#[derive(Debug, Clone)]
pub struct VdevArg {
    /// `mirror`, `raidz1`, `log`, and the like.
    pub type_: String,
    /// Disks.
    pub devices: Vec<String>,
}

/// The vdev types the API knows.
pub open spec fn known_vdev_type(t: Seq<char>) -> bool {
    t == "stripe"@ || t == "mirror"@ || t == "raidz1"@ || t == "raidz2"@ || t == "raidz3"@
        || t == "log"@ || t == "cache"@ || t == "spare"@
}

/// The devices of a vdev spec: the comma pieces trimmed, empty ones left
/// out.
pub open spec fn vdev_devices(d: Seq<char>) -> Seq<Seq<char>> {
    trim_each(split_char(d, ',')).filter(|p: Seq<char>| p.len() > 0)
}

/// What a vdev spec gives: type and devices, or the message.
pub open spec fn vdev_spec(text: Seq<char>) -> Result<(Seq<char>, Seq<Seq<char>>), Seq<char>> {
    match split_once(text, ':') {
        None => Err("vdev must be TYPE:DEV[,DEV...]: "@ + text),
        Some((t, d)) => if vdev_devices(d).len() == 0 {
            Err("vdev has no devices: "@ + text)
        } else if !known_vdev_type(t) {
            Err("unknown vdev type: "@ + t)
        } else {
            Ok((t, vdev_devices(d)))
        },
    }
}

/// The views of some strings.
pub open spec fn string_seq(v: Seq<String>) -> Seq<Seq<char>> {
    v.map_values(|s: String| s@)
}

/// `TYPE:DEV[,DEV...]` to a vdev spec.
pub fn parse_vdev(text: &str) -> (r: Result<VdevArg, Error>)
    ensures
        r matches Ok(v) ==> vdev_spec(text@) == Ok::<(Seq<char>, Seq<Seq<char>>), Seq<char>>(
            (v.type_@, string_seq(v.devices@))),
        r matches Err(e) ==> vdev_spec(text@) matches Err(m) && e matches Error::Config(t) && t@ == m,
{
    let c = chars_of(text);
    let (t, d) = match split_once_at(c.as_slice(), ':') {
        Some(p) => p,
        None => {
            let msg = concat(chars_of("vdev must be TYPE:DEV[,DEV...]: ").as_slice(), c.as_slice());
            return Err(Error::Config(string_from(msg.as_slice())));
        },
    };
    let pieces = trimmed_pieces(d.as_slice(), ',');
    let ghost keep = |p: Seq<char>| p.len() > 0;
    let mut devices: Vec<String> = Vec::new();
    let mut i: usize = 0;
    while i < pieces.len()
        invariant
            0 <= i <= pieces@.len(),
            keep == (|p: Seq<char>| p.len() > 0),
            string_seq(devices@) == views(pieces@).take(i as int).filter(keep),
        decreases pieces@.len() - i,
    {
        proof {
            reveal_with_fuel(Seq::filter, 1);
            assert(views(pieces@).take(i + 1).drop_last() == views(pieces@).take(i as int));
            assert(views(pieces@).take(i + 1).last() == pieces@[i as int]@);
        }
        if pieces[i].len() > 0 {
            let ghost before = string_seq(devices@);
            devices.push(string_from(pieces[i].as_slice()));
            assert(string_seq(devices@) == before.push(pieces@[i as int]@));
        }
        i = i + 1;
    }
    assert(views(pieces@).take(pieces@.len() as int) == views(pieces@));
    if devices.len() == 0 {
        let msg = concat(chars_of("vdev has no devices: ").as_slice(), c.as_slice());
        return Err(Error::Config(string_from(msg.as_slice())));
    }
    let known = is(t.as_slice(), "stripe") || is(t.as_slice(), "mirror") || is(t.as_slice(), "raidz1")
        || is(t.as_slice(), "raidz2") || is(t.as_slice(), "raidz3") || is(t.as_slice(), "log")
        || is(t.as_slice(), "cache") || is(t.as_slice(), "spare");
    if !known {
        let msg = concat(chars_of("unknown vdev type: ").as_slice(), t.as_slice());
        return Err(Error::Config(string_from(msg.as_slice())));
    }
    Ok(VdevArg { type_: string_from(t.as_slice()), devices })
}

/// How a password is supplied.
#[derive(Debug, Clone)]
pub struct PasswordArgs {
    /// The password.
    pub password: Option<String>,
    /// Read the password from the first line of stdin.
    pub password_stdin: bool,
}

/// The password: the flag's value, else the first stdin line when asked
/// to read stdin.
pub fn password_from(args: &PasswordArgs, stdin_lines: &[String]) -> (r: Result<String, Error>)
    ensures
        args.password matches Some(p) ==> (r matches Ok(q) && q@ == p@),
        args.password is None && args.password_stdin && stdin_lines@.len() > 0
            ==> (r matches Ok(q) && q@ == stdin_lines@[0]@),
        args.password is None && args.password_stdin && stdin_lines@.len() == 0
            ==> (r matches Err(e) && (e matches Error::Config(m) && m@ == "no password on stdin"@)),
        args.password is None && !args.password_stdin ==> (r matches Err(e) && (e matches Error::Config(m)
            && m@ == "give the password with --password, MANDRAKE_PASSWORD, or --password-stdin"@)),
{
    if let Some(p) = &args.password {
        return Ok(p.clone());
    }
    if args.password_stdin {
        if stdin_lines.len() > 0 {
            return Ok(stdin_lines[0].clone());
        }
        return Err(Error::Config("no password on stdin".to_owned()));
    }
    Err(Error::Config("give the password with --password, MANDRAKE_PASSWORD, or --password-stdin".to_owned()))
}

} // verus!
