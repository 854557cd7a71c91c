//! Points in time, always UTC, at nanosecond resolution.
use vstd::prelude::*;

verus! {

/// The earliest second the `time` crate represents: -9999-01-01T00:00:00Z.
pub const MIN_UNIX: i64 = -377705203200;

/// The latest second the `time` crate represents: 9999-12-31T23:59:59Z.
pub const MAX_UNIX: i64 = 253402300799;

/// The first second of year 0: 0000-01-01T00:00:00Z. RFC 3339 has no
/// earlier years.
pub const YEAR_ZERO_UNIX: i64 = -62167219200;

/// Nanoseconds in a second.
pub const NANOS_PER_SECOND: u32 = 1000000000;

/// What `time` prints for a UTC instant in RFC 3339.
pub uninterp spec fn rfc3339_text(secs: int, nanos: int) -> Seq<char>;

/// What `time` reads from an RFC 3339 text, as UTC seconds and nanoseconds.
pub uninterp spec fn rfc3339_parse(text: Seq<char>) -> Option<(i64, u32)>;

/// What `time::PrimitiveDateTime::parse` reads from a text in a format
/// description, taken as UTC seconds and nanoseconds.
pub uninterp spec fn primitive_parse_utc(text: Seq<char>, format: Seq<char>) -> Option<(i64, u32)>;

/// A point in time, always UTC.
#[derive(Debug, Clone, Copy, PartialEq, Eq, Structural, PartialOrd, Ord, Hash)]
pub struct Timestamp {
    secs: i64,
    nanos: u32,
}

/// Whether seconds and nanoseconds name an instant `time` represents.
pub open spec fn in_range(secs: int, nanos: int) -> bool {
    MIN_UNIX <= secs <= MAX_UNIX && 0 <= nanos < NANOS_PER_SECOND
}

/// `time::OffsetDateTime::from_unix_timestamp(secs).is_ok()`.
#[verifier::external_body]
fn unix_timestamp_ok(secs: i64) -> (r: bool)
    ensures
        r == (MIN_UNIX <= secs <= MAX_UNIX),
{
    time::OffsetDateTime::from_unix_timestamp(secs).is_ok()
}

/// `time::OffsetDateTime::now_utc()`, as seconds and nanoseconds.
#[verifier::external_body]
fn now_utc() -> (r: (i64, u32))
    ensures
        in_range(r.0 as int, r.1 as int),
{
    let t = time::OffsetDateTime::now_utc();
    (t.unix_timestamp(), t.nanosecond())
}

/// `OffsetDateTime::format(&Rfc3339)` of a UTC instant; from year 0 on,
/// parsing the text with the same format gives the instant back.
#[verifier::external_body]
fn format_rfc3339(secs: i64, nanos: u32) -> (r: String)
    requires
        in_range(secs as int, nanos as int),
    ensures
        r@ == rfc3339_text(secs as int, nanos as int),
        secs >= YEAR_ZERO_UNIX ==> rfc3339_parse(r@) == Some((secs, nanos)),
{
    let t = match time::OffsetDateTime::from_unix_timestamp(secs) {
        Ok(t) => t,
        Err(_) => time::OffsetDateTime::UNIX_EPOCH,
    };
    let t = match t.replace_nanosecond(nanos) {
        Ok(n) => n,
        Err(_) => t,
    };
    t.format(&time::format_description::well_known::Rfc3339).unwrap_or_default()
}

/// `OffsetDateTime::parse(text, &Rfc3339)`, as UTC seconds and
/// nanoseconds. The parser accepts offsets up to a day and does not check
/// that the instant in UTC is one `time` represents, so nothing is said of
/// the seconds' range; the nanoseconds are below a second.
#[verifier::external_body]
fn parse_rfc3339_utc(text: &str) -> (r: Option<(i64, u32)>)
    ensures
        r == rfc3339_parse(text@),
        r matches Some(p) ==> p.1 < NANOS_PER_SECOND,
{
    time::OffsetDateTime::parse(text, &time::format_description::well_known::Rfc3339)
        .ok()
        .map(|t| (t.unix_timestamp(), t.nanosecond()))
}

/// `PrimitiveDateTime::parse(text, &format_description::parse(format))`,
/// assumed UTC.
#[verifier::external_body]
fn parse_primitive_utc(text: &str, format: &str) -> (r: Option<(i64, u32)>)
    ensures
        r == primitive_parse_utc(text@, format@),
        r matches Some(p) ==> in_range(p.0 as int, p.1 as int),
{
    let items = time::format_description::parse(format).ok()?;
    let t = time::PrimitiveDateTime::parse(text, &items).ok()?.assume_utc();
    Some((t.unix_timestamp(), t.nanosecond()))
}

/// Whole seconds of a span, truncated toward zero as
/// `Duration::whole_seconds` does.
pub open spec fn whole_seconds(nanos: int) -> int {
    if nanos >= 0 {
        nanos / NANOS_PER_SECOND as int
    } else {
        -((-nanos) / NANOS_PER_SECOND as int)
    }
}

proof fn lemma_whole_seconds(d: int, nd: int)
    requires
        -1000000000 < nd < 1000000000,
    ensures
        whole_seconds(d * 1000000000 + nd) == if d > 0 {
            if nd >= 0 { d } else { d - 1 }
        } else if d < 0 {
            if nd <= 0 { d } else { d + 1 }
        } else {
            0
        },
{
    let span = d * 1000000000 + nd;
    if d > 0 {
        if nd >= 0 {
            assert(span / 1000000000 == d) by (nonlinear_arith)
                requires span == d * 1000000000 + nd, 0 <= nd < 1000000000;
        } else {
            assert(span / 1000000000 == d - 1) by (nonlinear_arith)
                requires span == (d - 1) * 1000000000 + (1000000000 + nd), 0 <= 1000000000 + nd < 1000000000, d >= 1;
        }
    } else if d < 0 {
        if nd <= 0 {
            assert((-span) / 1000000000 == -d) by (nonlinear_arith)
                requires -span == (-d) * 1000000000 + (-nd), 0 <= -nd < 1000000000;
        } else {
            assert((-span) / 1000000000 == -d - 1) by (nonlinear_arith)
                requires -span == (-d - 1) * 1000000000 + (1000000000 - nd), 0 <= 1000000000 - nd < 1000000000, d <= -1;
        }
    } else {
        if nd >= 0 {
            assert(span / 1000000000 == 0) by (nonlinear_arith)
                requires span == nd, 0 <= nd < 1000000000;
        } else {
            assert((-span) / 1000000000 == 0) by (nonlinear_arith)
                requires span == nd, -1000000000 < nd < 0;
        }
    }
}

/// Whether `a` is a later instant than `b`.
pub open spec fn later(a: Timestamp, b: Timestamp) -> bool {
    a.unix() > b.unix() || (a.unix() == b.unix() && a.subsec() > b.subsec())
}

impl Timestamp {
    /// The well-formedness every timestamp keeps.
    #[verifier::type_invariant]
    spec fn wf(self) -> bool {
        in_range(self.secs as int, self.nanos as int)
    }

    /// Seconds since the Unix epoch, in the contracts.
    pub closed spec fn unix(&self) -> int {
        self.secs as int
    }

    /// Nanoseconds within the second, in the contracts.
    pub closed spec fn subsec(&self) -> int {
        self.nanos as int
    }

    /// Whether this is a later instant than `other`, as `>` orders them.
    pub fn is_after(self, other: Timestamp) -> (r: bool)
        ensures
            r == later(self, other),
    {
        self.secs > other.secs || (self.secs == other.secs && self.nanos > other.nanos)
    }

    /// The current time.
    pub fn now() -> (r: Timestamp)
        ensures
            in_range(r.unix(), r.subsec()),
    {
        let (secs, nanos) = now_utc();
        Timestamp { secs, nanos }
    }

    /// The instant `secs` seconds after the Unix epoch, when `time`
    /// represents it.
    pub fn from_unix(secs: i64) -> (r: Option<Timestamp>)
        ensures
            r is Some <==> MIN_UNIX <= secs <= MAX_UNIX,
            r matches Some(t) ==> t.unix() == secs && t.subsec() == 0,
    {
        if unix_timestamp_ok(secs) {
            Some(Timestamp { secs, nanos: 0 })
        } else {
            None
        }
    }

    /// This time plus `secs` seconds (negative moves back).
    pub fn plus_seconds(self, secs: i64) -> (r: Timestamp)
        requires
            MIN_UNIX <= self.unix() + secs <= MAX_UNIX,
        ensures
            r.unix() == self.unix() + secs,
            r.subsec() == self.subsec(),
    {
        proof {
            use_type_invariant(&self);
        }
        Timestamp { secs: self.secs + secs, nanos: self.nanos }
    }

    /// Whole seconds from `earlier` to this time; negative if this is
    /// earlier.
    pub fn seconds_since(self, earlier: Timestamp) -> (r: i64)
        ensures
            r == whole_seconds((self.unix() - earlier.unix()) * NANOS_PER_SECOND as int
                + self.subsec() - earlier.subsec()),
    {
        proof {
            use_type_invariant(&self);
            use_type_invariant(&earlier);
        }
        let d: i64 = self.secs - earlier.secs;
        let nd: i64 = self.nanos as i64 - earlier.nanos as i64;
        proof {
            lemma_whole_seconds(d as int, nd as int);
        }
        if d > 0 {
            if nd >= 0 { d } else { d - 1 }
        } else if d < 0 {
            if nd <= 0 { d } else { d + 1 }
        } else {
            0
        }
    }

    /// The RFC 3339 text form, for example `2026-09-01T12:00:00Z`. From
    /// year 0 on, reading the text back gives this instant.
    pub fn to_rfc3339(self) -> (r: String)
        ensures
            r@ == rfc3339_text(self.unix(), self.subsec()),
            self.unix() >= YEAR_ZERO_UNIX ==> rfc3339_parse(r@) == Some((self.unix() as i64, self.subsec() as u32)),
    {
        proof {
            use_type_invariant(&self);
        }
        format_rfc3339(self.secs, self.nanos)
    }

    /// The instant an RFC 3339 text names; `None` when the text is not
    /// RFC 3339, or names an instant (with its offset taken off) outside
    /// the years `time` represents.
    pub fn parse_rfc3339(text: &str) -> (r: Option<Timestamp>)
        ensures
            r matches Some(t) ==> rfc3339_parse(text@) == Some((t.unix() as i64, t.subsec() as u32)),
            r is None <==> !(rfc3339_parse(text@) matches Some(p) && MIN_UNIX <= p.0 <= MAX_UNIX),
    {
        match parse_rfc3339_utc(text) {
            Some((secs, nanos)) => {
                if MIN_UNIX <= secs && secs <= MAX_UNIX {
                    Some(Timestamp { secs, nanos })
                } else {
                    None
                }
            },
            None => None,
        }
    }

    /// The instant a text names in a `time` format description, as UTC.
    pub fn parse_format_utc(text: &str, format: &str) -> (r: Option<Timestamp>)
        ensures
            r matches Some(t) ==> primitive_parse_utc(text@, format@) == Some((t.unix() as i64, t.subsec() as u32)),
            r is None ==> primitive_parse_utc(text@, format@) is None,
    {
        match parse_primitive_utc(text, format) {
            Some((secs, nanos)) => Some(Timestamp { secs, nanos }),
            None => None,
        }
    }
}

/// Moving forward `n` seconds and asking how far that is gives `n`.
pub proof fn lemma_plus_then_since(t: Timestamp, later: Timestamp, n: int)
    requires
        later.unix() == t.unix() + n,
        later.subsec() == t.subsec(),
    ensures
        whole_seconds((later.unix() - t.unix()) * NANOS_PER_SECOND as int + later.subsec() - t.subsec()) == n,
{
    let span = n * NANOS_PER_SECOND as int;
    assert((later.unix() - t.unix()) * NANOS_PER_SECOND as int + later.subsec() - t.subsec() == span);
    if n >= 0 {
        assert(span / 1000000000 == n) by (nonlinear_arith)
            requires
                span == n * 1000000000,
        ;
    } else {
        assert((-span) / 1000000000 == -n) by (nonlinear_arith)
            requires
                span == n * 1000000000,
        ;
    }
}

impl std::str::FromStr for Timestamp {
    type Err = ();

    fn from_str(s: &str) -> Result<Timestamp, ()> {
        match Timestamp::parse_rfc3339(s) {
            Some(t) => Ok(t),
            None => Err(()),
        }
    }
}

} // verus!
