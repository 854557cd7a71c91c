//! Parsers for `zpool`, `zfs`, and `diskinfo` output.
use vstd::prelude::*;
use crate::common::storage::{Bytes, DatasetKind, PoolHealth, VdevType, health_of};
use crate::common::timestamp::{MAX_UNIX, Timestamp};
use crate::net::parse::opt_view;
use crate::zfs::types::{DatasetInfo, DeviceInfo, SnapshotInfo, ZfsError};
use crate::text::{content_lines, content_lines_of, split_char, split_on, first_where, lemma_first_where, lemma_none_where};
use crate::text::{
    all_digits, chars_of, concat, digit_run, digit_value, digits_value, drop_front, float_ok,
    float_syntax, is, is_digit, lower, mantissa_syntax, parse_u64, parse_unsigned, slice,
    split_once, split_once_at, starts_with, strip_trailing, string_from, trim, trimmed, views,
    without_trailing, has_prefix,
};

verus! {

/// `-`, an empty field, and `none` mean not applicable in `-H` output.
pub open spec fn zopt(f: Seq<char>) -> Option<Seq<char>> {
    if f == "-"@ || f.len() == 0 || f == "none"@ {
        None
    } else {
        Some(f)
    }
}

/// The view of an optional character vector.
pub open spec fn opt_chars(o: Option<Vec<char>>) -> Option<Seq<char>> {
    match o {
        Some(v) => Some(v@),
        None => None,
    }
}

/// An optional `-H` field.
pub fn field_opt(f: &[char]) -> (r: Option<Vec<char>>)
    ensures
        opt_chars(r) == zopt(f@),
{
    if is(f, "-") || f.len() == 0 || is(f, "none") {
        None
    } else {
        let v = slice(f, 0, f.len());
        assert(f@.subrange(0, f@.len() as int) == f@);
        Some(v)
    }
}

/// An optional field as a `String`.
pub fn field_string(f: &[char]) -> (r: Option<String>)
    ensures
        crate::net::parse::opt_view(r) == zopt(f@),
{
    match field_opt(f) {
        Some(v) => Some(string_from(v.as_slice())),
        None => None,
    }
}

/// An optional unsigned field.
pub open spec fn znum(f: Seq<char>) -> Option<int> {
    match zopt(f) {
        Some(x) => parse_unsigned(x, 10, u64::MAX as int),
        None => None,
    }
}

/// An optional unsigned field.
pub fn field_num(f: &[char]) -> (r: Option<u64>)
    ensures
        r matches Some(v) ==> znum(f@) == Some(v as int),
        r is None ==> znum(f@) is None,
{
    match field_opt(f) {
        Some(x) => parse_u64(x.as_slice()),
        None => None,
    }
}

/// A percentage column: the number before its `%` signs, when it fits a
/// `u32`.
pub open spec fn zpct(f: Seq<char>) -> Option<u32> {
    match znum(strip_trailing(f, '%')) {
        Some(n) => if n <= u32::MAX { Some(n as u32) } else { None },
        None => None,
    }
}

fn field_pct(f: &[char]) -> (r: Option<u32>)
    ensures
        r == zpct(f@),
{
    let t = without_trailing(f, '%');
    match field_num(t.as_slice()) {
        Some(n) => if n <= u32::MAX as u64 { Some(n as u32) } else { None },
        None => None,
    }
}

/// A ratio column such as `1.50x`: the decimal without its `x`, when
/// `f64` reads it.
pub open spec fn zratio(f: Seq<char>) -> Option<Seq<char>> {
    match zopt(f) {
        Some(x) => if float_syntax(strip_trailing(x, 'x')) { Some(strip_trailing(x, 'x')) } else { None },
        None => None,
    }
}

fn field_ratio(f: &[char]) -> (r: Option<String>)
    ensures
        crate::net::parse::opt_view(r) == zratio(f@),
{
    match field_opt(f) {
        Some(x) => {
            let t = without_trailing(x.as_slice(), 'x');
            if float_ok(t.as_slice()) {
                Some(string_from(t.as_slice()))
            } else {
                None
            }
        },
        None => None,
    }
}

/// `yes`/`on` and `no`/`off`.
pub open spec fn yes_no(f: Seq<char>) -> Option<bool> {
    if f == "yes"@ || f == "on"@ {
        Some(true)
    } else if f == "no"@ || f == "off"@ {
        Some(false)
    } else {
        None
    }
}

fn field_yes_no(f: &[char]) -> (r: Option<bool>)
    ensures
        r == yes_no(f@),
{
    if is(f, "yes") || is(f, "on") {
        Some(true)
    } else if is(f, "no") || is(f, "off") {
        Some(false)
    } else {
        None
    }
}

/// The position of the last `c` in `s`.
pub open spec fn last_pos(s: Seq<char>, c: char) -> Option<int>
    decreases s.len(),
{
    if s.len() == 0 {
        None
    } else if s.last() == c {
        Some(s.len() - 1)
    } else {
        last_pos(s.drop_last(), c)
    }
}

proof fn lemma_last_pos(s: Seq<char>, c: char)
    ensures
        last_pos(s, c) matches Some(k) ==> 0 <= k < s.len() && s[k] == c,
    decreases s.len(),
{
    if s.len() > 0 && s.last() != c {
        lemma_last_pos(s.drop_last(), c);
    }
}

/// A vdev name without a numeric `-N` suffix (`mirror-0` is a mirror).
pub open spec fn vdev_base(name: Seq<char>) -> Seq<char> {
    match last_pos(name, '-') {
        Some(k) => if forall|i: int| k + 1 <= i < name.len() ==> is_digit(#[trigger] name[i]) {
            name.take(k)
        } else {
            name
        },
        None => name,
    }
}

/// The kind of a vdev from its name and depth.
pub open spec fn vdev_kind(name: Seq<char>, level: int) -> VdevType {
    let b = vdev_base(name);
    if level == 0 {
        VdevType::Root
    } else if b == "mirror"@ {
        VdevType::Mirror
    } else if b == "raidz1"@ || b == "raidz"@ {
        VdevType::Raidz1
    } else if b == "raidz2"@ {
        VdevType::Raidz2
    } else if b == "raidz3"@ {
        VdevType::Raidz3
    } else if b == "replacing"@ {
        VdevType::Replacing
    } else if b == "spare"@ {
        VdevType::SpareGroup
    } else if b == "logs"@ {
        VdevType::Log
    } else if b == "cache"@ {
        VdevType::Cache
    } else if b == "spares"@ {
        VdevType::Spare
    } else if starts_with(name, "/"@) {
        VdevType::File
    } else {
        VdevType::Disk
    }
}

fn base_name(name: &[char]) -> (r: Vec<char>)
    ensures
        r@ == vdev_base(name@),
{
    let mut n: usize = name.len();
    assert(name@.take(name@.len() as int) == name@);
    while n > 0 && name[n - 1] != '-'
        invariant
            0 <= n <= name@.len(),
            last_pos(name@, '-') == last_pos(name@.take(n as int), '-'),
        decreases n,
    {
        assert(name@.take(n as int).drop_last() == name@.take(n - 1));
        n = n - 1;
    }
    proof {
        assert(name@.take(name@.len() as int) == name@);
    }
    if n == 0 {
        let r = slice(name, 0, name.len());
        assert(name@.subrange(0, name@.len() as int) == name@);
        return r;
    }
    let k = n - 1;
    assert(last_pos(name@, '-') == Some(k as int));
    let mut i: usize = n;
    while i < name.len()
        invariant
            n <= i <= name@.len(),
            k + 1 == n,
            last_pos(name@, '-') == Some(k as int),
            forall|j: int| n <= j < i ==> is_digit(#[trigger] name@[j]),
        decreases name@.len() - i,
    {
        if name[i] < '0' || name[i] > '9' {
            assert(!is_digit(name@[i as int]));
            let r = slice(name, 0, name.len());
            assert(name@.subrange(0, name@.len() as int) == name@);
            return r;
        }
        i = i + 1;
    }
    slice(name, 0, k)
}

/// The kind of a vdev from its name and depth.
pub fn vdev_type(name: &[char], level: u128) -> (r: VdevType)
    ensures
        r == vdev_kind(name@, level as int),
{
    if level == 0 {
        return VdevType::Root;
    }
    let b = base_name(name);
    let b = b.as_slice();
    if is(b, "mirror") {
        VdevType::Mirror
    } else if is(b, "raidz1") || is(b, "raidz") {
        VdevType::Raidz1
    } else if is(b, "raidz2") {
        VdevType::Raidz2
    } else if is(b, "raidz3") {
        VdevType::Raidz3
    } else if is(b, "replacing") {
        VdevType::Replacing
    } else if is(b, "spare") {
        VdevType::SpareGroup
    } else if is(b, "logs") {
        VdevType::Log
    } else if is(b, "cache") {
        VdevType::Cache
    } else if is(b, "spares") {
        VdevType::Spare
    } else if has_prefix(name, "/") {
        VdevType::File
    } else {
        VdevType::Disk
    }
}


/// Ten to the power `n`.
pub open spec fn p10(n: nat) -> nat
    decreases n,
{
    if n == 0 {
        1
    } else {
        10 * p10((n - 1) as nat)
    }
}

proof fn lemma_p10_pos(n: nat)
    ensures
        p10(n) >= 1,
    decreases n,
{
    if n > 0 {
        lemma_p10_pos((n - 1) as nat);
    }
}

/// The value of a ZFS unit: powers of 1024.
pub open spec fn unit_mult(u: Seq<char>) -> Option<int> {
    if u.len() == 0 || u == "B"@ {
        Some(1)
    } else if u == "K"@ || u == "KB"@ {
        Some(1024)
    } else if u == "M"@ || u == "MB"@ {
        Some(1048576)
    } else if u == "G"@ || u == "GB"@ {
        Some(1073741824)
    } else if u == "T"@ || u == "TB"@ {
        Some(1099511627776)
    } else if u == "P"@ || u == "PB"@ {
        Some(1125899906842624)
    } else {
        None
    }
}

fn unit_value(u: &[char]) -> (r: Option<u64>)
    ensures
        r matches Some(m) ==> unit_mult(u@) == Some(m as int),
        r is None ==> unit_mult(u@) is None,
{
    if u.len() == 0 || is(u, "B") {
        Some(1)
    } else if is(u, "K") || is(u, "KB") {
        Some(1024)
    } else if is(u, "M") || is(u, "MB") {
        Some(1048576)
    } else if is(u, "G") || is(u, "GB") {
        Some(1073741824)
    } else if is(u, "T") || is(u, "TB") {
        Some(1099511627776)
    } else if is(u, "P") || is(u, "PB") {
        Some(1125899906842624)
    } else {
        None
    }
}

/// Where the number in a size ends: at the first character that is
/// neither a digit nor `.`.
pub open spec fn number_end(t: Seq<char>) -> int {
    match crate::text::first_where(t, |c: char| !is_digit(c) && c != '.') {
        Some(i) => i,
        None => t.len() as int,
    }
}

/// A decimal's integer and fraction digits.
pub open spec fn decimal_parts(d: Seq<char>) -> (Seq<char>, Seq<char>) {
    match split_once(d, '.') {
        Some((a, b)) => (a, b),
        None => (d, Seq::<char>::empty()),
    }
}

/// `x` rounded half up: the nearest integer to `num / den`, for positive
/// `den`.
pub open spec fn round_div(num: int, den: int) -> int {
    (2 * num + den) / (2 * den)
}

/// A human size such as `1.5G` in bytes: the decimal times its unit,
/// rounded to the nearest integer (halves up) and capped at `u64::MAX`;
/// `None` when the number or the unit is not one.
pub open spec fn size_value(s: Seq<char>) -> Option<int> {
    let t = trim(s);
    size_of_parts(t.take(number_end(t)), trim(t.skip(number_end(t))))
}

/// `a.b` times `m`, rounded half up and capped at `u64::MAX`.
#[verifier::opaque]
pub open spec fn scaled_value(a: Seq<char>, b: Seq<char>, m: int) -> int {
    capped(round_div(digits_value(a + b, 10) * m, p10(b.len()) as int))
}

/// A decimal `d` in the unit `u`, in bytes.
pub open spec fn size_of_parts(d: Seq<char>, u: Seq<char>) -> Option<int> {
    match unit_mult(u) {
        Some(m) => if mantissa_syntax(d) {
            Some(scaled_value(decimal_parts(d).0, decimal_parts(d).1, m))
        } else {
            None
        },
        None => None,
    }
}

proof fn lemma_digits_concat(x: Seq<char>, y: Seq<char>)
    ensures
        digits_value(x + y, 10) == digits_value(x, 10) * p10(y.len()) + digits_value(y, 10),
    decreases y.len(),
{
    if y.len() == 0 {
        assert(x + y == x);
        assert(digits_value(y, 10) == 0);
        assert(p10(0) == 1);
    } else {
        assert((x + y).drop_last() == x + y.drop_last());
        assert((x + y).last() == y.last());
        lemma_digits_concat(x, y.drop_last());
        let a = digits_value(x, 10);
        let p = p10((y.len() - 1) as nat);
        let b = digits_value(y.drop_last(), 10);
        let l = match digit_value(y.last(), 10) {
            Some(v) => v,
            None => 0,
        };
        assert(digits_value(x + y, 10) == digits_value(x + y.drop_last(), 10) * 10 + l);
        assert(digits_value(y, 10) == b * 10 + l);
        assert(p10(y.len()) == 10 * p);
        assert((a * p + b) * 10 == a * (10 * p) + b * 10) by (nonlinear_arith);
        assert(digits_value(x + y, 10) == (a * p + b) * 10 + l);
        assert(a * p10(y.len()) == a * (10 * p));
    }
}

proof fn lemma_digits_front(b: Seq<char>)
    requires
        b.len() > 0,
    ensures
        digits_value(b, 10) == digits_value(seq![b[0]], 10) * p10((b.len() - 1) as nat)
            + digits_value(b.drop_first(), 10),
{
    assert(b == seq![b[0]] + b.drop_first());
    lemma_digits_concat(seq![b[0]], b.drop_first());
}

proof fn lemma_digits_nonneg(b: Seq<char>)
    ensures
        digits_value(b, 10) >= 0,
    decreases b.len(),
{
    if b.len() > 0 {
        lemma_digits_nonneg(b.drop_last());
        let v = digit_value(b.last(), 10);
        assert(v matches Some(x) ==> x >= 0);
    }
}

/// Multiplying the fraction `0.b` by `m` digit by digit from the right:
/// the carry out and the last digit written.
pub open spec fn carry_of(b: Seq<char>, m: int) -> (int, int)
    decreases b.len(),
{
    if b.len() == 0 {
        (0, 0)
    } else {
        let t = digits_value(seq![b[0]], 10) * m + carry_of(b.drop_first(), m).0;
        (t / 10, t % 10)
    }
}

proof fn lemma_carry(b: Seq<char>, m: int)
    requires
        m >= 1,
        all_digits(b, 10),
    ensures
        ({
            let (c, lead) = carry_of(b, m);
            let r = digits_value(b, 10) * m - c * p10(b.len());
            &&& 0 <= c < m
            &&& 0 <= r < p10(b.len())
            &&& (b.len() > 0 ==> r / (p10((b.len() - 1) as nat) as int) == lead && 0 <= lead < 10)
        }),
    decreases b.len(),
{
    if b.len() > 0 {
        let rest = b.drop_first();
        assert(all_digits(rest, 10)) by {
            assert forall|i: int| 0 <= i < rest.len() implies (#[trigger] digit_value(rest[i], 10)) is Some by {
                assert(rest[i] == b[i + 1]);
            }
        }
        lemma_carry(rest, m);
        lemma_digits_front(b);
        let d = digits_value(seq![b[0]], 10);
        assert(seq![b[0]].drop_last() == Seq::<char>::empty());
        assert(seq![b[0]].last() == b[0]);
        assert(digit_value(b[0], 10) is Some);
        assert(digits_value(Seq::<char>::empty(), 10) == 0);
        assert(d == digit_value(b[0], 10)->0);
        assert(0 <= d < 10);
        let (c1, _) = carry_of(rest, m);
        let f1 = digits_value(rest, 10);
        let p = p10(rest.len());
        let r1 = f1 * m - c1 * p;
        lemma_p10_pos(rest.len());
        let t = d * m + c1;
        let c = t / 10;
        let lead = t % 10;
        assert(p10(b.len()) == 10 * p);
        assert(digits_value(b, 10) == d * p + f1);
        assert(0 <= t < 10 * m) by (nonlinear_arith)
            requires
                0 <= d < 10,
                0 <= c1 < m,
                t == d * m + c1,
        ;
        assert(0 <= c < m && 0 <= lead < 10 && t == 10 * c + lead) by (nonlinear_arith)
            requires
                0 <= t < 10 * m,
                c == t / 10,
                lead == t % 10,
        ;
        let r = digits_value(b, 10) * m - c * (10 * p);
        assert(r == lead * p + r1) by (nonlinear_arith)
            requires
                r == (d * p + f1) * m - c * (10 * p),
                r1 == f1 * m - c1 * p,
                d * m + c1 == 10 * c + lead,
        ;
        assert(0 <= r < 10 * p && r / (p as int) == lead) by (nonlinear_arith)
            requires
                r == lead * p + r1,
                0 <= r1 < p,
                0 <= lead < 10,
                p >= 1,
        ;
    }
}


proof fn lemma_round(x: int, r: int, d: int)
    requires
        d >= 1,
        0 <= r < d,
    ensures
        (2 * d * x + 2 * r + d) / (2 * d) == x + (if 2 * r >= d { 1int } else { 0int }),
{
    let q = x + (if 2 * r >= d { 1int } else { 0int });
    let num = 2 * d * x + 2 * r + d;
    assert(2 * d * q <= num < 2 * d * (q + 1)) by (nonlinear_arith)
        requires
            d >= 1,
            0 <= r < d,
            q == x + (if 2 * r >= d { 1int } else { 0int }),
            num == 2 * d * x + 2 * r + d,
    ;
    assert(num / (2 * d) == q) by (nonlinear_arith)
        requires
            2 * d * q <= num < 2 * d * (q + 1),
            d >= 1,
    ;
}

proof fn lemma_digits_prefix(a: Seq<char>, i: int)
    requires
        0 <= i <= a.len(),
    ensures
        digits_value(a, 10) >= digits_value(a.take(i), 10),
{
    assert(a == a.take(i) + a.skip(i));
    lemma_digits_concat(a.take(i), a.skip(i));
    lemma_p10_pos((a.len() - i) as nat);
    lemma_digits_nonneg(a.skip(i));
    lemma_digits_nonneg(a.take(i));
    let x = digits_value(a.take(i), 10);
    let p = p10((a.len() - i) as nat);
    assert(x * p >= x) by (nonlinear_arith)
        requires
            x >= 0,
            p >= 1,
    ;
}

/// The first position where a character is neither a digit nor `.`.
pub fn find_number_end(t: &[char]) -> (k: usize)
    ensures
        k as int == number_end(t@),
        k <= t.len(),
{
    let ghost pred = |c: char| !is_digit(c) && c != '.';
    let mut k: usize = 0;
    while k < t.len() && (('0' <= t[k] && t[k] <= '9') || t[k] == '.')
        invariant
            0 <= k <= t@.len(),
            pred == (|c: char| !is_digit(c) && c != '.'),
            forall|j: int| 0 <= j < k ==> !pred(t@[j]),
        decreases t@.len() - k,
    {
        k = k + 1;
    }
    proof {
        if k < t@.len() {
            crate::text::lemma_first_where(t@, pred, k as int);
        } else {
            crate::text::lemma_none_where(t@, pred);
        }
    }
    k
}

/// The decimal's digits with no leading `+`, when all are digits.
pub proof fn lemma_parts_digits(d: Seq<char>)
    requires
        mantissa_syntax(d),
    ensures
        all_digits(decimal_parts(d).0, 10),
        all_digits(decimal_parts(d).1, 10),
{
    let (a, b) = decimal_parts(d);
    assert forall|i: int| 0 <= i < a.len() implies (#[trigger] digit_value(a[i], 10)) is Some by {
        assert(is_digit(a[i]));
    }
    assert forall|i: int| 0 <= i < b.len() implies (#[trigger] digit_value(b[i], 10)) is Some by {
        assert(is_digit(b[i]));
    }
}

/// `1.23G`, `456M`, `789`, `2T` to bytes (powers of 1024), rounded to the
/// nearest byte.
pub fn size(s: &str) -> (r: Option<u64>)
    ensures
        r matches Some(v) ==> size_value(s@) == Some(v as int),
        r is None ==> size_value(s@) is None,
{
    let c = chars_of(s);
    size_chars(c.as_slice())
}

/// The value of a digit string, or `None` when it reaches 2^64.
fn int_part(a: &[char]) -> (r: Option<u128>)
    requires
        all_digits(a@, 10),
    ensures
        r matches Some(v) ==> v as int == digits_value(a@, 10) && v < 18446744073709551616,
        r is None ==> digits_value(a@, 10) >= 18446744073709551616,
{
    let mut iv: u128 = 0;
    let mut i: usize = 0;
    while i < a.len()
        invariant
            0 <= i <= a@.len(),
            all_digits(a@, 10),
            iv as int == digits_value(a@.take(i as int), 10),
            iv < 18446744073709551616,
        decreases a@.len() - i,
    {
        assert(a@.take(i + 1).drop_last() == a@.take(i as int));
        assert(a@.take(i + 1).last() == a@[i as int]);
        assert(digit_value(a@[i as int], 10) is Some);
        let dig = (a[i] as u32 - '0' as u32) as u128;
        assert(digit_value(a@[i as int], 10) == Some(dig as int));
        let next = iv * 10 + dig;
        if next >= 18446744073709551616 {
            proof {
                lemma_digits_prefix(a@, i + 1);
            }
            return None;
        }
        iv = next;
        i = i + 1;
    }
    assert(a@.take(a@.len() as int) == a@);
    Some(iv)
}

/// The fraction digits times `m`, digit by digit from the right.
fn frac_carry(b: &[char], m: u64) -> (r: (u128, u128))
    requires
        all_digits(b@, 10),
        1 <= m <= 1125899906842624,
    ensures
        (r.0 as int, r.1 as int) == carry_of(b@, m as int),
        r.0 < m,
{
    let mut j: usize = b.len();
    let mut carry: u128 = 0;
    let mut lead: u128 = 0;
    assert(b@.skip(b@.len() as int) == Seq::<char>::empty());
    while j > 0
        invariant
            0 <= j <= b@.len(),
            all_digits(b@, 10),
            1 <= m <= 1125899906842624,
            (carry as int, lead as int) == carry_of(b@.skip(j as int), m as int),
            carry < m,
        decreases j,
    {
        let ghost tail = b@.skip(j as int);
        assert(b@.skip(j - 1).drop_first() == tail);
        assert(b@.skip(j - 1)[0] == b@[j - 1]);
        assert(digit_value(b@[j - 1], 10) is Some);
        let dig = (b[j - 1] as u32 - '0' as u32) as u128;
        assert(seq![b@[j - 1]].drop_last() == Seq::<char>::empty());
        assert(seq![b@[j - 1]].last() == b@[j - 1]);
        assert(digits_value(Seq::<char>::empty(), 10) == 0);
        assert(digits_value(seq![b@[j - 1]], 10) == dig as int);
        assert(dig * (m as u128) <= 9 * 1125899906842624) by (nonlinear_arith)
            requires
                dig <= 9,
                m <= 1125899906842624,
        ;
        let old_carry = carry;
        let t = dig * (m as u128) + carry;
        carry = t / 10;
        lead = t % 10;
        assert(carry < m) by (nonlinear_arith)
            requires
                t == dig * (m as u128) + old_carry,
                dig <= 9,
                old_carry < m,
                carry == t / 10,
        ;
        j = j - 1;
    }
    assert(b@.skip(0) == b@);
    (carry, lead)
}

/// A count capped at `u64::MAX`.
pub open spec fn capped(v: int) -> int {
    if v > u64::MAX { u64::MAX as int } else { v }
}

proof fn lemma_rounded_total(b: Seq<char>, iv: int, mm: int, carry: int, lead: int)
    requires
        all_digits(b, 10),
        mm >= 1,
        (carry, lead) == carry_of(b, mm),
        iv >= 0,
    ensures
        round_div((iv * p10(b.len()) + digits_value(b, 10)) * mm, p10(b.len()) as int)
            == iv * mm + carry + (if b.len() > 0 && lead >= 5 { 1int } else { 0int }),
{
    lemma_carry(b, mm);
    lemma_p10_pos(b.len());
    let dd = p10(b.len()) as int;
    let fv = digits_value(b, 10);
    let n = iv * dd + fv;
    let rr = fv * mm - carry * dd;
    assert(2 * (n * mm) + dd == 2 * dd * (iv * mm + carry) + 2 * rr + dd) by (nonlinear_arith)
        requires
            n == iv * dd + fv,
            rr == fv * mm - carry * dd,
    ;
    lemma_round(iv * mm + carry, rr, dd);
    if b.len() > 0 {
        let pp = p10((b.len() - 1) as nat) as int;
        lemma_p10_pos((b.len() - 1) as nat);
        assert(dd == 10 * pp);
        assert((2 * rr >= dd) == (lead >= 5)) by (nonlinear_arith)
            requires
                dd == 10 * pp,
                pp >= 1,
                0 <= rr < dd,
                rr / pp == lead,
        ;
    } else {
        assert(dd == 1);
    }
}

proof fn lemma_rounded_big(n: int, av: int, fv: int, dd: int, mm: int)
    requires
        n == av * dd + fv,
        av >= 18446744073709551616,
        dd >= 1,
        fv >= 0,
        mm >= 1,
    ensures
        round_div(n * mm, dd) > u64::MAX,
{
    assert(n >= 18446744073709551616 * dd) by (nonlinear_arith)
        requires
            n == av * dd + fv,
            av >= 18446744073709551616,
            dd >= 1,
            fv >= 0,
    ;
    assert(round_div(n * mm, dd) >= 18446744073709551616) by (nonlinear_arith)
        requires
            n >= 18446744073709551616 * dd,
            mm >= 1,
            dd >= 1,
    ;
}

/// `a.b` times `m`, rounded half up and capped.
pub fn scaled(a: &[char], b: &[char], m: u64) -> (r: u64)
    requires
        all_digits(a@, 10),
        all_digits(b@, 10),
        1 <= m <= 1125899906842624,
    ensures
        r as int == scaled_value(a@, b@, m as int),
{
    proof {
        reveal(scaled_value);
        lemma_digits_concat(a@, b@);
        lemma_p10_pos(b@.len());
        lemma_digits_nonneg(b@);
    }
    let iv = match int_part(a) {
        Some(v) => v,
        None => {
            proof {
                lemma_rounded_big(digits_value(a@ + b@, 10), digits_value(a@, 10), digits_value(b@, 10),
                    p10(b@.len()) as int, m as int);
            }
            return u64::MAX;
        },
    };
    let (carry, lead) = frac_carry(b, m);
    proof {
        lemma_rounded_total(b@, iv as int, m as int, carry as int, lead as int);
    }
    assert(iv * (m as u128) < 18446744073709551616 * 1125899906842625) by (nonlinear_arith)
        requires
            iv < 18446744073709551616,
            m <= 1125899906842624,
    ;
    let bump: u128 = if b.len() > 0 && lead >= 5 { 1 } else { 0 };
    let total: u128 = iv * (m as u128) + carry + bump;
    if total > u64::MAX as u128 {
        u64::MAX
    } else {
        total as u64
    }
}

#[verifier::rlimit(100)]
#[verifier::spinoff_prover]
pub fn decimal_split(d: &[char]) -> (r: (Vec<char>, Vec<char>))
    ensures
        decimal_parts(d@) == (r.0@, r.1@),
{
    match split_once_at(d, '.') {
        Some(p) => p,
        None => {
            assert(d@.subrange(0, d@.len() as int) == d@);
            (slice(d, 0, d.len()), Vec::new())
        },
    }
}

fn size_parts(d: &[char], u: &[char]) -> (r: Option<u64>)
    ensures
        r matches Some(v) ==> size_of_parts(d@, u@) == Some(v as int),
        r is None ==> size_of_parts(d@, u@) is None,
{
    if !crate::text::mantissa_ok(d) {
        return None;
    }
    let m = match unit_value(u) {
        Some(m) => m,
        None => return None,
    };
    let (a, b) = decimal_split(d);
    proof {
        lemma_parts_digits(d@);
    }
    let v = scaled(a.as_slice(), b.as_slice(), m);
    Some(v)
}

fn size_chars(s: &[char]) -> (r: Option<u64>)
    ensures
        r matches Some(v) ==> size_value(s@) == Some(v as int),
        r is None ==> size_value(s@) is None,
{
    let t = trimmed(s);
    let k = find_number_end(t.as_slice());
    let d = slice(t.as_slice(), 0, k);
    let rest = drop_front(t.as_slice(), k);
    let u = trimmed(rest.as_slice());
    assert(d@ == t@.take(k as int));
    size_parts(d.as_slice(), u.as_slice())
}

/// `123M/s`, `1.5G/s`, `50K/s` to bytes per second.
pub open spec fn rate_value(s: Seq<char>) -> Option<int> {
    size_value(crate::text::strip_suffixes(trim(s), "/s"@))
}

/// `123M/s`, `1.5G/s`, `50K/s` to bytes per second.
pub fn rate(s: &str) -> (r: Option<u64>)
    ensures
        r matches Some(v) ==> rate_value(s@) == Some(v as int),
        r is None ==> rate_value(s@) is None,
{
    let c = chars_of(s);
    let t = trimmed(c.as_slice());
    let u = crate::text::without_suffixes(t.as_slice(), "/s");
    size_chars(u.as_slice())
}


/// A missing number as zero.
pub open spec fn or_zero(o: Option<int>) -> int {
    match o {
        Some(v) => v,
        None => 0,
    }
}

/// An optional count in the contracts.
pub open spec fn onum(o: Option<u64>) -> Option<int> {
    match o {
        Some(v) => Some(v as int),
        None => None,
    }
}

/// The tab-separated fields of a `-H` line.
pub open spec fn tab_fields(l: Seq<char>) -> Seq<Seq<char>> {
    split_char(l, '\t')
}

/// Whether `e` is a parse error of `command` with this detail.
pub open spec fn parse_error_is(e: ZfsError, command: Seq<char>, detail: Seq<char>) -> bool {
    e matches ZfsError::Parse { command: c, detail: d } && c@ == command && d@ == detail
}

fn parse_error(command: &str, detail: &[char]) -> (e: ZfsError)
    ensures
        parse_error_is(e, command@, detail@),
{
    ZfsError::Parse { command: command.to_owned(), detail: string_from(detail) }
}

fn text_plus(a: &str, b: &[char]) -> (r: Vec<char>)
    ensures
        r@ == a@ + b@,
{
    let x = chars_of(a);
    concat(x.as_slice(), b)
}

/// The fields of a `-H` line.
fn tabs(line: &[char]) -> (r: Vec<Vec<char>>)
    ensures
        views(r@) == tab_fields(line@),
{
    split_on(line, '\t')
}

/// The columns `list_pools` asks `zpool list -Hp` for, in order.
pub const ZPOOL_LIST_COLUMNS: &'static str = "name,size,allocated,free,fragmentation,capacity,dedupratio,health";

/// One `zpool list` row.
#[derive(Debug, Clone)]
pub struct PoolListRow {
    /// Name.
    pub name: String,
    /// Size.
    pub size: Bytes,
    /// Allocated.
    pub allocated: Bytes,
    /// Free.
    pub free: Bytes,
    /// Fragmentation.
    pub fragmentation: Option<u32>,
    /// Capacity.
    pub capacity: Option<u32>,
    /// Dedup, as `zpool` prints it without its `x`.
    pub dedup_ratio: Option<String>,
    /// Health.
    pub health: PoolHealth,
}

/// Why a `zpool list` line is refused, if it is.
pub open spec fn pool_line_error(line: Seq<char>) -> Option<Seq<char>> {
    let f = tab_fields(line);
    if f.len() < 8 {
        Some("expected 8 fields: "@ + line)
    } else if health_of(f[7]) is None {
        Some("unknown pool state `"@ + f[7] + "`: "@ + line)
    } else {
        None
    }
}

/// Whether a `zpool list` line is refused.
pub open spec fn pool_line_bad() -> spec_fn(Seq<char>) -> bool {
    |l: Seq<char>| pool_line_error(l) is Some
}

/// What a `zpool list` row holds, field by field.
pub open spec fn pool_row_ok(r: PoolListRow, f: Seq<Seq<char>>) -> bool {
    &&& r.name@ == f[0]
    &&& r.size == or_zero(znum(f[1]))
    &&& r.allocated == or_zero(znum(f[2]))
    &&& r.free == or_zero(znum(f[3]))
    &&& r.fragmentation == zpct(f[4])
    &&& r.capacity == zpct(f[5])
    &&& opt_view(r.dedup_ratio) == zratio(f[6])
    &&& health_of(f[7]) == Some(r.health)
}

fn num_or_zero(f: &[char]) -> (r: u64)
    ensures
        r == or_zero(znum(f@)),
{
    match field_num(f) {
        Some(v) => v,
        None => 0,
    }
}

fn pool_row(line: &[char]) -> (r: Result<PoolListRow, Vec<char>>)
    ensures
        pool_line_error(line@) matches Some(d) ==> (r matches Err(e) && e@ == d),
        pool_line_error(line@) is None ==> (r matches Ok(row) && pool_row_ok(row, tab_fields(line@))),
{
    let f = tabs(line);
    let ghost fv = tab_fields(line@);
    if f.len() < 8 {
        return Err(text_plus("expected 8 fields: ", line));
    }
    assert(f@[7]@ == fv[7]);
    let health = match PoolHealth::from_chars(f[7].as_slice()) {
        Some(h) => h,
        None => {
            let a = text_plus("unknown pool state `", f[7].as_slice());
            let b = concat(a.as_slice(), chars_of("`: ").as_slice());
            return Err(concat(b.as_slice(), line));
        },
    };
    proof {
        assert forall|i: int| 0 <= i < 8 implies f@[i]@ == fv[i] by {}
    }
    Ok(PoolListRow {
        name: string_from(f[0].as_slice()),
        size: num_or_zero(f[1].as_slice()),
        allocated: num_or_zero(f[2].as_slice()),
        free: num_or_zero(f[3].as_slice()),
        fragmentation: field_pct(f[4].as_slice()),
        capacity: field_pct(f[5].as_slice()),
        dedup_ratio: field_ratio(f[6].as_slice()),
        health,
    })
}

/// Parse `zpool list -Hp -o` with `ZPOOL_LIST_COLUMNS`; the first refused
/// line is the error.
pub fn zpool_list(out: &str) -> (r: Result<Vec<PoolListRow>, ZfsError>)
    ensures
        r is Ok <==> first_where(content_lines(out@), pool_line_bad()) is None,
        r matches Ok(v) ==> v@.len() == content_lines(out@).len()
            && forall|i: int| 0 <= i < v@.len() ==> pool_row_ok(#[trigger] v@[i], tab_fields(content_lines(out@)[i])),
        r matches Err(e) ==> first_where(content_lines(out@), pool_line_bad()) matches Some(k)
            && parse_error_is(e, "zpool list"@, pool_line_error(content_lines(out@)[k])->0),
{
    let c = chars_of(out);
    let ls = content_lines_of(c.as_slice());
    let ghost lv = content_lines(out@);
    let ghost bad = pool_line_bad();
    let mut v: Vec<PoolListRow> = Vec::new();
    let mut i: usize = 0;
    while i < ls.len()
        invariant
            0 <= i <= ls@.len(),
            views(ls@) == lv,
            lv == content_lines(out@),
            bad == pool_line_bad(),
            v@.len() == i,
            forall|j: int| 0 <= j < i ==> !bad(lv[j]),
            forall|j: int| 0 <= j < i ==> pool_row_ok(#[trigger] v@[j], tab_fields(lv[j])),
        decreases ls@.len() - i,
    {
        assert(ls@[i as int]@ == lv[i as int]);
        match pool_row(ls[i].as_slice()) {
            Ok(row) => {
                v.push(row);
            },
            Err(d) => {
                proof {
                    lemma_first_where(lv, bad, i as int);
                }
                return Err(parse_error("zpool list", d.as_slice()));
            },
        }
        i = i + 1;
    }
    proof {
        lemma_none_where(lv, bad);
    }
    Ok(v)
}


/// The columns `list_datasets` asks `zfs list -Hp` for, in order.
pub const ZFS_LIST_COLUMNS: &'static str = "name,type,mountpoint,mounted,used,available,referenced,logicalused,quota,reservation,compression,compressratio,atime,recordsize,volsize,volblocksize,origin,creation,nightshade.systems:mandrake-id";

/// A creation time column: seconds since the epoch that `time` can hold.
pub open spec fn creation_ok(f: Seq<char>) -> bool {
    znum(f) matches Some(n) && n <= MAX_UNIX
}

/// Why a `zfs list` line is refused, if it is.
pub open spec fn dataset_line_error(line: Seq<char>) -> Option<Seq<char>> {
    let f = tab_fields(line);
    if f.len() < 19 {
        Some("expected 19 fields: "@ + line)
    } else if f[1] != "filesystem"@ && f[1] != "volume"@ {
        Some("unknown type `"@ + f[1] + "`"@)
    } else if !creation_ok(f[17]) {
        Some("bad creation: "@ + line)
    } else {
        None
    }
}

/// Whether a `zfs list` line is refused.
pub open spec fn dataset_line_bad() -> spec_fn(Seq<char>) -> bool {
    |l: Seq<char>| dataset_line_error(l) is Some
}

/// A number column kept only when positive.
pub open spec fn positive(o: Option<int>) -> Option<int> {
    match o {
        Some(v) => if v > 0 { Some(v) } else { None },
        None => None,
    }
}

/// What a `zfs list` row gives, field by field.
pub open spec fn dataset_row_ok(d: DatasetInfo, f: Seq<Seq<char>>) -> bool {
    &&& d.name@ == f[0]
    &&& d.kind == (if f[1] == "filesystem"@ { DatasetKind::Filesystem } else { DatasetKind::Volume })
    &&& opt_view(d.mountpoint) == (match zopt(f[2]) {
        Some(m) => if m == "legacy"@ { None } else { Some(m) },
        None => None,
    })
    &&& d.mounted == (yes_no(f[3]) == Some(true))
    &&& d.used == or_zero(znum(f[4]))
    &&& d.available == or_zero(znum(f[5]))
    &&& d.referenced == or_zero(znum(f[6]))
    &&& onum(d.logical_used) == znum(f[7])
    &&& onum(d.quota) == positive(znum(f[8]))
    &&& onum(d.reservation) == positive(znum(f[9]))
    &&& opt_view(d.compression) == zopt(f[10])
    &&& opt_view(d.compress_ratio) == zratio(f[11])
    &&& d.atime == yes_no(f[12])
    &&& onum(d.recordsize) == znum(f[13])
    &&& onum(d.volsize) == znum(f[14])
    &&& onum(d.volblocksize) == znum(f[15])
    &&& opt_view(d.origin) == zopt(f[16])
    &&& Some(d.created_at.unix()) == znum(f[17]) && d.created_at.subsec() == 0
    &&& opt_view(d.mandrake_id) == zopt(f[18])
}

fn field_onum(f: &[char]) -> (r: Option<u64>)
    ensures
        onum(r) == znum(f@),
{
    field_num(f)
}

fn field_positive(f: &[char]) -> (r: Option<u64>)
    ensures
        onum(r) == positive(znum(f@)),
{
    match field_num(f) {
        Some(v) => if v > 0 { Some(v) } else { None },
        None => None,
    }
}

/// A creation column as a time.
fn creation(f: &[char]) -> (r: Option<Timestamp>)
    ensures
        r is Some <==> creation_ok(f@),
        r matches Some(t) ==> Some(t.unix()) == znum(f@) && t.subsec() == 0,
{
    match field_num(f) {
        Some(n) => if n <= i64::MAX as u64 {
            Timestamp::from_unix(n as i64)
        } else {
            None
        },
        None => None,
    }
}

fn mountpoint_field(f: &[char]) -> (r: Option<String>)
    ensures
        opt_view(r) == (match zopt(f@) {
            Some(m) => if m == "legacy"@ { None } else { Some(m) },
            None => None,
        }),
{
    match field_opt(f) {
        Some(m) => if is(m.as_slice(), "legacy") { None } else { Some(string_from(m.as_slice())) },
        None => None,
    }
}

fn dataset_row(line: &[char]) -> (r: Result<DatasetInfo, Vec<char>>)
    ensures
        dataset_line_error(line@) matches Some(d) ==> (r matches Err(e) && e@ == d),
        dataset_line_error(line@) is None ==> (r matches Ok(row) && dataset_row_ok(row, tab_fields(line@))),
{
    let f = tabs(line);
    let ghost fv = tab_fields(line@);
    if f.len() < 19 {
        return Err(text_plus("expected 19 fields: ", line));
    }
    proof {
        assert forall|i: int| 0 <= i < 19 implies f@[i]@ == fv[i] by {}
    }
    let kind = if is(f[1].as_slice(), "filesystem") {
        DatasetKind::Filesystem
    } else if is(f[1].as_slice(), "volume") {
        DatasetKind::Volume
    } else {
        let a = text_plus("unknown type `", f[1].as_slice());
        return Err(concat(a.as_slice(), chars_of("`").as_slice()));
    };
    let created_at = match creation(f[17].as_slice()) {
        Some(t) => t,
        None => return Err(text_plus("bad creation: ", line)),
    };
    Ok(DatasetInfo {
        name: string_from(f[0].as_slice()),
        kind,
        mountpoint: mountpoint_field(f[2].as_slice()),
        mounted: field_yes_no(f[3].as_slice()) == Some(true),
        used: num_or_zero(f[4].as_slice()),
        available: num_or_zero(f[5].as_slice()),
        referenced: num_or_zero(f[6].as_slice()),
        logical_used: field_onum(f[7].as_slice()),
        quota: field_positive(f[8].as_slice()),
        reservation: field_positive(f[9].as_slice()),
        compression: field_string(f[10].as_slice()),
        compress_ratio: field_ratio(f[11].as_slice()),
        atime: field_yes_no(f[12].as_slice()),
        recordsize: field_onum(f[13].as_slice()),
        volsize: field_onum(f[14].as_slice()),
        volblocksize: field_onum(f[15].as_slice()),
        origin: field_string(f[16].as_slice()),
        created_at,
        mandrake_id: field_string(f[18].as_slice()),
    })
}

/// Parse `zfs list -Hp -t filesystem,volume -o` with `ZFS_LIST_COLUMNS`;
/// the first refused line is the error.
pub fn zfs_list(out: &str) -> (r: Result<Vec<DatasetInfo>, ZfsError>)
    ensures
        r is Ok <==> first_where(content_lines(out@), dataset_line_bad()) is None,
        r matches Ok(v) ==> v@.len() == content_lines(out@).len()
            && forall|i: int| 0 <= i < v@.len() ==> dataset_row_ok(#[trigger] v@[i], tab_fields(content_lines(out@)[i])),
        r matches Err(e) ==> first_where(content_lines(out@), dataset_line_bad()) matches Some(k)
            && parse_error_is(e, "zfs list"@, dataset_line_error(content_lines(out@)[k])->0),
{
    let c = chars_of(out);
    let ls = content_lines_of(c.as_slice());
    let ghost lv = content_lines(out@);
    let ghost bad = dataset_line_bad();
    let mut v: Vec<DatasetInfo> = Vec::new();
    let mut i: usize = 0;
    while i < ls.len()
        invariant
            0 <= i <= ls@.len(),
            views(ls@) == lv,
            lv == content_lines(out@),
            bad == dataset_line_bad(),
            v@.len() == i,
            forall|j: int| 0 <= j < i ==> !bad(lv[j]),
            forall|j: int| 0 <= j < i ==> dataset_row_ok(#[trigger] v@[j], tab_fields(lv[j])),
        decreases ls@.len() - i,
    {
        assert(ls@[i as int]@ == lv[i as int]);
        match dataset_row(ls[i].as_slice()) {
            Ok(row) => {
                v.push(row);
            },
            Err(d) => {
                proof {
                    lemma_first_where(lv, bad, i as int);
                }
                return Err(parse_error("zfs list", d.as_slice()));
            },
        }
        i = i + 1;
    }
    proof {
        lemma_none_where(lv, bad);
    }
    Ok(v)
}

/// The columns `list_snapshots` asks for, in order.
pub const ZFS_SNAPSHOT_COLUMNS: &'static str = "name,used,referenced,creation,clones,nightshade.systems:mandrake-id";

/// Why a `zfs list -t snapshot` line is refused, if it is.
pub open spec fn snapshot_line_error(line: Seq<char>) -> Option<Seq<char>> {
    let f = tab_fields(line);
    if f.len() < 6 {
        Some("expected 6 fields: "@ + line)
    } else if !creation_ok(f[3]) {
        Some("bad creation: "@ + line)
    } else {
        None
    }
}

/// Whether a snapshot line is refused.
pub open spec fn snapshot_line_bad() -> spec_fn(Seq<char>) -> bool {
    |l: Seq<char>| snapshot_line_error(l) is Some
}

/// The views of strings.
pub open spec fn string_seq(v: Seq<String>) -> Seq<Seq<char>> {
    v.map_values(|s: String| s@)
}

/// What a snapshot row gives, field by field.
pub open spec fn snapshot_row_ok(s: SnapshotInfo, f: Seq<Seq<char>>) -> bool {
    &&& s.name@ == f[0]
    &&& s.used == or_zero(znum(f[1]))
    &&& s.referenced == or_zero(znum(f[2]))
    &&& Some(s.created_at.unix()) == znum(f[3]) && s.created_at.subsec() == 0
    &&& string_seq(s.clones@) == (match zopt(f[4]) {
        Some(c) => split_char(c, ','),
        None => Seq::<Seq<char>>::empty(),
    })
    &&& opt_view(s.mandrake_id) == zopt(f[5])
}

fn strings_of(v: &Vec<Vec<char>>) -> (r: Vec<String>)
    ensures
        string_seq(r@) == views(v@),
{
    let mut out: Vec<String> = Vec::new();
    let mut i: usize = 0;
    while i < v.len()
        invariant
            0 <= i <= v@.len(),
            string_seq(out@) == views(v@).take(i as int),
        decreases v@.len() - i,
    {
        let ghost before = string_seq(out@);
        out.push(string_from(v[i].as_slice()));
        assert(string_seq(out@) == before.push(v@[i as int]@));
        assert(views(v@).take(i + 1) == views(v@).take(i as int).push(v@[i as int]@));
        i = i + 1;
    }
    assert(views(v@).take(v@.len() as int) == views(v@));
    out
}

fn snapshot_row(line: &[char]) -> (r: Result<SnapshotInfo, Vec<char>>)
    ensures
        snapshot_line_error(line@) matches Some(d) ==> (r matches Err(e) && e@ == d),
        snapshot_line_error(line@) is None ==> (r matches Ok(row) && snapshot_row_ok(row, tab_fields(line@))),
{
    let f = tabs(line);
    let ghost fv = tab_fields(line@);
    if f.len() < 6 {
        return Err(text_plus("expected 6 fields: ", line));
    }
    proof {
        assert forall|i: int| 0 <= i < 6 implies f@[i]@ == fv[i] by {}
    }
    let created_at = match creation(f[3].as_slice()) {
        Some(t) => t,
        None => return Err(text_plus("bad creation: ", line)),
    };
    let clones = match field_opt(f[4].as_slice()) {
        Some(c) => strings_of(&split_on(c.as_slice(), ',')),
        None => {
            let e: Vec<String> = Vec::new();
            assert(string_seq(e@) == Seq::<Seq<char>>::empty());
            e
        },
    };
    Ok(SnapshotInfo {
        name: string_from(f[0].as_slice()),
        used: num_or_zero(f[1].as_slice()),
        referenced: num_or_zero(f[2].as_slice()),
        created_at,
        clones,
        mandrake_id: field_string(f[5].as_slice()),
    })
}

/// Parse `zfs list -Hp -t snapshot -o` with `ZFS_SNAPSHOT_COLUMNS`; the
/// first refused line is the error.
pub fn zfs_snapshots(out: &str) -> (r: Result<Vec<SnapshotInfo>, ZfsError>)
    ensures
        r is Ok <==> first_where(content_lines(out@), snapshot_line_bad()) is None,
        r matches Ok(v) ==> v@.len() == content_lines(out@).len()
            && forall|i: int| 0 <= i < v@.len() ==> snapshot_row_ok(#[trigger] v@[i], tab_fields(content_lines(out@)[i])),
        r matches Err(e) ==> first_where(content_lines(out@), snapshot_line_bad()) matches Some(k)
            && parse_error_is(e, "zfs list -t snapshot"@, snapshot_line_error(content_lines(out@)[k])->0),
{
    let c = chars_of(out);
    let ls = content_lines_of(c.as_slice());
    let ghost lv = content_lines(out@);
    let ghost bad = snapshot_line_bad();
    let mut v: Vec<SnapshotInfo> = Vec::new();
    let mut i: usize = 0;
    while i < ls.len()
        invariant
            0 <= i <= ls@.len(),
            views(ls@) == lv,
            lv == content_lines(out@),
            bad == snapshot_line_bad(),
            v@.len() == i,
            forall|j: int| 0 <= j < i ==> !bad(lv[j]),
            forall|j: int| 0 <= j < i ==> snapshot_row_ok(#[trigger] v@[j], tab_fields(lv[j])),
        decreases ls@.len() - i,
    {
        assert(ls@[i as int]@ == lv[i as int]);
        match snapshot_row(ls[i].as_slice()) {
            Ok(row) => {
                v.push(row);
            },
            Err(d) => {
                proof {
                    lemma_first_where(lv, bad, i as int);
                }
                return Err(parse_error("zfs list -t snapshot", d.as_slice()));
            },
        }
        i = i + 1;
    }
    proof {
        lemma_none_where(lv, bad);
    }
    Ok(v)
}


/// A `diskinfo` line's fields, each trimmed.
pub open spec fn disk_fields(l: Seq<char>) -> Seq<Seq<char>> {
    tab_fields(l).map_values(|x: Seq<char>| trim(x))
}

/// The `diskinfo` lines with at least five fields, in order.
pub open spec fn disk_lines(ls: Seq<Seq<char>>) -> Seq<Seq<char>>
    decreases ls.len(),
{
    if ls.len() == 0 {
        Seq::<Seq<char>>::empty()
    } else if disk_fields(ls.last()).len() >= 5 {
        disk_lines(ls.drop_last()).push(ls.last())
    } else {
        disk_lines(ls.drop_last())
    }
}

/// A disk's size column: a byte count, else a human size, else zero.
pub open spec fn disk_size(f: Seq<char>) -> int {
    match parse_unsigned(f, 10, u64::MAX as int) {
        Some(n) => n,
        None => or_zero(size_value(f)),
    }
}

/// What a `diskinfo` line gives, field by field.
pub open spec fn disk_row_ok(d: DeviceInfo, f: Seq<Seq<char>>) -> bool {
    &&& d.name@ == f[1]
    &&& opt_view(d.bus) == zopt(f[0])
    &&& opt_view(d.vendor) == zopt(f[2])
    &&& opt_view(d.product) == zopt(f[3])
    &&& d.serial is None
    &&& d.size == disk_size(f[4])
    &&& d.removable == (f.len() > 5 && f[5] == "yes"@)
    &&& d.solid_state == (if f.len() > 6 { yes_no(f[6]) } else { None })
}

fn disk_tabs(line: &[char]) -> (r: Vec<Vec<char>>)
    ensures
        views(r@) == disk_fields(line@),
{
    let raw = tabs(line);
    let mut out: Vec<Vec<char>> = Vec::new();
    let mut i: usize = 0;
    while i < raw.len()
        invariant
            0 <= i <= raw@.len(),
            views(raw@) == tab_fields(line@),
            views(out@) == tab_fields(line@).take(i as int).map_values(|x: Seq<char>| trim(x)),
        decreases raw@.len() - i,
    {
        let ghost before = views(out@);
        let t = trimmed(raw[i].as_slice());
        out.push(t);
        assert(tab_fields(line@).take(i + 1) == tab_fields(line@).take(i as int).push(raw@[i as int]@));
        assert(views(out@) == before.push(t@));
        i = i + 1;
    }
    assert(tab_fields(line@).take(raw@.len() as int) == tab_fields(line@));
    out
}

fn disk_row(f: &Vec<Vec<char>>) -> (d: DeviceInfo)
    requires
        f@.len() >= 5,
    ensures
        disk_row_ok(d, views(f@)),
{
    let size = match parse_u64(f[4].as_slice()) {
        Some(n) => n,
        None => match size_chars(f[4].as_slice()) {
            Some(n) => n,
            None => 0,
        },
    };
    DeviceInfo {
        name: string_from(f[1].as_slice()),
        bus: field_string(f[0].as_slice()),
        vendor: field_string(f[2].as_slice()),
        product: field_string(f[3].as_slice()),
        serial: None,
        size,
        removable: f.len() > 5 && is(f[5].as_slice(), "yes"),
        solid_state: if f.len() > 6 { field_yes_no(f[6].as_slice()) } else { None },
    }
}

/// Parse `diskinfo -Hp`: `TYPE DISK VID PID SIZE RMV SSD`, tab separated;
/// lines with fewer than five fields are skipped.
pub fn diskinfo(out: &str) -> (r: Vec<DeviceInfo>)
    ensures
        r@.len() == disk_lines(content_lines(out@)).len(),
        forall|i: int| 0 <= i < r@.len() ==> disk_row_ok(#[trigger] r@[i], disk_fields(disk_lines(content_lines(out@))[i])),
{
    let c = chars_of(out);
    let ls = content_lines_of(c.as_slice());
    let ghost lv = content_lines(out@);
    let mut v: Vec<DeviceInfo> = Vec::new();
    let mut i: usize = 0;
    while i < ls.len()
        invariant
            0 <= i <= ls@.len(),
            views(ls@) == lv,
            lv == content_lines(out@),
            v@.len() == disk_lines(lv.take(i as int)).len(),
            forall|j: int| 0 <= j < v@.len() ==> disk_row_ok(#[trigger] v@[j], disk_fields(disk_lines(lv.take(i as int))[j])),
        decreases ls@.len() - i,
    {
        assert(lv.take(i + 1).drop_last() == lv.take(i as int));
        assert(lv.take(i + 1).last() == ls@[i as int]@);
        let f = disk_tabs(ls[i].as_slice());
        if f.len() >= 5 {
            let d = disk_row(&f);
            v.push(d);
        }
        i = i + 1;
    }
    assert(lv.take(ls@.len() as int) == lv);
    v
}

} // verus!
