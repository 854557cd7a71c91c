//! Object identifiers: time-ordered UUIDs.
use vstd::prelude::*;
use crate::text::hex_char;

verus! {

/// What `uuid::Uuid::parse_str` makes of a text, as the UUID's 128 bits.
pub uninterp spec fn uuid_parse(text: Seq<char>) -> Option<u128>;

/// The `i`th hex digit of a UUID's bits, counted from the most
/// significant, for `0 <= i < 32`.
pub open spec fn uuid_nibble(bits: u128, i: int) -> u128 {
    (bits >> ((124 - 4 * i) as u128)) & 0xfu128
}

/// The lower-case hex digits of a UUID's bits from `from` up to `to`.
pub open spec fn uuid_hex(bits: u128, from: int, to: int) -> Seq<char> {
    Seq::new((to - from) as nat, |k: int| hex_char(uuid_nibble(bits, from + k) as int))
}

/// The hyphenated text of a UUID: its 32 lower-case hex digits, most
/// significant first, in groups of 8, 4, 4, 4 and 12 joined by `-`.
pub closed spec fn uuid_text(bits: u128) -> Seq<char> {
    uuid_hex(bits, 0, 8) + "-"@ + uuid_hex(bits, 8, 12) + "-"@ + uuid_hex(bits, 12, 16) + "-"@ + uuid_hex(bits, 16, 20)
        + "-"@ + uuid_hex(bits, 20, 32)
}

/// A UUID's text is 36 characters long.
pub proof fn lemma_uuid_text_len(bits: u128)
    ensures
        uuid_text(bits).len() == 36,
{
    reveal_strlit("-");
}

proof fn lemma_nibble_small(bits: u128, s: u128)
    ensures
        (bits >> s) & 0xfu128 < 16,
{
    assert((bits >> s) & 0xfu128 <= 0xfu128) by (bit_vector);
}

proof fn lemma_hex_char_injective(d: int, e: int)
    requires
        0 <= d < 16,
        0 <= e < 16,
        hex_char(d) == hex_char(e),
    ensures
        d == e,
{
    let cd: u32 = if d < 10 { (d + '0' as int) as u32 } else { (d - 10 + 'a' as int) as u32 };
    let ce: u32 = if e < 10 { (e + '0' as int) as u32 } else { (e - 10 + 'a' as int) as u32 };
    assert(hex_char(d) == cd as char);
    assert(hex_char(e) == ce as char);
    assert(cd == ce);
}

/// Two UUIDs with the same text are the same UUID.
pub proof fn lemma_uuid_text_injective(a: u128, b: u128)
    requires
        uuid_text(a) == uuid_text(b),
    ensures
        a == b,
{
    reveal_strlit("-");
    let ta = uuid_text(a);
    assert forall|i: int| 0 <= i < 32 implies uuid_nibble(a, i) == uuid_nibble(b, i) by {
        let p: int = if i < 8 { i } else if i < 12 { i + 1 } else if i < 16 { i + 2 } else if i < 20 { i + 3 } else { i + 4 };
        let (f, t) = if i < 8 { (0int, 8int) } else if i < 12 { (8int, 12int) } else if i < 16 { (12int, 16int) }
            else if i < 20 { (16int, 20int) } else { (20int, 32int) };
        assert(uuid_text(a)[p] == uuid_hex(a, f, t)[i - f]);
        assert(uuid_text(b)[p] == uuid_hex(b, f, t)[i - f]);
        lemma_nibble_small(a, (124 - 4 * i) as u128);
        lemma_nibble_small(b, (124 - 4 * i) as u128);
        lemma_hex_char_injective(uuid_nibble(a, i) as int, uuid_nibble(b, i) as int);
    }
    lemma_nibbles_fix(a, b);
}

proof fn lemma_nibbles_fix(a: u128, b: u128)
    requires
        forall|i: int| 0 <= i < 32 ==> uuid_nibble(a, i) == uuid_nibble(b, i),
    ensures
        a == b,
{
    assert(uuid_nibble(a, 0) == uuid_nibble(b, 0));
    assert(uuid_nibble(a, 1) == uuid_nibble(b, 1));
    assert(uuid_nibble(a, 2) == uuid_nibble(b, 2));
    assert(uuid_nibble(a, 3) == uuid_nibble(b, 3));
    assert(uuid_nibble(a, 4) == uuid_nibble(b, 4));
    assert(uuid_nibble(a, 5) == uuid_nibble(b, 5));
    assert(uuid_nibble(a, 6) == uuid_nibble(b, 6));
    assert(uuid_nibble(a, 7) == uuid_nibble(b, 7));
    assert(uuid_nibble(a, 8) == uuid_nibble(b, 8));
    assert(uuid_nibble(a, 9) == uuid_nibble(b, 9));
    assert(uuid_nibble(a, 10) == uuid_nibble(b, 10));
    assert(uuid_nibble(a, 11) == uuid_nibble(b, 11));
    assert(uuid_nibble(a, 12) == uuid_nibble(b, 12));
    assert(uuid_nibble(a, 13) == uuid_nibble(b, 13));
    assert(uuid_nibble(a, 14) == uuid_nibble(b, 14));
    assert(uuid_nibble(a, 15) == uuid_nibble(b, 15));
    assert(uuid_nibble(a, 16) == uuid_nibble(b, 16));
    assert(uuid_nibble(a, 17) == uuid_nibble(b, 17));
    assert(uuid_nibble(a, 18) == uuid_nibble(b, 18));
    assert(uuid_nibble(a, 19) == uuid_nibble(b, 19));
    assert(uuid_nibble(a, 20) == uuid_nibble(b, 20));
    assert(uuid_nibble(a, 21) == uuid_nibble(b, 21));
    assert(uuid_nibble(a, 22) == uuid_nibble(b, 22));
    assert(uuid_nibble(a, 23) == uuid_nibble(b, 23));
    assert(uuid_nibble(a, 24) == uuid_nibble(b, 24));
    assert(uuid_nibble(a, 25) == uuid_nibble(b, 25));
    assert(uuid_nibble(a, 26) == uuid_nibble(b, 26));
    assert(uuid_nibble(a, 27) == uuid_nibble(b, 27));
    assert(uuid_nibble(a, 28) == uuid_nibble(b, 28));
    assert(uuid_nibble(a, 29) == uuid_nibble(b, 29));
    assert(uuid_nibble(a, 30) == uuid_nibble(b, 30));
    assert(uuid_nibble(a, 31) == uuid_nibble(b, 31));
    assert(a == b) by (bit_vector)
        requires
            (a >> 124u128) & 0xfu128 == (b >> 124u128) & 0xfu128,
            (a >> 120u128) & 0xfu128 == (b >> 120u128) & 0xfu128,
            (a >> 116u128) & 0xfu128 == (b >> 116u128) & 0xfu128,
            (a >> 112u128) & 0xfu128 == (b >> 112u128) & 0xfu128,
            (a >> 108u128) & 0xfu128 == (b >> 108u128) & 0xfu128,
            (a >> 104u128) & 0xfu128 == (b >> 104u128) & 0xfu128,
            (a >> 100u128) & 0xfu128 == (b >> 100u128) & 0xfu128,
            (a >> 96u128) & 0xfu128 == (b >> 96u128) & 0xfu128,
            (a >> 92u128) & 0xfu128 == (b >> 92u128) & 0xfu128,
            (a >> 88u128) & 0xfu128 == (b >> 88u128) & 0xfu128,
            (a >> 84u128) & 0xfu128 == (b >> 84u128) & 0xfu128,
            (a >> 80u128) & 0xfu128 == (b >> 80u128) & 0xfu128,
            (a >> 76u128) & 0xfu128 == (b >> 76u128) & 0xfu128,
            (a >> 72u128) & 0xfu128 == (b >> 72u128) & 0xfu128,
            (a >> 68u128) & 0xfu128 == (b >> 68u128) & 0xfu128,
            (a >> 64u128) & 0xfu128 == (b >> 64u128) & 0xfu128,
            (a >> 60u128) & 0xfu128 == (b >> 60u128) & 0xfu128,
            (a >> 56u128) & 0xfu128 == (b >> 56u128) & 0xfu128,
            (a >> 52u128) & 0xfu128 == (b >> 52u128) & 0xfu128,
            (a >> 48u128) & 0xfu128 == (b >> 48u128) & 0xfu128,
            (a >> 44u128) & 0xfu128 == (b >> 44u128) & 0xfu128,
            (a >> 40u128) & 0xfu128 == (b >> 40u128) & 0xfu128,
            (a >> 36u128) & 0xfu128 == (b >> 36u128) & 0xfu128,
            (a >> 32u128) & 0xfu128 == (b >> 32u128) & 0xfu128,
            (a >> 28u128) & 0xfu128 == (b >> 28u128) & 0xfu128,
            (a >> 24u128) & 0xfu128 == (b >> 24u128) & 0xfu128,
            (a >> 20u128) & 0xfu128 == (b >> 20u128) & 0xfu128,
            (a >> 16u128) & 0xfu128 == (b >> 16u128) & 0xfu128,
            (a >> 12u128) & 0xfu128 == (b >> 12u128) & 0xfu128,
            (a >> 8u128) & 0xfu128 == (b >> 8u128) & 0xfu128,
            (a >> 4u128) & 0xfu128 == (b >> 4u128) & 0xfu128,
            (a >> 0u128) & 0xfu128 == (b >> 0u128) & 0xfu128,
    ;
}

/// A globally unique object identifier: a UUID v7, so new ids sort by
/// creation time.
#[derive(Debug, Clone, Copy, PartialEq, Eq, Structural, Hash, PartialOrd, Ord)]
pub struct Id {
    bits: u128,
}

/// `uuid::Uuid::parse_str(text)`, as the UUID's bits.
#[verifier::external_body]
fn uuid_parse_str(text: &str) -> (r: Option<u128>)
    ensures
        r == uuid_parse(text@),
{
    uuid::Uuid::parse_str(text).ok().map(|u| u.as_u128())
}

/// `uuid::Uuid::from_u128(bits).hyphenated()` as text: the 32 lower-case
/// hex digits in hyphenated groups, which `parse_str` reads back as the
/// same bits.
#[verifier::external_body]
fn uuid_hyphenated(bits: u128) -> (r: String)
    ensures
        r@ == uuid_text(bits),
        uuid_parse(r@) == Some(bits),
{
    uuid::Uuid::from_u128(bits).hyphenated().to_string()
}

/// Whether a UUID's bits carry version 7 and the RFC 4122 variant.
pub open spec fn version7(bits: u128) -> bool {
    (bits >> 76u128) & 0xfu128 == 7u128 && (bits >> 62u128) & 0x3u128 == 2u128
}

/// `uuid::Uuid::now_v7()`, as the UUID's bits: a time-ordered random id.
/// Trusted to carry version 7 and the RFC 4122 variant, which the crate
/// sets; the clock and random parts go unsaid.
#[verifier::external_body]
fn uuid_now_v7() -> (r: u128)
    ensures
        version7(r),
{
    uuid::Uuid::now_v7().as_u128()
}

impl Id {
    /// A fresh, time-ordered id: a version 7 UUID.
    pub fn new() -> (r: Id)
        ensures
            version7(r.value()),
    {
        Id { bits: uuid_now_v7() }
    }

    /// The id's 128 bits, in the contracts.
    pub closed spec fn value(&self) -> u128 {
        self.bits
    }

    /// The id with the given 128 bits.
    pub fn from_u128(bits: u128) -> (r: Id)
        ensures
            r.value() == bits,
    {
        Id { bits }
    }

    /// The id's 128 bits.
    pub fn as_u128(&self) -> (r: u128)
        ensures
            r == self.value(),
    {
        self.bits
    }

    /// The id a hyphenated (or other `uuid`-accepted) text names.
    pub fn parse(text: &str) -> (r: Option<Id>)
        ensures
            r matches Some(id) ==> uuid_parse(text@) == Some(id.value()),
            r is None ==> uuid_parse(text@) is None,
    {
        match uuid_parse_str(text) {
            Some(bits) => Some(Id { bits }),
            None => None,
        }
    }

    /// The hyphenated lower-case text form, as `Display` prints it.
    pub fn to_text(&self) -> (r: String)
        ensures
            r@ == uuid_text(self.value()),
            r@.len() == 36,
            uuid_parse(r@) == Some(self.value()),
    {
        proof {
            lemma_uuid_text_len(self.bits);
        }
        uuid_hyphenated(self.bits)
    }
}

/// An id is its bits: two ids are equal exactly when their bits are.
pub proof fn lemma_id_bits(a: Id, b: Id)
    ensures
        a == b <==> a.value() == b.value(),
{
}

impl Default for Id {
    fn default() -> Id {
        Id::new()
    }
}

impl std::str::FromStr for Id {
    type Err = ();

    fn from_str(s: &str) -> Result<Id, ()> {
        match Id::parse(s) {
            Some(id) => Ok(id),
            None => Err(()),
        }
    }
}

} // verus!
