//! RFC 7807 problem details.
use vstd::prelude::*;
use crate::text::{chars_of, concat, dec, dec_chars, has_prefix, starts_with, string_from};

verus! {

/// Prefix for application-specific problem types.
pub const PROBLEM_BASE: &'static str = "https://mandrake.nightshade.systems/problems/";

/// An error as the API reports it.
#[derive(Debug, Clone, PartialEq, Eq)]
pub struct Problem {
    /// `about:blank` for plain HTTP errors, or a `PROBLEM_BASE` URI.
    pub type_: String,
    /// Short human-readable summary.
    pub title: String,
    /// HTTP status code.
    pub status: u16,
    /// Explanation specific to this occurrence.
    pub detail: Option<String>,
    /// URI of the specific occurrence, when one exists.
    pub instance: Option<String>,
    /// Request id, matching the daemon log and the audit row.
    pub request_id: Option<String>,
}

/// The text form `Display` gives a problem: `<status> <title>[: <detail>]`.
pub open spec fn problem_text(p: Problem) -> Seq<char> {
    let head = dec(p.status as nat) + seq![' '] + p.title@;
    match p.detail {
        Some(d) => head + ": "@ + d@,
        None => head,
    }
}

impl Problem {
    /// A plain HTTP problem with type `about:blank`.
    pub fn new(status: u16, title: &str) -> (p: Problem)
        ensures
            p.type_@ == "about:blank"@,
            p.title@ == title@,
            p.status == status,
            p.detail is None,
            p.instance is None,
            p.request_id is None,
    {
        Problem {
            type_: "about:blank".to_owned(),
            title: title.to_owned(),
            status,
            detail: None,
            instance: None,
            request_id: None,
        }
    }

    /// An application problem typed by `slug` under `PROBLEM_BASE`.
    pub fn typed(status: u16, slug: &str, title: &str) -> (p: Problem)
        ensures
            p.type_@ == PROBLEM_BASE@ + slug@,
            p.title@ == title@,
            p.status == status,
            p.detail is None,
            p.instance is None,
            p.request_id is None,
    {
        let base = chars_of(PROBLEM_BASE);
        let s = chars_of(slug);
        let t = concat(base.as_slice(), s.as_slice());
        Problem {
            type_: string_from(t.as_slice()),
            title: title.to_owned(),
            status,
            detail: None,
            instance: None,
            request_id: None,
        }
    }

    /// The problem with a detail message attached.
    pub fn with_detail(self, detail: &str) -> (p: Problem)
        ensures
            p.detail matches Some(d) && d@ == detail@,
            p.type_ == self.type_,
            p.title == self.title,
            p.status == self.status,
            p.instance == self.instance,
            p.request_id == self.request_id,
    {
        let mut p = self;
        p.detail = Some(detail.to_owned());
        p
    }

    /// The problem with the request id attached.
    pub fn with_request_id(self, id: &str) -> (p: Problem)
        ensures
            p.request_id matches Some(d) && d@ == id@,
            p.type_ == self.type_,
            p.title == self.title,
            p.status == self.status,
            p.instance == self.instance,
            p.detail == self.detail,
    {
        let mut p = self;
        p.request_id = Some(id.to_owned());
        p
    }

    /// The slug of a typed problem, if it is one.
    pub fn slug(&self) -> (r: Option<&str>)
        ensures
            r is Some <==> starts_with(self.type_@, PROBLEM_BASE@),
            r matches Some(s) ==> PROBLEM_BASE@ + s@ == self.type_@,
    {
        let t = chars_of(self.type_.as_str());
        if has_prefix(t.as_slice(), PROBLEM_BASE) {
            let n = PROBLEM_BASE.unicode_len();
            let rest = self.type_.as_str().substring_char(n, t.len());
            assert(self.type_@ == self.type_@.take(n as int) + self.type_@.skip(n as int));
            Some(rest)
        } else {
            None
        }
    }

    /// The problem as `Display` shows it: `<status> <title>[: <detail>]`.
    pub fn message(&self) -> (r: String)
        ensures
            r@ == problem_text(*self),
    {
        let mut v = dec_chars(self.status as u64);
        v.push(' ');
        let title = chars_of(self.title.as_str());
        let mut v = concat(v.as_slice(), title.as_slice());
        match &self.detail {
            Some(d) => {
                let sep = chars_of(": ");
                let v2 = concat(v.as_slice(), sep.as_slice());
                let dc = chars_of(d.as_str());
                let v3 = concat(v2.as_slice(), dc.as_slice());
                string_from(v3.as_slice())
            },
            None => string_from(v.as_slice()),
        }
    }
}

/// Typing a problem under a slug and asking for its slug gives the slug back.
pub proof fn lemma_typed_slug_round_trip(slug: Seq<char>)
    ensures
        starts_with(PROBLEM_BASE@ + slug, PROBLEM_BASE@),
        (PROBLEM_BASE@ + slug).skip(PROBLEM_BASE@.len() as int) == slug,
{
    assert((PROBLEM_BASE@ + slug).take(PROBLEM_BASE@.len() as int) == PROBLEM_BASE@);
    assert((PROBLEM_BASE@ + slug).skip(PROBLEM_BASE@.len() as int) == slug);
}

} // verus!
