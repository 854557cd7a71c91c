//! One API call as the client makes it, and its parts as the contracts
//! see them.
use vstd::prelude::*;
use crate::common::id::{Id, uuid_text};
use crate::ctl::json::field_views;
use crate::ctl::args::Paging;
use crate::text::{chars_of, concat, dec, dec_chars, string_from};

verus! {

/// An API call: method, path under `/api/v1`, query pairs, JSON body.
#[derive(Debug, Clone)]
pub struct Request {
    /// `GET`, `POST`, `PATCH`, or `DELETE`.
    pub method: String,
    /// The path after `/api/v1`.
    pub path: String,
    /// Query pairs, in order.
    pub query: Vec<(String, String)>,
    /// The JSON body, if any.
    pub body: Option<String>,
}

/// An API call by its texts.
pub struct Call {
    /// Method.
    pub method: Seq<char>,
    /// Path.
    pub path: Seq<char>,
    /// Query pairs.
    pub query: Seq<(Seq<char>, Seq<char>)>,
    /// Body.
    pub body: Option<Seq<char>>,
}

/// A call built from its texts.
pub open spec fn call(method: Seq<char>, path: Seq<char>, query: Seq<(Seq<char>, Seq<char>)>, body: Option<Seq<char>>) -> Call {
    Call { method, path, query, body }
}

/// A call with no query and no body.
pub open spec fn bare(method: Seq<char>, path: Seq<char>) -> Call {
    call(method, path, Seq::<(Seq<char>, Seq<char>)>::empty(), None)
}

/// A request by its texts.
pub open spec fn request_view(r: Request) -> Call {
    Call {
        method: r.method@,
        path: r.path@,
        query: field_views(r.query@),
        body: match r.body {
            Some(b) => Some(b@),
            None => None,
        },
    }
}

/// An optional text by its view.
pub open spec fn opt_seq(o: Option<String>) -> Option<Seq<char>> {
    match o {
        Some(s) => Some(s@),
        None => None,
    }
}

/// An optional id as its text.
pub open spec fn opt_id(o: Option<Id>) -> Option<Seq<char>> {
    match o {
        Some(i) => Some(uuid_text(i.value())),
        None => None,
    }
}

/// Pairs with `(k, v)` added when there is a `v`.
pub open spec fn with_opt(fs: Seq<(Seq<char>, Seq<char>)>, k: Seq<char>, v: Option<Seq<char>>)
    -> Seq<(Seq<char>, Seq<char>)> {
    match v {
        Some(x) => fs.push((k, x)),
        None => fs,
    }
}

/// The query of the first page: base pairs, then `limit`, then `cursor`.
pub open spec fn paging_query(base: Seq<(Seq<char>, Seq<char>)>, p: Paging) -> Seq<(Seq<char>, Seq<char>)> {
    with_opt(
        with_opt(base, "limit"@, match p.limit {
            Some(l) => Some(dec(l as nat)),
            None => None,
        }),
        "cursor"@,
        opt_seq(p.cursor),
    )
}

/// Add `(k, v)` when there is a `v`.
pub fn push_opt(fs: &mut Vec<(String, String)>, k: &str, v: Option<String>)
    ensures
        field_views(final(fs)@) == with_opt(field_views(old(fs)@), k@, opt_seq(v)),
{
    let ghost before = field_views(fs@);
    match v {
        Some(x) => {
            let ghost xv = x@;
            fs.push((k.to_owned(), x));
            assert(field_views(fs@) =~= before.push((k@, xv)));
        },
        None => {},
    }
}

/// Add `(k, v)`.
pub fn push_field(fs: &mut Vec<(String, String)>, k: &str, v: String)
    ensures
        field_views(final(fs)@) == field_views(old(fs)@).push((k@, v@)),
{
    let ghost before = field_views(fs@);
    let ghost vv = v@;
    fs.push((k.to_owned(), v));
    assert(field_views(fs@) =~= before.push((k@, vv)));
}

/// The first page's query pairs after `base`.
pub fn paged(base: Vec<(String, String)>, p: &Paging) -> (r: Vec<(String, String)>)
    ensures
        field_views(r@) == paging_query(field_views(base@), *p),
{
    let mut q = base;
    let limit = match p.limit {
        Some(l) => Some(string_from(dec_chars(l as u64).as_slice())),
        None => None,
    };
    push_opt(&mut q, "limit", limit);
    push_opt(&mut q, "cursor", p.cursor.clone());
    q
}

/// The query pairs for a page asked from `cursor`, after `base`.
pub open spec fn page_query(base: Seq<(Seq<char>, Seq<char>)>, p: Paging, cursor: Option<Seq<char>>) -> Seq<
    (Seq<char>, Seq<char>),
> {
    with_opt(
        with_opt(base, "limit"@, match p.limit {
            Some(l) => Some(dec(l as nat)),
            None => None,
        }),
        "cursor"@,
        cursor,
    )
}

/// The query pairs for a page asked from `cursor`, after `base`; the
/// first page is asked from the `--cursor` flag.
pub fn page_at(base: Vec<(String, String)>, p: &Paging, cursor: &Option<String>) -> (r: Vec<(String, String)>)
    ensures
        field_views(r@) == page_query(field_views(base@), *p, opt_seq(*cursor)),
{
    let mut q = base;
    let limit = match p.limit {
        Some(l) => Some(string_from(dec_chars(l as u64).as_slice())),
        None => None,
    };
    push_opt(&mut q, "limit", limit);
    push_opt(&mut q, "cursor", cursor.clone());
    q
}

/// After a page: the cursor to ask the next page from, when `--all` asks
/// for every page and the page names a next one; else stop.
pub fn next_page(p: &Paging, next_cursor: &Option<String>) -> (r: Option<String>)
    ensures
        r is Some <==> (p.all && next_cursor is Some),
        r is Some ==> opt_seq(r) == opt_seq(*next_cursor),
{
    if p.all {
        match next_cursor {
            Some(c) => Some(c.clone()),
            None => None,
        }
    } else {
        None
    }
}

/// The hint printed under a list that has more pages.
pub open spec fn more_hint(cursor: Option<Seq<char>>) -> Option<Seq<char>> {
    match cursor {
        Some(c) => Some("more: --cursor "@ + c),
        None => None,
    }
}

/// The hint printed under a list that has more pages.
pub fn more_line(cursor: &Option<String>) -> (r: Option<String>)
    ensures
        opt_seq(r) == more_hint(opt_seq(*cursor)),
{
    match cursor {
        Some(c) => Some(string_from(concat(chars_of("more: --cursor ").as_slice(), chars_of(c.as_str()).as_slice())
            .as_slice())),
        None => None,
    }
}

/// `a`, the id's text, then `b`.
pub fn id_path(a: &str, id: Id, b: &str) -> (r: String)
    ensures
        r@ == a@ + uuid_text(id.value()) + b@,
{
    let x = concat(chars_of(a).as_slice(), chars_of(id.to_text().as_str()).as_slice());
    string_from(concat(x.as_slice(), chars_of(b).as_slice()).as_slice())
}

/// `a` then the id's text.
pub fn id_at(a: &str, id: Id) -> (r: String)
    ensures
        r@ == a@ + uuid_text(id.value()),
{
    string_from(concat(chars_of(a).as_slice(), chars_of(id.to_text().as_str()).as_slice()).as_slice())
}

/// An id's text, if there is an id.
pub fn opt_id_text(o: Option<Id>) -> (r: Option<String>)
    ensures
        opt_seq(r) == opt_id(o),
{
    match o {
        Some(i) => Some(i.to_text()),
        None => None,
    }
}

/// No query pairs.
pub fn no_query() -> (r: Vec<(String, String)>)
    ensures
        field_views(r@) == Seq::<(Seq<char>, Seq<char>)>::empty(),
        r@.len() == 0,
{
    let r: Vec<(String, String)> = Vec::new();
    assert(field_views(r@) =~= Seq::<(Seq<char>, Seq<char>)>::empty());
    r
}

/// The number of pairs.
pub fn count(fs: &Vec<(String, String)>) -> (r: usize)
    ensures
        r == field_views(fs@).len(),
{
    fs.len()
}

/// A request from its parts.
pub fn request(method: &str, path: String, query: Vec<(String, String)>, body: Option<String>) -> (r: Request)
    ensures
        request_view(r) == call(method@, path@, field_views(query@), opt_seq(body)),
{
    Request { method: method.to_owned(), path, query, body }
}

} // verus!
