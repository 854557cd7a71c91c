//! Vectors kept in name order with each name at most once: the maps an
//! in-memory ZFS holds its pools, datasets, and snapshots in.
use vstd::prelude::*;
use crate::text::{
    chars_of, first_where, lemma_first_where, lemma_none_where, lex_less, lex_lt, matches_at, starts_with, str_eq, views,
};

verus! {

/// Something filed under a name.
pub trait Keyed {
    /// The name it is filed under.
    spec fn key(&self) -> Seq<char>;

    /// The name, as text.
    fn key_str(&self) -> (r: &str)
        ensures
            r@ == self.key();
}

/// The names, in order.
pub open spec fn keys<T: Keyed>(v: Seq<T>) -> Seq<Seq<char>> {
    v.map_values(|x: T| x.key())
}

/// Names in strictly increasing order: sorted, each at most once.
#[verifier::opaque]
pub open spec fn strictly_sorted(ks: Seq<Seq<char>>) -> bool {
    forall|i: int, j: int| 0 <= i < j < ks.len() ==> lex_lt(#[trigger] ks[i], #[trigger] ks[j])
}

/// A name equal to `k`.
pub open spec fn is_key(k: Seq<char>) -> spec_fn(Seq<char>) -> bool {
    |s: Seq<char>| s == k
}

/// A name that does not sort before `k`.
pub open spec fn not_below(k: Seq<char>) -> spec_fn(Seq<char>) -> bool {
    |s: Seq<char>| !lex_lt(s, k)
}

/// Where a name is, if it is there.
pub open spec fn index_of<T: Keyed>(v: Seq<T>, k: Seq<char>) -> Option<int> {
    first_where(keys(v), is_key(k))
}

/// Whether a name is there.
pub open spec fn has_key<T: Keyed>(v: Seq<T>, k: Seq<char>) -> bool {
    keys(v).contains(k)
}

/// Where a new name goes: before the first name that does not sort
/// before it.
pub open spec fn slot_for<T: Keyed>(v: Seq<T>, k: Seq<char>) -> int {
    match first_where(keys(v), not_below(k)) {
        Some(i) => i,
        None => v.len() as int,
    }
}

/// An item filed: it replaces the item of the same name, else it goes in
/// name order.
pub open spec fn put<T: Keyed>(v: Seq<T>, x: T) -> Seq<T> {
    match index_of(v, x.key()) {
        Some(i) => v.update(i, x),
        None => v.insert(slot_for(v, x.key()), x),
    }
}

/// The item of a name taken out, if it is there.
pub open spec fn without<T: Keyed>(v: Seq<T>, k: Seq<char>) -> Seq<T> {
    match index_of(v, k) {
        Some(i) => v.remove(i),
        None => v,
    }
}

/// Whether a name is there, as the index of a name search says.
pub proof fn lemma_index_has<T: Keyed>(v: Seq<T>, k: Seq<char>)
    ensures
        index_of(v, k) is Some <==> has_key(v, k),
        index_of(v, k) matches Some(i) ==> 0 <= i < v.len() && v[i].key() == k,
{
    match index_of(v, k) {
        Some(i) => {
            crate::text::lemma_first_where_some(keys(v), is_key(k));
        },
        None => {
            crate::text::lemma_first_where_none(keys(v), is_key(k));
            if has_key(v, k) {
                let i = keys(v).index_of(k);
                assert(is_key(k)(keys(v)[i]));
            }
        },
    }
}

/// The position of a name.
pub fn find_key<T: Keyed>(v: &Vec<T>, k: &str) -> (r: Option<usize>)
    ensures
        r matches Some(i) ==> index_of(v@, k@) == Some(i as int),
        r is None ==> index_of(v@, k@) is None,
{
    let ghost ks = keys(v@);
    let ghost pred = is_key(k@);
    let mut i: usize = 0;
    while i < v.len()
        invariant
            0 <= i <= v@.len(),
            ks == keys(v@),
            pred == is_key(k@),
            forall|j: int| 0 <= j < i ==> !pred(ks[j]),
        decreases v@.len() - i,
    {
        if str_eq(v[i].key_str(), k) {
            proof {
                lemma_first_where(ks, pred, i as int);
            }
            return Some(i);
        }
        i = i + 1;
    }
    proof {
        lemma_none_where(ks, pred);
    }
    None
}

/// Where a new name goes among the names.
fn slot_of<T: Keyed>(v: &Vec<T>, k: &str) -> (p: usize)
    ensures
        p as int == slot_for(v@, k@),
        p <= v@.len(),
{
    let ghost ks = keys(v@);
    let ghost below = not_below(k@);
    let kc = chars_of(k);
    let mut p: usize = 0;
    while p < v.len() && lex_less(chars_of(v[p].key_str()).as_slice(), kc.as_slice())
        invariant
            0 <= p <= v@.len(),
            ks == keys(v@),
            kc@ == k@,
            below == not_below(k@),
            forall|j: int| 0 <= j < p ==> !below(ks[j]),
        decreases v@.len() - p,
    {
        p = p + 1;
    }
    proof {
        if p < v@.len() {
            lemma_first_where(ks, below, p as int);
        } else {
            lemma_none_where(ks, below);
        }
    }
    p
}

/// File an item: replace the item of the same name, else insert it in
/// name order.
pub fn put_item<T: Keyed>(v: &mut Vec<T>, x: T)
    ensures
        final(v)@ == put(old(v)@, x),
{
    proof {
        lemma_index_has(v@, x.key());
    }
    match find_key(v, x.key_str()) {
        Some(i) => {
            v.set(i, x);
        },
        None => {
            let p = slot_of(v, x.key_str());
            v.insert(p, x);
        },
    }
}

/// Take out the item of a name, if it is there.
pub fn remove_item<T: Keyed>(v: &mut Vec<T>, k: &str)
    ensures
        final(v)@ == without(old(v)@, k@),
{
    proof {
        lemma_index_has(v@, k@);
    }
    match find_key(v, k) {
        Some(i) => {
            v.remove(i);
        },
        None => {},
    }
}

proof fn lemma_put_replace<T: Keyed>(v: Seq<T>, x: T, i: int)
    requires
        strictly_sorted(keys(v)),
        index_of(v, x.key()) == Some(i),
        0 <= i < v.len(),
        v[i].key() == x.key(),
    ensures
        strictly_sorted(keys(put(v, x))),
        has_key(put(v, x), x.key()),
        forall|k: Seq<char>| has_key(v, k) ==> has_key(put(v, x), k),
        forall|k: Seq<char>| #[trigger] has_key(put(v, x), k) ==> k == x.key() || has_key(v, k),
{
    let ks = keys(v);
    assert(keys(put(v, x)) =~= ks);
}

proof fn lemma_slot_bounds<T: Keyed>(v: Seq<T>, k: Seq<char>)
    requires
        strictly_sorted(keys(v)),
    ensures
        0 <= slot_for(v, k) <= v.len(),
        forall|j: int| 0 <= j < slot_for(v, k) ==> lex_lt(#[trigger] keys(v)[j], k),
        forall|j: int| slot_for(v, k) <= j < v.len() ==> !lex_lt(#[trigger] keys(v)[j], k),
{
    reveal(strictly_sorted);
    let ks = keys(v);
    let below = not_below(k);
    crate::text::lemma_first_where_some(ks, below);
    crate::text::lemma_first_where_none(ks, below);
    let s = slot_for(v, k);
    assert forall|j: int| s <= j < v.len() implies !lex_lt(#[trigger] ks[j], k) by {
        if j > s {
            if lex_lt(ks[j], k) {
                crate::text::lemma_lex_transitive(ks[s], ks[j], k);
            }
        }
    }
}

/// Inserting a new name where every name before it sorts lower and no
/// name after it does keeps names strictly increasing.
pub proof fn lemma_insert_sorted(ks: Seq<Seq<char>>, s: int, k: Seq<char>)
    requires
        strictly_sorted(ks),
        0 <= s <= ks.len(),
        forall|j: int| 0 <= j < s ==> lex_lt(#[trigger] ks[j], k),
        forall|j: int| s <= j < ks.len() ==> !lex_lt(#[trigger] ks[j], k),
        !ks.contains(k),
    ensures
        strictly_sorted(ks.insert(s, k)),
{
    reveal(strictly_sorted);
    let nk = ks.insert(s, k);
    assert forall|i: int, j: int| 0 <= i < j < nk.len() implies lex_lt(#[trigger] nk[i], #[trigger] nk[j]) by {
        if i < s && j == s {
        } else if i == s && j > s {
            assert(nk[j] == ks[j - 1]);
            assert(ks[j - 1] != k) by {
                assert(ks.contains(ks[j - 1]));
            }
            crate::text::lemma_lex_total(ks[j - 1], k);
        } else if i < s && j > s {
            assert(nk[j] == ks[j - 1]);
        } else if i > s {
            assert(nk[i] == ks[i - 1]);
            assert(nk[j] == ks[j - 1]);
        }
    }
}

proof fn lemma_insert_members(ks: Seq<Seq<char>>, s: int, k: Seq<char>)
    requires
        0 <= s <= ks.len(),
    ensures
        ks.insert(s, k).contains(k),
        forall|q: Seq<char>| ks.contains(q) ==> ks.insert(s, k).contains(q),
        forall|q: Seq<char>| #[trigger] ks.insert(s, k).contains(q) ==> q == k || ks.contains(q),
{
    let nk = ks.insert(s, k);
    assert(nk[s] == k);
    assert forall|q: Seq<char>| ks.contains(q) implies nk.contains(q) by {
        let j = ks.index_of(q);
        if j < s {
            assert(nk[j] == q);
        } else {
            assert(nk[j + 1] == q);
        }
    }
    assert forall|q: Seq<char>| #[trigger] nk.contains(q) implies q == k || ks.contains(q) by {
        let j = nk.index_of(q);
        if j < s {
            assert(ks[j] == q);
        } else if j > s {
            assert(ks[j - 1] == q);
        }
    }
}

proof fn lemma_put_insert<T: Keyed>(v: Seq<T>, x: T)
    requires
        strictly_sorted(keys(v)),
        !has_key(v, x.key()),
        index_of(v, x.key()) is None,
    ensures
        strictly_sorted(keys(put(v, x))),
        has_key(put(v, x), x.key()),
        forall|k: Seq<char>| has_key(v, k) ==> has_key(put(v, x), k),
        forall|k: Seq<char>| #[trigger] has_key(put(v, x), k) ==> k == x.key() || has_key(v, k),
{
    let ks = keys(v);
    let k = x.key();
    let s = slot_for(v, k);
    lemma_slot_bounds(v, k);
    assert(keys(put(v, x)) =~= ks.insert(s, k));
    lemma_insert_sorted(ks, s, k);
    lemma_insert_members(ks, s, k);
}

/// Filing keeps names in strictly increasing order, and the names after
/// filing are the names before with the new one added.
pub proof fn lemma_put_sorted<T: Keyed>(v: Seq<T>, x: T)
    requires
        strictly_sorted(keys(v)),
    ensures
        strictly_sorted(keys(put(v, x))),
        has_key(put(v, x), x.key()),
        forall|k: Seq<char>| has_key(v, k) ==> has_key(put(v, x), k),
        forall|k: Seq<char>| #[trigger] has_key(put(v, x), k) ==> k == x.key() || has_key(v, k),
{
    lemma_index_has(v, x.key());
    match index_of(v, x.key()) {
        Some(i) => lemma_put_replace(v, x, i),
        None => lemma_put_insert(v, x),
    }
}

/// The item filed under a name (meaningful when the name is there).
#[verifier::opaque]
pub open spec fn entry<T: Keyed>(v: Seq<T>, k: Seq<char>) -> T {
    v[index_of(v, k)->0]
}

/// In names that are strictly increasing, a name's position is the only
/// one it has.
pub proof fn lemma_unique_index<T: Keyed>(v: Seq<T>, i: int)
    requires
        strictly_sorted(keys(v)),
        0 <= i < v.len(),
    ensures
        index_of(v, v[i].key()) == Some(i),
        entry(v, v[i].key()) == v[i],
{
    reveal(entry);
    reveal(strictly_sorted);
    let ks = keys(v);
    let k = v[i].key();
    assert forall|j: int| 0 <= j < i implies !is_key(k)(ks[j]) by {
        assert(lex_lt(ks[j], ks[i]));
        crate::text::lemma_lex_irreflexive(ks[i]);
    }
    lemma_first_where(ks, is_key(k), i);
}

proof fn lemma_entry_replace<T: Keyed>(v: Seq<T>, x: T, i: int)
    requires
        strictly_sorted(keys(v)),
        strictly_sorted(keys(v.update(i, x))),
        0 <= i < v.len(),
        v[i].key() == x.key(),
    ensures
        entry(v.update(i, x), x.key()) == x,
        forall|k: Seq<char>| has_key(v, k) && k != x.key() ==> #[trigger] entry(v.update(i, x), k) == entry(v, k),
{
    reveal(entry);
    let w = v.update(i, x);
    lemma_unique_index(w, i);
    assert forall|k: Seq<char>| has_key(v, k) && k != x.key() implies #[trigger] entry(w, k) == entry(v, k) by {
        lemma_index_has(v, k);
        let j = index_of(v, k)->0;
        assert(w[j] == v[j]);
        lemma_unique_index(w, j);
    }
}

#[verifier::rlimit(40)]
proof fn lemma_entry_insert_one<T: Keyed>(v: Seq<T>, x: T, s: int, k: Seq<char>)
    requires
        strictly_sorted(keys(v)),
        strictly_sorted(keys(v.insert(s, x))),
        0 <= s <= v.len(),
        has_key(v, k),
    ensures
        entry(v.insert(s, x), k) == entry(v, k),
{
    reveal(entry);
    let w = v.insert(s, x);
    lemma_index_has(v, k);
    let j = index_of(v, k)->0;
    if j < s {
        assert(w[j] == v[j]);
        lemma_unique_index(w, j);
    } else {
        assert(w[j + 1] == v[j]);
        lemma_unique_index(w, j + 1);
    }
}

proof fn lemma_entry_insert<T: Keyed>(v: Seq<T>, x: T, s: int)
    requires
        strictly_sorted(keys(v)),
        strictly_sorted(keys(v.insert(s, x))),
        0 <= s <= v.len(),
    ensures
        entry(v.insert(s, x), x.key()) == x,
        forall|k: Seq<char>| has_key(v, k) && k != x.key() ==> #[trigger] entry(v.insert(s, x), k) == entry(v, k),
{
    reveal(entry);
    let w = v.insert(s, x);
    assert(w[s] == x);
    lemma_unique_index(w, s);
    assert forall|k: Seq<char>| has_key(v, k) && k != x.key() implies #[trigger] entry(w, k) == entry(v, k) by {
        lemma_entry_insert_one(v, x, s, k);
    }
}

/// Filing a new name adds one item; filing a known one keeps the count.
pub proof fn lemma_put_len<T: Keyed>(v: Seq<T>, x: T)
    requires
        strictly_sorted(keys(v)),
    ensures
        put(v, x).len() == if has_key(v, x.key()) { v.len() } else { v.len() + 1 },
{
    lemma_index_has(v, x.key());
    lemma_slot_bounds(v, x.key());
}

/// After filing, the new item is under its name and every other name
/// keeps its item.
pub proof fn lemma_put_entry<T: Keyed>(v: Seq<T>, x: T)
    requires
        strictly_sorted(keys(v)),
    ensures
        entry(put(v, x), x.key()) == x,
        forall|k: Seq<char>| has_key(v, k) && k != x.key() ==> #[trigger] entry(put(v, x), k) == entry(v, k),
{
    lemma_put_sorted(v, x);
    lemma_index_has(v, x.key());
    match index_of(v, x.key()) {
        Some(i) => lemma_entry_replace(v, x, i),
        None => {
            lemma_slot_bounds(v, x.key());
            lemma_entry_insert(v, x, slot_for(v, x.key()));
        },
    }
}

proof fn lemma_remove_sorted(ks: Seq<Seq<char>>, i: int)
    requires
        strictly_sorted(ks),
        0 <= i < ks.len(),
    ensures
        strictly_sorted(ks.remove(i)),
        !ks.remove(i).contains(ks[i]),
{
    reveal(strictly_sorted);
    let nk = ks.remove(i);
    assert forall|a: int, b: int| 0 <= a < b < nk.len() implies lex_lt(#[trigger] nk[a], #[trigger] nk[b]) by {
        let a2 = if a < i { a } else { a + 1 };
        let b2 = if b < i { b } else { b + 1 };
        assert(nk[a] == ks[a2]);
        assert(nk[b] == ks[b2]);
    }
    if nk.contains(ks[i]) {
        let j = nk.index_of(ks[i]);
        let j2 = if j < i { j } else { j + 1 };
        assert(ks[j2] == ks[i]);
        if j2 < i {
            assert(lex_lt(ks[j2], ks[i]));
        } else {
            assert(lex_lt(ks[i], ks[j2]));
        }
        crate::text::lemma_lex_irreflexive(ks[i]);
    }
}

proof fn lemma_remove_members(ks: Seq<Seq<char>>, i: int)
    requires
        0 <= i < ks.len(),
    ensures
        forall|q: Seq<char>| ks.contains(q) && q != ks[i] ==> #[trigger] ks.remove(i).contains(q),
        forall|q: Seq<char>| #[trigger] ks.remove(i).contains(q) ==> ks.contains(q),
{
    let nk = ks.remove(i);
    assert forall|q: Seq<char>| ks.contains(q) && q != ks[i] implies #[trigger] nk.contains(q) by {
        let j = ks.index_of(q);
        if j < i {
            assert(nk[j] == q);
        } else {
            assert(nk[j - 1] == q);
        }
    }
    assert forall|q: Seq<char>| #[trigger] nk.contains(q) implies ks.contains(q) by {
        let j = nk.index_of(q);
        if j < i {
            assert(ks[j] == q);
        } else {
            assert(ks[j + 1] == q);
        }
    }
}

/// Taking a name out keeps names strictly increasing, and leaves every
/// other name in.
pub proof fn lemma_without_sorted<T: Keyed>(v: Seq<T>, k: Seq<char>)
    ensures
        strictly_sorted(keys(v)) ==> strictly_sorted(keys(without(v, k))),
        strictly_sorted(keys(v)) ==> !has_key(without(v, k), k),
        forall|q: Seq<char>| has_key(v, q) && q != k ==> #[trigger] has_key(without(v, k), q),
        forall|q: Seq<char>| #[trigger] has_key(without(v, k), q) ==> has_key(v, q),
{
    lemma_index_has(v, k);
    let ks = keys(v);
    match index_of(v, k) {
        Some(i) => {
            assert(keys(without(v, k)) =~= ks.remove(i));
            if strictly_sorted(ks) {
                lemma_remove_sorted(ks, i);
            }
            lemma_remove_members(ks, i);
        },
        None => {},
    }
}

/// The item at a name's position is the item filed under it.
pub proof fn lemma_entry_at<T: Keyed>(v: Seq<T>, k: Seq<char>, i: int)
    requires
        index_of(v, k) == Some(i),
    ensures
        entry(v, k) == v[i],
{
    reveal(entry);
}


proof fn lemma_remove_entry<T: Keyed>(v: Seq<T>, i: int, j: int)
    requires
        strictly_sorted(keys(v)),
        0 <= i < v.len(),
        0 <= j < v.len(),
        j != i,
    ensures
        entry(v.remove(i), v[j].key()) == v[j],
{
    let w = v.remove(i);
    assert(keys(w) =~= keys(v).remove(i));
    lemma_remove_sorted(keys(v), i);
    let j2 = if j < i { j } else { j - 1 };
    assert(w[j2] == v[j]);
    lemma_unique_index(w, j2);
}

/// The item filed under a name that stays is the one filed there before.
pub proof fn lemma_without_entry<T: Keyed>(v: Seq<T>, k: Seq<char>, q: Seq<char>)
    requires
        strictly_sorted(keys(v)),
        has_key(v, q),
        q != k,
    ensures
        entry(without(v, k), q) == entry(v, q),
{
    lemma_index_has(v, q);
    lemma_index_has(v, k);
    let j = index_of(v, q)->0;
    lemma_entry_at(v, q, j);
    match index_of(v, k) {
        Some(i) => {
            lemma_remove_entry(v, i, j);
        },
        None => {},
    }
}

/// Whether name `k` is `name` itself (with `whole`), a name below it,
/// `name/...` (with `below`), or one of its snapshots, `name@...` (with
/// `snaps`).
pub open spec fn under(k: Seq<char>, name: Seq<char>, whole: bool, below: bool, snaps: bool) -> bool {
    ||| whole && k == name
    ||| below && starts_with(k, name.push('/'))
    ||| snaps && starts_with(k, name.push('@'))
}

/// `under` as a predicate on names.
pub open spec fn under_pred(name: Seq<char>, whole: bool, below: bool, snaps: bool) -> spec_fn(Seq<char>) -> bool {
    |k: Seq<char>| under(k, name, whole, below, snaps)
}

fn begins(s: &[char], p: &[char]) -> (r: bool)
    ensures
        r == starts_with(s@, p@),
{
    let r = matches_at(s, p, 0);
    assert(s@.subrange(0, p@.len() as int) == s@.take(p@.len() as int)) by {
        if p@.len() <= s@.len() {
            assert(s@.subrange(0, p@.len() as int) =~= s@.take(p@.len() as int));
        }
    }
    r
}

/// Decide `under`.
pub fn name_under(k: &str, name: &str, whole: bool, below: bool, snaps: bool) -> (r: bool)
    ensures
        r == under(k@, name@, whole, below, snaps),
{
    if whole && str_eq(k, name) {
        return true;
    }
    let kc = chars_of(k);
    let mut slash = chars_of(name);
    slash.push('/');
    if below && begins(kc.as_slice(), slash.as_slice()) {
        return true;
    }
    let mut at = chars_of(name);
    at.push('@');
    snaps && begins(kc.as_slice(), at.as_slice())
}

/// Take out every item whose name is `under` `name`.
pub fn prune<T: Keyed>(v: &mut Vec<T>, name: &str, whole: bool, below: bool, snaps: bool)
    requires
        strictly_sorted(keys(old(v)@)),
    ensures
        strictly_sorted(keys(final(v)@)),
        forall|k: Seq<char>| #[trigger] has_key(final(v)@, k)
            <==> has_key(old(v)@, k) && !under(k, name@, whole, below, snaps),
        forall|k: Seq<char>| has_key(final(v)@, k) ==> #[trigger] entry(final(v)@, k) == entry(old(v)@, k),
{
    let mut i: usize = 0;
    while i < v.len()
        invariant
            0 <= i <= v@.len(),
            strictly_sorted(keys(v@)),
            forall|j: int| 0 <= j < i ==> !under(#[trigger] keys(v@)[j], name@, whole, below, snaps),
            forall|k: Seq<char>| #[trigger] has_key(v@, k) ==> has_key(old(v)@, k),
            forall|k: Seq<char>| has_key(v@, k) ==> #[trigger] entry(v@, k) == entry(old(v)@, k),
            forall|k: Seq<char>| has_key(old(v)@, k) && !under(k, name@, whole, below, snaps)
                ==> #[trigger] has_key(v@, k),
        decreases v@.len() - i,
    {
        if name_under(v[i].key_str(), name, whole, below, snaps) {
            let ghost prev = v@;
            let ghost k = prev[i as int].key();
            proof {
                lemma_unique_index(prev, i as int);
                lemma_without_sorted(prev, k);
            }
            v.remove(i);
            assert(v@ == without(prev, k));
            assert forall|q: Seq<char>| has_key(v@, q) implies #[trigger] entry(v@, q) == entry(old(v)@, q) by {
                assert(has_key(prev, q));
                if q == k {
                    assert(!has_key(without(prev, k), k));
                }
                lemma_without_entry(prev, k, q);
            }
            assert forall|j: int| 0 <= j < i implies !under(#[trigger] keys(v@)[j], name@, whole, below, snaps) by {
                assert(keys(v@)[j] == keys(prev)[j]);
            }
        } else {
            i = i + 1;
        }
    }
    assert forall|k: Seq<char>| #[trigger] has_key(v@, k) implies !under(k, name@, whole, below, snaps) by {
        let j = keys(v@).index_of(k);
        assert(keys(v@)[j] == k);
    }
}

/// The names of the items `under` `name`, in order.
pub fn names_under<T: Keyed>(v: &Vec<T>, name: &str, whole: bool, below: bool, snaps: bool) -> (r: Vec<Vec<char>>)
    ensures
        views(r@) == keys(v@).filter(under_pred(name@, whole, below, snaps)),
{
    let ghost ks = keys(v@);
    let ghost pred = under_pred(name@, whole, below, snaps);
    let mut out: Vec<Vec<char>> = Vec::new();
    let mut i: usize = 0;
    while i < v.len()
        invariant
            0 <= i <= v@.len(),
            ks == keys(v@),
            pred == under_pred(name@, whole, below, snaps),
            views(out@) == ks.take(i as int).filter(pred),
        decreases v@.len() - i,
    {
        proof {
            reveal(Seq::filter);
            assert(ks.take(i + 1).drop_last() == ks.take(i as int));
            assert(ks.take(i + 1).last() == ks[i as int]);
        }
        if name_under(v[i].key_str(), name, whole, below, snaps) {
            let c = chars_of(v[i].key_str());
            out.push(c);
            assert(views(out@) == views(out@).drop_last().push(c@));
        }
        i = i + 1;
    }
    assert(ks.take(v@.len() as int) == ks);
    out
}


/// Putting an item back where the item of its name was is filing it.
pub proof fn lemma_put_back<T: Keyed>(v: Seq<T>, i: int, x: T)
    requires
        strictly_sorted(keys(v)),
        0 <= i < v.len(),
        x.key() == v[i].key(),
    ensures
        v.remove(i).insert(i, x) == put(v, x),
{
    lemma_unique_index(v, i);
    assert(v.remove(i).insert(i, x) =~= v.update(i, x));
}


/// Take out the items of each of the names.
pub fn remove_all<T: Keyed>(v: &mut Vec<T>, names: &Vec<Vec<char>>)
    requires
        strictly_sorted(keys(old(v)@)),
    ensures
        strictly_sorted(keys(final(v)@)),
        forall|k: Seq<char>| #[trigger] has_key(final(v)@, k)
            <==> has_key(old(v)@, k) && !views(names@).contains(k),
        forall|k: Seq<char>| has_key(final(v)@, k) ==> #[trigger] entry(final(v)@, k) == entry(old(v)@, k),
{
    let ghost nv = views(names@);
    let mut j: usize = 0;
    while j < names.len()
        invariant
            0 <= j <= names@.len(),
            nv == views(names@),
            strictly_sorted(keys(v@)),
            forall|k: Seq<char>| #[trigger] has_key(v@, k)
                <==> has_key(old(v)@, k) && !(exists|l: int| 0 <= l < j && nv[l] == k),
            forall|k: Seq<char>| has_key(v@, k) ==> #[trigger] entry(v@, k) == entry(old(v)@, k),
        decreases names@.len() - j,
    {
        let n = crate::text::string_from(names[j].as_slice());
        let ghost prev = v@;
        proof {
            lemma_without_sorted(prev, n@);
        }
        remove_item(v, n.as_str());
        assert forall|k: Seq<char>| #[trigger] has_key(v@, k)
            <==> has_key(old(v)@, k) && !(exists|l: int| 0 <= l < j + 1 && nv[l] == k) by {
            if has_key(v@, k) {
                assert(has_key(prev, k));
                assert(k != nv[j as int]);
            }
            if has_key(old(v)@, k) && !(exists|l: int| 0 <= l < j + 1 && nv[l] == k) {
                assert(k != nv[j as int]);
                assert(has_key(prev, k));
            }
        }
        assert forall|k: Seq<char>| has_key(v@, k) implies #[trigger] entry(v@, k) == entry(old(v)@, k) by {
            assert(has_key(prev, k));
            assert(k != n@);
            lemma_without_entry(prev, n@, k);
        }
        j = j + 1;
    }
}

} // verus!
