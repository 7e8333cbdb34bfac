//! The collection as a mathematical sequence of records, and what each
//! operation of the store does to it.
//!
//! Identifiers are handed out as the current length plus one. After a removal
//! the length shrinks, so a later record can receive an identifier that an
//! older record still carries. Nothing here repairs that: lookups and updates
//! take the first record that carries the identifier, and a removal takes
//! every one of them.

use vstd::prelude::*;
use crate::book::BookView;

verus! {

/// Every record of `s` carries an identifier.
pub open spec fn all_identified(s: Seq<BookView>) -> bool {
    forall|i: int| 0 <= i < s.len() ==> (#[trigger] s[i]).id is Some
}

/// Some record of `s` carries the identifier `id`.
pub open spec fn has_id(s: Seq<BookView>, id: nat) -> bool {
    exists|i: int| 0 <= i < s.len() && (#[trigger] s[i]).id == Some(id)
}

/// `i` is the position of the first record of `s` that carries `id`.
pub open spec fn is_first_match(s: Seq<BookView>, id: nat, i: int) -> bool {
    &&& 0 <= i < s.len()
    &&& s[i].id == Some(id)
    &&& forall|j: int| 0 <= j < i ==> (#[trigger] s[j]).id != Some(id)
}

/// The position of the first record of `s` that carries `id`, if there is one.
pub open spec fn first_match(s: Seq<BookView>, id: nat) -> Option<int> {
    if exists|i: int| is_first_match(s, id, i) {
        Some(choose|i: int| is_first_match(s, id, i))
    } else {
        None
    }
}

/// The identifier that the next created record receives: the length plus one.
pub open spec fn next_id(s: Seq<BookView>) -> nat {
    s.len() + 1
}

/// The record that a create stores for `input`: the fields of `input` under
/// the next identifier. An identifier that `input` carries is left aside.
pub open spec fn stored(s: Seq<BookView>, input: BookView) -> BookView {
    BookView { id: Some(next_id(s)), ..input }
}

/// The collection after a create: the stored record is appended.
pub open spec fn after_create(s: Seq<BookView>, input: BookView) -> Seq<BookView> {
    s.push(stored(s, input))
}

/// The record that a lookup of `id` yields: the first that carries `id`.
pub open spec fn found(s: Seq<BookView>, id: nat) -> Option<BookView> {
    match first_match(s, id) {
        Some(i) => Some(s[i]),
        None => None,
    }
}

/// `current` with title, author and year taken from `input`. The identifier
/// stays, whatever identifier `input` carries.
pub open spec fn revised(current: BookView, input: BookView) -> BookView {
    BookView { id: current.id, ..input }
}

/// The collection after an update of `id` from `input`: the first record that
/// carries `id` is revised in place. Without such a record nothing changes.
pub open spec fn after_update(s: Seq<BookView>, id: nat, input: BookView) -> Seq<BookView> {
    match first_match(s, id) {
        Some(i) => s.update(i, revised(s[i], input)),
        None => s,
    }
}

/// The collection after a removal of `id`: every record that carries `id` is
/// gone, the others keep their order.
pub open spec fn after_delete(s: Seq<BookView>, id: nat) -> Seq<BookView> {
    s.filter(carries_other(id))
}

/// The test that a removal of `id` keeps a record by: it does not carry `id`.
pub open spec fn carries_other(id: nat) -> spec_fn(BookView) -> bool {
    |b: BookView| b.id != Some(id)
}

/// The collection after one create for each record of `inputs`, in order.
pub open spec fn after_creates(s: Seq<BookView>, inputs: Seq<BookView>) -> Seq<BookView>
    decreases inputs.len(),
{
    if inputs.len() == 0 {
        s
    } else {
        after_create(after_creates(s, inputs.drop_last()), inputs.last())
    }
}

/// The records of `s` are numbered 1, 2, 3, ... by position. This is the
/// state of a collection from which nothing was ever removed.
pub open spec fn numbered_in_order(s: Seq<BookView>) -> bool {
    forall|i: int| 0 <= i < s.len() ==> (#[trigger] s[i]).id == Some((i + 1) as nat)
}

/// The first match is unique: a position that is a first match is the one
/// that `first_match` names.
pub proof fn lemma_first_match_is(s: Seq<BookView>, id: nat, i: int)
    requires
        is_first_match(s, id, i),
    ensures
        first_match(s, id) == Some(i),
        found(s, id) == Some(s[i]),
        has_id(s, id),
{
    let k = choose|k: int| is_first_match(s, id, k);
    assert(is_first_match(s, id, k));
    if k < i {
        assert(s[k].id != Some(id));
    } else if i < k {
        assert(s[i].id != Some(id));
    }
}

/// Where no record carries `id`, there is no first match.
pub proof fn lemma_first_match_none(s: Seq<BookView>, id: nat)
    requires
        !has_id(s, id),
    ensures
        first_match(s, id) is None,
        found(s, id) is None,
        forall|input: BookView| #[trigger] after_update(s, id, input) == s,
{
    if exists|i: int| is_first_match(s, id, i) {
        let k = choose|k: int| is_first_match(s, id, k);
        assert(s[k].id == Some(id));
    }
}

/// A first match exists exactly where some record carries the identifier.
pub proof fn lemma_first_match_exists(s: Seq<BookView>, id: nat)
    ensures
        first_match(s, id) is Some <==> has_id(s, id),
        first_match(s, id) matches Some(i) ==> is_first_match(s, id, i),
{
    if has_id(s, id) {
        let w = choose|w: int| 0 <= w < s.len() && (#[trigger] s[w]).id == Some(id);
        let k = lemma_least_match(s, id, w);
        lemma_first_match_is(s, id, k);
    } else {
        lemma_first_match_none(s, id);
    }
}

/// Below any record that carries `id` there is a first one.
proof fn lemma_least_match(s: Seq<BookView>, id: nat, w: int) -> (k: int)
    requires
        0 <= w < s.len(),
        s[w].id == Some(id),
    ensures
        is_first_match(s, id, k),
        k <= w,
    decreases w,
{
    if exists|j: int| 0 <= j < w && (#[trigger] s[j]).id == Some(id) {
        let j = choose|j: int| 0 <= j < w && (#[trigger] s[j]).id == Some(id);
        lemma_least_match(s, id, j)
    } else {
        w
    }
}

/// What a removal does to the collection, record by record: one more record
/// at the end is kept exactly when it does not carry the identifier.
pub proof fn lemma_delete_push(s: Seq<BookView>, last: BookView, id: nat)
    ensures
        after_delete(s.push(last), id) == if last.id != Some(id) {
            after_delete(s, id).push(last)
        } else {
            after_delete(s, id)
        },
{
    s.lemma_filter_push(last, carries_other(id));
}

/// A removal never lengthens the collection, shortens it exactly when some
/// record carries the identifier, leaves no record that carries it, and
/// changes nothing where none did.
pub proof fn lemma_delete_outcome(s: Seq<BookView>, id: nat)
    ensures
        after_delete(s, id).len() <= s.len(),
        after_delete(s, id).len() < s.len() <==> has_id(s, id),
        !has_id(after_delete(s, id), id),
        !has_id(s, id) ==> after_delete(s, id) == s,
    decreases s.len(),
{
    let d = after_delete(s, id);
    if s.len() == 0 {
        reveal(Seq::filter);
    } else {
        let rest = s.drop_last();
        let last = s.last();
        assert(s =~= rest.push(last));
        lemma_delete_outcome(rest, id);
        lemma_delete_push(rest, last, id);
        let dr = after_delete(rest, id);
        if has_id(rest, id) {
            let w = choose|w: int| 0 <= w < rest.len() && (#[trigger] rest[w]).id == Some(id);
            assert(s[w].id == Some(id));
        }
        if last.id == Some(id) {
            assert(s[s.len() - 1].id == Some(id));
        }
        if has_id(s, id) {
            let w = choose|w: int| 0 <= w < s.len() && (#[trigger] s[w]).id == Some(id);
            if w < rest.len() {
                assert(rest[w].id == Some(id));
            }
        }
        if has_id(d, id) {
            let w = choose|w: int| 0 <= w < d.len() && (#[trigger] d[w]).id == Some(id);
            if w < dr.len() {
                assert(dr[w].id == Some(id));
            }
        }
    }
}

} // verus!
