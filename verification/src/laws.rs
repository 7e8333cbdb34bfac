//! What holds of the operations taken together, proved over the model.

use vstd::prelude::*;
use crate::book::BookView;
use crate::model::{
    after_create, after_creates, after_delete, after_update, all_identified, first_match, found,
    has_id, is_first_match, lemma_delete_outcome, lemma_first_match_exists, lemma_first_match_is,
    lemma_first_match_none, next_id, numbered_in_order, revised, stored,
};

verus! {

/// Creating one record for each of `inputs`, in order, lengthens the
/// collection by their number, leaves the records that were there untouched,
/// and stores the `k`-th input under the identifier that is `k + 1` more than
/// the length before, with its title, author and year.
pub proof fn lemma_creates_in_sequence(s: Seq<BookView>, inputs: Seq<BookView>)
    ensures
        after_creates(s, inputs).len() == s.len() + inputs.len(),
        forall|i: int| 0 <= i < s.len() ==> #[trigger] after_creates(s, inputs)[i] == s[i],
        forall|k: int|
            0 <= k < inputs.len() ==> #[trigger] after_creates(s, inputs)[s.len() + k] == (BookView {
                id: Some((s.len() + k + 1) as nat),
                ..inputs[k]
            }),
    decreases inputs.len(),
{
    if inputs.len() > 0 {
        lemma_creates_in_sequence(s, inputs.drop_last());
    }
}

/// Created one after the other in an empty collection, `n` records receive
/// the identifiers 1 to `n` in the order of their creation, and the
/// collection then holds exactly these records, in that order.
pub proof fn lemma_creates_from_empty(inputs: Seq<BookView>)
    ensures
        after_creates(Seq::empty(), inputs).len() == inputs.len(),
        numbered_in_order(after_creates(Seq::empty(), inputs)),
        forall|k: int|
            0 <= k < inputs.len() ==> #[trigger] after_creates(Seq::empty(), inputs)[k] == (BookView {
                id: Some((k + 1) as nat),
                ..inputs[k]
            }),
{
    lemma_creates_in_sequence(Seq::empty(), inputs);
    let r = after_creates(Seq::empty(), inputs);
    assert forall|k: int| 0 <= k < inputs.len() implies #[trigger] r[k] == (BookView {
        id: Some((k + 1) as nat),
        ..inputs[k]
    }) by {
        assert(r[0 + k] == r[k]);
    }
}

/// As long as nothing is removed, the records stay numbered by position: the
/// empty collection is, and a create and an update keep it so.
pub proof fn lemma_numbering_kept(s: Seq<BookView>, id: nat, input: BookView)
    requires
        numbered_in_order(s),
    ensures
        numbered_in_order(Seq::<BookView>::empty()),
        numbered_in_order(after_create(s, input)),
        numbered_in_order(after_update(s, id, input)),
{
    lemma_first_match_exists(s, id);
}

/// In a collection numbered by position, the identifier `id` finds the record
/// at position `id - 1`, and identifiers outside 1 to the length find nothing.
pub proof fn lemma_get_when_numbered(s: Seq<BookView>, id: nat)
    requires
        numbered_in_order(s),
    ensures
        found(s, id) == if 1 <= id <= s.len() {
            Some(s[id - 1])
        } else {
            None
        },
{
    if 1 <= id <= s.len() {
        assert(s[id - 1].id == Some(id));
        assert(is_first_match(s, id, id - 1));
        lemma_first_match_is(s, id, id - 1);
    } else {
        lemma_first_match_none(s, id);
    }
}

/// A lookup in an empty collection finds nothing, whatever the identifier.
pub proof fn lemma_get_in_empty(id: nat)
    ensures
        found(Seq::<BookView>::empty(), id) is None,
{
    lemma_first_match_none(Seq::empty(), id);
}

/// After a create, a lookup finds what it found before for every identifier
/// that some record already carried; the next identifier, if no record
/// carried it, finds the stored record; any other identifier finds nothing.
pub proof fn lemma_get_after_create(s: Seq<BookView>, input: BookView, id: nat)
    ensures
        found(after_create(s, input), id) == if has_id(s, id) {
            found(s, id)
        } else if id == next_id(s) {
            Some(stored(s, input))
        } else {
            None
        },
{
    let t = after_create(s, input);
    lemma_first_match_exists(s, id);
    if has_id(s, id) {
        let i = first_match(s, id)->0;
        assert(is_first_match(t, id, i)) by {
            assert(t[i] == s[i]);
            assert forall|j: int| 0 <= j < i implies (#[trigger] t[j]).id != Some(id) by {
                assert(t[j] == s[j]);
            }
        }
        lemma_first_match_is(t, id, i);
    } else if id == next_id(s) {
        let i = s.len() as int;
        assert(is_first_match(t, id, i)) by {
            assert forall|j: int| 0 <= j < i implies (#[trigger] t[j]).id != Some(id) by {
                assert(t[j] == s[j]);
            }
        }
        lemma_first_match_is(t, id, i);
    } else {
        assert(!has_id(t, id)) by {
            if has_id(t, id) {
                let w = choose|w: int| 0 <= w < t.len() && (#[trigger] t[w]).id == Some(id);
                if w < s.len() {
                    assert(s[w].id == Some(id));
                }
            }
        }
        lemma_first_match_none(t, id);
    }
}

/// A create followed by a lookup of the identifier it handed out yields the
/// stored record, provided that no older record carries that identifier, or
/// that the first one that does is equal to the stored record.
///
/// The proviso is needed: identifiers follow the length, so after a removal
/// an older record may carry the identifier that the next create hands out,
/// and the lookup then yields the older record.
pub proof fn lemma_create_then_get(s: Seq<BookView>, input: BookView)
    requires
        found(s, next_id(s)) is None || found(s, next_id(s)) == Some(stored(s, input)),
    ensures
        found(after_create(s, input), next_id(s)) == Some(stored(s, input)),
{
    lemma_get_after_create(s, input, next_id(s));
    lemma_first_match_exists(s, next_id(s));
}

/// In a collection numbered by position no record carries the next
/// identifier, so there a create followed by a lookup always yields the
/// stored record.
pub proof fn lemma_create_then_get_when_numbered(s: Seq<BookView>, input: BookView)
    requires
        numbered_in_order(s),
    ensures
        found(after_create(s, input), next_id(s)) == Some(stored(s, input)),
{
    lemma_get_when_numbered(s, next_id(s));
    lemma_create_then_get(s, input);
}

/// An update of an identifier that some record carries keeps the length and
/// every identifier, changes only the first record that carries it, and a
/// lookup of the identifier then yields that record with the new title,
/// author and year under the old identifier.
pub proof fn lemma_update_then_get(s: Seq<BookView>, id: nat, input: BookView)
    requires
        has_id(s, id),
    ensures
        after_update(s, id, input).len() == s.len(),
        forall|j: int| 0 <= j < s.len() ==> (#[trigger] after_update(s, id, input)[j]).id == s[j].id,
        forall|j: int|
            0 <= j < s.len() && Some(j) != first_match(s, id) ==> #[trigger] after_update(
                s,
                id,
                input,
            )[j] == s[j],
        found(after_update(s, id, input), id) == Some(BookView { id: Some(id), ..input }),
{
    lemma_first_match_exists(s, id);
    let i = first_match(s, id)->0;
    let t = after_update(s, id, input);
    assert(t[i] == revised(s[i], input));
    assert(is_first_match(t, id, i)) by {
        assert forall|j: int| 0 <= j < i implies (#[trigger] t[j]).id != Some(id) by {
            assert(t[j] == s[j]);
        }
    }
    lemma_first_match_is(t, id, i);
}

/// An update of an identifier that no record carries changes nothing: it
/// does not create a record.
pub proof fn lemma_update_of_absent(s: Seq<BookView>, id: nat, input: BookView)
    requires
        !has_id(s, id),
    ensures
        after_update(s, id, input) == s,
{
    lemma_first_match_none(s, id);
}

/// After a removal of `id` no record carries `id`, so a second removal of
/// `id` finds nothing to remove and leaves the collection as the first left
/// it, and a lookup of `id` finds nothing.
pub proof fn lemma_delete_twice(s: Seq<BookView>, id: nat)
    ensures
        !has_id(after_delete(s, id), id),
        after_delete(after_delete(s, id), id) == after_delete(s, id),
        found(after_delete(s, id), id) is None,
{
    lemma_delete_outcome(s, id);
    lemma_delete_outcome(after_delete(s, id), id);
    lemma_first_match_none(after_delete(s, id), id);
}

/// Each operation keeps every record identified.
pub proof fn lemma_identifiers_kept(s: Seq<BookView>, id: nat, input: BookView)
    requires
        all_identified(s),
    ensures
        all_identified(after_create(s, input)),
        all_identified(after_update(s, id, input)),
        all_identified(after_delete(s, id)),
{
    lemma_first_match_exists(s, id);
    let d = after_delete(s, id);
    assert forall|i: int| 0 <= i < d.len() implies (#[trigger] d[i]).id is Some by {
        lemma_delete_keeps(s, id, i);
    }
}

/// Every record that a removal leaves was in the collection before.
proof fn lemma_delete_keeps(s: Seq<BookView>, id: nat, i: int)
    requires
        0 <= i < after_delete(s, id).len(),
    ensures
        s.contains(after_delete(s, id)[i]),
{
    let keep = crate::model::carries_other(id);
    s.lemma_filter_contains_rev(keep, after_delete(s, id)[i]);
}

} // verus!
