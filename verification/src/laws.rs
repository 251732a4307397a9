//! The store's laws, stated over the models that the operation contracts use.
//!
//! Each operation's `ensures` describes one call; these theorems connect
//! consecutive calls: what a `create` stores a `get` returns, a deleted id
//! stays gone, appending and then removing a member restores the list, and a
//! relationship list of dangling ids fans out to nothing.

use vstd::prelude::*;

use crate::relations::{entries_without, ids_without, resolve};
use crate::records::ScheduleEntryV;

verus! {

/// Consecutive `create` calls of one kind yield strictly increasing ids, and
/// the first id minted from a fresh counter (at zero) is one. The three
/// hypotheses are what `add_lesson`, `add_teacher`, `add_student` and
/// `add_schedule_entry` ensure of the counter and the returned id.
pub proof fn lemma_create_ids_monotonic(c0: u64, id1: u64, c1: u64, id2: u64)
    requires
        id1 == c0 + 1,
        c1 == c0 + 1,
        id2 == c1 + 1,
    ensures
        id1 < id2,
        c0 == 0 ==> id1 == 1,
{
}

/// `create` then `get` round-trips: a `create` leaves the collection at
/// `m0.insert(id, rec)` and returns `rec`, and on that collection `get(id)`
/// returns exactly the record `create` returned.
pub proof fn lemma_create_then_get<T>(m0: Map<u64, T>, id: u64, rec: T)
    ensures
        m0.insert(id, rec).contains_key(id),
        m0.insert(id, rec)[id] == rec,
{
}

/// Delete is final: a successful `delete` leaves the collection at
/// `m.remove(id)`, on which `get(id)` and a second `delete(id)` both report
/// `NotFound`.
pub proof fn lemma_delete_finality<T>(m: Map<u64, T>, id: u64)
    ensures
        !m.remove(id).contains_key(id),
{
}

/// Appending an id and then removing it restores a relationship list that had
/// no prior occurrence of that id.
pub proof fn lemma_append_remove_duality(s: Seq<u64>, x: u64)
    requires
        !s.contains(x),
    ensures
        ids_without(s.push(x), x) == s,
    decreases s.len(),
{
    if s.len() == 0 {
        assert(s.push(x)[0] == x);
        assert(s.push(x).skip(1) =~= Seq::<u64>::empty());
        assert(ids_without(Seq::<u64>::empty(), x) =~= Seq::<u64>::empty());
        assert(ids_without(s.push(x), x) =~= s);
    } else {
        assert(s[0] != x);
        assert(s.push(x)[0] == s[0]);
        assert(s.push(x).skip(1) =~= s.skip(1).push(x));
        assert(!s.skip(1).contains(x)) by {
            if s.skip(1).contains(x) {
                let i = choose|i: int| 0 <= i < s.skip(1).len() && s.skip(1)[i] == x;
                assert(s[i + 1] == x);
            }
        }
        lemma_append_remove_duality(s.skip(1), x);
        assert(ids_without(s.push(x), x) =~= s);
    }
}

/// The same duality for embedded schedule copies: appending an entry and then
/// removing its id restores a list that held no entry with that id.
pub proof fn lemma_entry_append_remove_duality(es: Seq<ScheduleEntryV>, e: ScheduleEntryV)
    requires
        forall|i: int| 0 <= i < es.len() ==> (#[trigger] es[i]).id != e.id,
    ensures
        entries_without(es.push(e), e.id) == es,
    decreases es.len(),
{
    if es.len() == 0 {
        assert(es.push(e)[0] == e);
        assert(es.push(e).skip(1) =~= Seq::<ScheduleEntryV>::empty());
        assert(entries_without(Seq::<ScheduleEntryV>::empty(), e.id)
            =~= Seq::<ScheduleEntryV>::empty());
        assert(entries_without(es.push(e), e.id) =~= es);
    } else {
        assert(es.push(e)[0] == es[0]);
        assert(es.push(e).skip(1) =~= es.skip(1).push(e));
        assert(forall|i: int|
            0 <= i < es.skip(1).len() ==> (#[trigger] es.skip(1)[i]).id != e.id);
        lemma_entry_append_remove_duality(es.skip(1), e);
        assert(entries_without(es.push(e), e.id) =~= es);
    }
}

/// A relationship list none of whose ids resolves fans out to the empty list
/// (a success), never to an error: in particular, after the one lesson a
/// teacher references is deleted, the fan-out read returns an empty list.
pub proof fn lemma_resolve_dangling<T>(ids: Seq<u64>, m: Map<u64, T>)
    requires
        forall|i: int| 0 <= i < ids.len() ==> !m.contains_key(#[trigger] ids[i]),
    ensures
        resolve(ids, m) == Seq::<T>::empty(),
    decreases ids.len(),
{
    if ids.len() > 0 {
        assert(forall|i: int|
            0 <= i < ids.skip(1).len() ==> !m.contains_key(#[trigger] ids.skip(1)[i]));
        lemma_resolve_dangling(ids.skip(1), m);
    }
}

} // verus!
