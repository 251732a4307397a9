//! The durable storage primitives, over `ic_stable_structures`.
//!
//! A region allocator divides one growable linear memory into eight disjoint
//! sub-regions, each addressed by a fixed small id so that reopening the same
//! medium reconstructs the same layout. Region 0 to 3 back one counter cell
//! per entity kind, region 4 to 7 one ordered identifier-to-bytes map per
//! kind. These are the library's only trusted items besides two character
//! helpers: each contract states what the crate's source shows of the call.

use ic_stable_structures::memory_manager::{MemoryId, MemoryManager, VirtualMemory};
use ic_stable_structures::{Cell, DefaultMemoryImpl, StableBTreeMap};
use vstd::prelude::*;

verus! {

/// A durable counter cell over one region of the store's memory.
#[verifier::external_body]
pub struct IdCell {
    cell: Cell<u64, VirtualMemory<DefaultMemoryImpl>>,
}

/// A durable ordered map over one region, from identifier to the serialized
/// record's bytes.
#[verifier::external_body]
pub struct ByteMap {
    map: StableBTreeMap<u64, Vec<u8>, VirtualMemory<DefaultMemoryImpl>>,
}

/// The value a counter cell holds.
pub uninterp spec fn cell_value(c: IdCell) -> u64;

/// The identifier-to-bytes contents of one durable map.
pub uninterp spec fn map_contents(m: ByteMap) -> Map<u64, Seq<u8>>;

/// The eight freshly opened sub-regions: one counter and one map per entity
/// kind, numbered as the durable layout fixes them.
pub struct Regions {
    pub student_ids: IdCell,
    pub teacher_ids: IdCell,
    pub lesson_ids: IdCell,
    pub schedule_ids: IdCell,
    pub students: ByteMap,
    pub teachers: ByteMap,
    pub lessons: ByteMap,
    pub schedules: ByteMap,
}

/// Relies on `MemoryManager::init` over a fresh default memory,
/// `MemoryManager::get` with eight distinct region ids (so the components can
/// never observe one another's bytes), `Cell::init` (a cell over empty memory
/// takes the default given here, 0), and `StableBTreeMap::init` (a map over
/// empty memory is empty).
#[verifier::external_body]
pub fn open_regions() -> (r: Regions)
    ensures
        cell_value(r.student_ids) == 0,
        cell_value(r.teacher_ids) == 0,
        cell_value(r.lesson_ids) == 0,
        cell_value(r.schedule_ids) == 0,
        map_contents(r.students) =~= Map::empty(),
        map_contents(r.teachers) =~= Map::empty(),
        map_contents(r.lessons) =~= Map::empty(),
        map_contents(r.schedules) =~= Map::empty(),
{
    let m = MemoryManager::init(DefaultMemoryImpl::default());
    let c = |i: u8| IdCell { cell: Cell::init(m.get(MemoryId::new(i)), 0) };
    let b = |i: u8| ByteMap { map: StableBTreeMap::init(m.get(MemoryId::new(i))) };
    Regions {
        student_ids: c(0),
        teacher_ids: c(1),
        lesson_ids: c(2),
        schedule_ids: c(3),
        students: b(4),
        teachers: b(5),
        lessons: b(6),
        schedules: b(7),
    }
}

impl IdCell {
    /// Relies on `Cell::get`: returns the held value.
    #[verifier::external_body]
    pub fn value(&self) -> (r: u64)
        ensures
            r == cell_value(*self),
    {
        *self.cell.get()
    }

    /// Relies on `Cell::set`: persists `v` before returning; a failed
    /// durable write aborts the process rather than returning.
    #[verifier::external_body]
    pub fn put(&mut self, v: u64)
        ensures
            cell_value(*final(self)) == v,
    {
        self.cell.set(v);
    }
}

impl ByteMap {
    /// Relies on `StableBTreeMap::get`: the value stored under `id`, if any.
    #[verifier::external_body]
    pub fn get(&self, id: u64) -> (r: Option<Vec<u8>>)
        ensures
            match r {
                Some(v) => map_contents(*self).contains_key(id) && v@ == map_contents(*self)[id],
                None => !map_contents(*self).contains_key(id),
            },
    {
        self.map.get(&id)
    }

    /// Relies on `StableBTreeMap::insert`: upserts the value under `id`.
    #[verifier::external_body]
    pub fn insert(&mut self, id: u64, v: Vec<u8>)
        ensures
            map_contents(*final(self)) == map_contents(*old(self)).insert(id, v@),
    {
        self.map.insert(id, v);
    }

    /// Relies on `StableBTreeMap::remove`: removes and returns the prior
    /// value under `id`, if any.
    #[verifier::external_body]
    pub fn remove(&mut self, id: u64) -> (r: Option<Vec<u8>>)
        ensures
            map_contents(*final(self)) == map_contents(*old(self)).remove(id),
            match r {
                Some(v) => map_contents(*old(self)).contains_key(id) && v@ == map_contents(
                    *old(self),
                )[id],
                None => !map_contents(*old(self)).contains_key(id),
            },
    {
        self.map.remove(&id)
    }

    /// Relies on `StableBTreeMap::iter`: one entry per key the map holds, in
    /// ascending key order.
    #[verifier::external_body]
    pub fn entries(&self) -> (r: Vec<(u64, Vec<u8>)>)
        ensures
            forall|i: int|
                #![trigger r@[i]]
                0 <= i < r@.len() ==> map_contents(*self).contains_key(r@[i].0) && r@[i].1@
                    == map_contents(*self)[r@[i].0],
            forall|k: u64|
                #[trigger] map_contents(*self).contains_key(k) ==> exists|i: int|
                    0 <= i < r@.len() && r@[i].0 == k,
            forall|i: int, j: int| 0 <= i < j < r@.len() ==> r@[i].0 < r@[j].0,
    {
        self.map.iter().map(|e| e.into_pair()).collect()
    }
}

} // verus!
