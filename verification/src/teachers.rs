//! Repository operations for teachers: list, read, create, patch, delete.

use vstd::pervasive::unreached;
use vstd::prelude::*;

use crate::backend::map_contents;
use crate::codec::{decode_teacher, entries_cat, teacher_fits, MAX_RECORD_BYTES};
use crate::errors::{not_found_id, not_found_text, validation_error, Error};
use crate::records::{
    merge_field, teacher_payload_valid, update_if_not_empty, Teacher, TeacherPayload, TeacherV,
};
use crate::store::{do_insert_teacher, next_id, Store};
use crate::text::{id_msg, is_blank};

verus! {

/// The record a `create` builds: the minted id, the payload's scalar fields,
/// and empty relationship lists.
pub open spec fn teacher_from_payload(id: u64, p: &TeacherPayload) -> TeacherV {
    TeacherV {
        id,
        name: p.name@,
        subject: p.subject@,
        lessons: Seq::empty(),
        availability: Seq::empty(),
    }
}

/// A payload small enough that the record built from it fits the byte bound.
pub open spec fn teacher_payload_fits(p: &TeacherPayload) -> bool {
    8 * (5 + p.name@.len() + p.subject@.len()) <= MAX_RECORD_BYTES
}

/// The record an `update` writes back: non-blank payload fields overwrite,
/// the id and the relationship lists are never altered.
pub open spec fn merged_teacher(cur: TeacherV, p: &TeacherPayload) -> TeacherV {
    TeacherV {
        id: cur.id,
        name: merge_field(cur.name, p.name@),
        subject: merge_field(cur.subject, p.subject@),
        lessons: cur.lessons,
        availability: cur.availability,
    }
}

/// All teachers in ascending-id order; an empty collection is reported as
/// `NotFound`, not as an empty list.
pub fn get_all_teachers(store: &Store) -> (r: Result<Vec<Teacher>, Error>)
    requires
        store.wf(),
    ensures
        match r {
            Ok(v) => {
                &&& v@.len() > 0
                &&& forall|i: int|
                    #![trigger v@[i]]
                    0 <= i < v@.len() ==> store.teachers().contains_key(v@[i].id) && v@[i]@
                        == store.teachers()[v@[i].id]
                &&& forall|k: u64|
                    #[trigger] store.teachers().contains_key(k) ==> exists|i: int|
                        0 <= i < v@.len() && v@[i].id == k
                &&& forall|i: int, j: int| 0 <= i < j < v@.len() ==> v@[i].id < v@[j].id
            },
            Err(e) => {
                &&& forall|k: u64| !store.teachers().contains_key(k)
                &&& e.is_not_found()
                &&& e.msg() == "No Teachers found "@
            },
        },
{
    let entries = store.teacher_map.entries();
    let mut teachers: Vec<Teacher> = Vec::new();
    let mut i: usize = 0;
    while i < entries.len()
        invariant
            store.wf(),
            0 <= i <= entries@.len(),
            teachers@.len() == i,
            forall|j: int|
                #![trigger entries@[j]]
                0 <= j < entries@.len() ==> map_contents(store.teacher_map).contains_key(
                    entries@[j].0,
                ) && entries@[j].1@ == map_contents(store.teacher_map)[entries@[j].0],
            forall|j: int|
                #![trigger teachers@[j]]
                0 <= j < i ==> teachers@[j].id == entries@[j].0 && teachers@[j]@
                    == store.teachers()[entries@[j].0],
        decreases entries@.len() - i,
    {
        let kv = &entries[i];
        let t = match decode_teacher(&kv.1) {
            Some(t) => t,
            None => {
                proof {
                    assert(map_contents(store.teacher_map).contains_key(entries@[i as int].0));
                    assert(false);
                }
                unreached()
            },
        };
        teachers.push(t);
        i = i + 1;
    }
    if teachers.len() > 0 {
        proof {
            assert forall|k: u64| #[trigger] store.teachers().contains_key(k) implies exists|
                i: int,
            | 0 <= i < teachers@.len() && teachers@[i].id == k by {
                assert(map_contents(store.teacher_map).contains_key(k));
                let j = choose|j: int| 0 <= j < entries@.len() && entries@[j].0 == k;
                assert(teachers@[j].id == k);
            };
        }
        Ok(teachers)
    } else {
        Err(not_found_text("No Teachers found "))
    }
}

/// The teacher under `id`, or `NotFound` naming the missing id.
pub fn get_teacher(store: &Store, id: u64) -> (r: Result<Teacher, Error>)
    requires
        store.wf(),
    ensures
        match r {
            Ok(t) => store.teachers().contains_key(id) && t@ == store.teachers()[id],
            Err(e) => {
                &&& !store.teachers().contains_key(id)
                &&& e.is_not_found()
                &&& e.msg() == id_msg("Teacher with id="@, id, " not found"@)
            },
        },
{
    match store.teacher_map.get(id) {
        Some(bytes) => {
            let t = match decode_teacher(&bytes) {
                Some(t) => t,
                None => {
                    proof {
                        assert(false);
                    }
                    unreached()
                },
            };
            Ok(t)
        },
        None => Err(not_found_id("Teacher with id=", id, " not found")),
    }
}

/// Creates a teacher: rejects a payload with any blank required field, else
/// mints the next id, stores the record with empty relationship lists, and
/// returns the stored value.
pub fn add_teacher(store: &mut Store, teacher_payload: TeacherPayload) -> (r: Result<
    Teacher,
    Error,
>)
    requires
        old(store).wf(),
        old(store).teacher_ctr() < u64::MAX,
        teacher_payload_fits(&teacher_payload),
    ensures
        final(store).wf(),
        match r {
            Ok(t) => {
                &&& teacher_payload_valid(&teacher_payload)
                &&& t.id == old(store).teacher_ctr() + 1
                &&& t@ == teacher_from_payload(t.id, &teacher_payload)
                &&& final(store).teacher_ctr() == old(store).teacher_ctr() + 1
                &&& final(store).teachers() == old(store).teachers().insert(t.id, t@)
                &&& final(store).same_but_teachers(old(store))
            },
            Err(e) => {
                &&& !teacher_payload_valid(&teacher_payload)
                &&& e.is_validation()
                &&& e.msg() == "Invalid Teacher data Check for valid data "@
                &&& final(store).same_state(old(store))
            },
        },
{
    if is_blank(teacher_payload.name.as_str()) || is_blank(teacher_payload.subject.as_str()) {
        return Err(validation_error("Invalid Teacher data Check for valid data "));
    }
    let id = next_id(&mut store.teacher_ids);
    let teacher = Teacher {
        id,
        name: teacher_payload.name,
        subject: teacher_payload.subject,
        lessons: Vec::new(),
        availability: Vec::new(),
    };
    proof {
        assert(entries_cat(teacher@.availability).len() == 0);
        assert(teacher_fits(teacher@));
    }
    do_insert_teacher(store, &teacher);
    Ok(teacher)
}

/// Patches the teacher under `teacher_id`: each non-blank payload field
/// overwrites the stored one, a blank one leaves it unchanged, and the
/// relationship lists and the id are never altered.
pub fn update_teacher(store: &mut Store, teacher_id: u64, teacher_payload: TeacherPayload) -> (r:
    Result<Teacher, Error>)
    requires
        old(store).wf(),
        old(store).teachers().contains_key(teacher_id) ==> teacher_fits(
            merged_teacher(old(store).teachers()[teacher_id], &teacher_payload),
        ),
    ensures
        final(store).wf(),
        match r {
            Ok(t) => {
                &&& old(store).teachers().contains_key(teacher_id)
                &&& t@ == merged_teacher(old(store).teachers()[teacher_id], &teacher_payload)
                &&& final(store).teachers() == old(store).teachers().insert(teacher_id, t@)
                &&& final(store).teacher_ctr() == old(store).teacher_ctr()
                &&& final(store).same_but_teachers(old(store))
            },
            Err(e) => {
                &&& !old(store).teachers().contains_key(teacher_id)
                &&& e.is_not_found()
                &&& e.msg() == id_msg("Update Teacher  with id="@, teacher_id, ". not found"@)
                &&& final(store).same_state(old(store))
            },
        },
{
    let bytes = match store.teacher_map.get(teacher_id) {
        Some(bytes) => bytes,
        None => {
            return Err(not_found_id("Update Teacher  with id=", teacher_id, ". not found"));
        },
    };
    let mut teacher = match decode_teacher(&bytes) {
        Some(t) => t,
        None => {
            proof {
                assert(false);
            }
            unreached()
        },
    };
    update_if_not_empty(&mut teacher.name, teacher_payload.name);
    update_if_not_empty(&mut teacher.subject, teacher_payload.subject);
    do_insert_teacher(store, &teacher);
    Ok(teacher)
}

/// Removes and returns the teacher under `id`, or `NotFound`; no cascade
/// cleanup happens.
pub fn delete_teacher(store: &mut Store, id: u64) -> (r: Result<Teacher, Error>)
    requires
        old(store).wf(),
    ensures
        final(store).wf(),
        match r {
            Ok(t) => {
                &&& old(store).teachers().contains_key(id)
                &&& t@ == old(store).teachers()[id]
                &&& final(store).teachers() == old(store).teachers().remove(id)
                &&& final(store).teacher_ctr() == old(store).teacher_ctr()
                &&& final(store).same_but_teachers(old(store))
            },
            Err(e) => {
                &&& !old(store).teachers().contains_key(id)
                &&& e.is_not_found()
                &&& e.msg() == id_msg("Teacher with id="@, id, " not found"@)
                &&& final(store).same_state(old(store))
            },
        },
{
    match store.teacher_map.remove(id) {
        Some(bytes) => {
            let t = match decode_teacher(&bytes) {
                Some(t) => t,
                None => {
                    proof {
                        assert(false);
                    }
                    unreached()
                },
            };
            proof {
                assert(store.teachers() =~= old(store).teachers().remove(id));
            }
            Ok(t)
        },
        None => {
            proof {
                assert(store.teachers() =~= old(store).teachers());
            }
            Err(not_found_id("Teacher with id=", id, " not found"))
        },
    }
}

} // verus!
