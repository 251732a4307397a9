//! Repository operations for students: list, read, create, patch, delete.

use vstd::pervasive::unreached;
use vstd::prelude::*;

use crate::backend::map_contents;
use crate::codec::{decode_student, student_fits, MAX_RECORD_BYTES};
use crate::errors::{not_found_id, not_found_text, validation_error, Error};
use crate::records::{
    merge_field, student_payload_valid, update_if_not_empty, Student, StudentPayload, StudentV,
};
use crate::store::{do_insert_student, next_id, Store};
use crate::text::{id_msg, is_blank};

verus! {

/// The record a `create` builds: the minted id, the payload's scalar fields,
/// and an empty relationship list.
pub open spec fn student_from_payload(id: u64, p: &StudentPayload) -> StudentV {
    StudentV { id, name: p.name@, grade_level: p.grade_level@, lessons: Seq::empty() }
}

/// A payload small enough that the record built from it fits the byte bound.
pub open spec fn student_payload_fits(p: &StudentPayload) -> bool {
    8 * (4 + p.name@.len() + p.grade_level@.len()) <= MAX_RECORD_BYTES
}

/// The record an `update` writes back: non-blank payload fields overwrite,
/// the id and the relationship list are never altered.
pub open spec fn merged_student(cur: StudentV, p: &StudentPayload) -> StudentV {
    StudentV {
        id: cur.id,
        name: merge_field(cur.name, p.name@),
        grade_level: merge_field(cur.grade_level, p.grade_level@),
        lessons: cur.lessons,
    }
}

/// All students in ascending-id order; an empty collection is reported as
/// `NotFound`, not as an empty list.
pub fn get_all_students(store: &Store) -> (r: Result<Vec<Student>, Error>)
    requires
        store.wf(),
    ensures
        match r {
            Ok(v) => {
                &&& v@.len() > 0
                &&& forall|i: int|
                    #![trigger v@[i]]
                    0 <= i < v@.len() ==> store.students().contains_key(v@[i].id) && v@[i]@
                        == store.students()[v@[i].id]
                &&& forall|k: u64|
                    #[trigger] store.students().contains_key(k) ==> exists|i: int|
                        0 <= i < v@.len() && v@[i].id == k
                &&& forall|i: int, j: int| 0 <= i < j < v@.len() ==> v@[i].id < v@[j].id
            },
            Err(e) => {
                &&& forall|k: u64| !store.students().contains_key(k)
                &&& e.is_not_found()
                &&& e.msg() == "No Students found "@
            },
        },
{
    let entries = store.student_map.entries();
    let mut students: Vec<Student> = Vec::new();
    let mut i: usize = 0;
    while i < entries.len()
        invariant
            store.wf(),
            0 <= i <= entries@.len(),
            students@.len() == i,
            forall|j: int|
                #![trigger entries@[j]]
                0 <= j < entries@.len() ==> map_contents(store.student_map).contains_key(
                    entries@[j].0,
                ) && entries@[j].1@ == map_contents(store.student_map)[entries@[j].0],
            forall|j: int|
                #![trigger students@[j]]
                0 <= j < i ==> students@[j].id == entries@[j].0 && students@[j]@
                    == store.students()[entries@[j].0],
        decreases entries@.len() - i,
    {
        let kv = &entries[i];
        let s = match decode_student(&kv.1) {
            Some(s) => s,
            None => {
                proof {
                    assert(map_contents(store.student_map).contains_key(entries@[i as int].0));
                    assert(false);
                }
                unreached()
            },
        };
        students.push(s);
        i = i + 1;
    }
    if students.len() > 0 {
        proof {
            assert forall|k: u64| #[trigger] store.students().contains_key(k) implies exists|
                i: int,
            | 0 <= i < students@.len() && students@[i].id == k by {
                assert(map_contents(store.student_map).contains_key(k));
                let j = choose|j: int| 0 <= j < entries@.len() && entries@[j].0 == k;
                assert(students@[j].id == k);
            };
        }
        Ok(students)
    } else {
        Err(not_found_text("No Students found "))
    }
}

/// The student under `id`, or `NotFound` naming the missing id.
pub fn get_student(store: &Store, id: u64) -> (r: Result<Student, Error>)
    requires
        store.wf(),
    ensures
        match r {
            Ok(s) => store.students().contains_key(id) && s@ == store.students()[id],
            Err(e) => {
                &&& !store.students().contains_key(id)
                &&& e.is_not_found()
                &&& e.msg() == id_msg("Student with id="@, id, " not found"@)
            },
        },
{
    match store.student_map.get(id) {
        Some(bytes) => {
            let s = match decode_student(&bytes) {
                Some(s) => s,
                None => {
                    proof {
                        assert(false);
                    }
                    unreached()
                },
            };
            Ok(s)
        },
        None => Err(not_found_id("Student with id=", id, " not found")),
    }
}

/// Creates a student: rejects a payload with any blank required field, else
/// mints the next id, stores the record with an empty relationship list, and
/// returns the stored value.
pub fn add_student(store: &mut Store, student_payload: StudentPayload) -> (r: Result<
    Student,
    Error,
>)
    requires
        old(store).wf(),
        old(store).student_ctr() < u64::MAX,
        student_payload_fits(&student_payload),
    ensures
        final(store).wf(),
        match r {
            Ok(s) => {
                &&& student_payload_valid(&student_payload)
                &&& s.id == old(store).student_ctr() + 1
                &&& s@ == student_from_payload(s.id, &student_payload)
                &&& final(store).student_ctr() == old(store).student_ctr() + 1
                &&& final(store).students() == old(store).students().insert(s.id, s@)
                &&& final(store).same_but_students(old(store))
            },
            Err(e) => {
                &&& !student_payload_valid(&student_payload)
                &&& e.is_validation()
                &&& e.msg() == "Invalid Student data Check for valid data "@
                &&& final(store).same_state(old(store))
            },
        },
{
    if is_blank(student_payload.name.as_str()) || is_blank(student_payload.grade_level.as_str()) {
        return Err(validation_error("Invalid Student data Check for valid data "));
    }
    let id = next_id(&mut store.student_ids);
    let student = Student {
        id,
        name: student_payload.name,
        grade_level: student_payload.grade_level,
        lessons: Vec::new(),
    };
    proof {
        assert(student_fits(student@));
    }
    do_insert_student(store, &student);
    Ok(student)
}

/// Patches the student under `student_id`: each non-blank payload field
/// overwrites the stored one, a blank one leaves it unchanged, and the
/// relationship list and the id are never altered.
pub fn update_student(store: &mut Store, student_id: u64, student_payload: StudentPayload) -> (r:
    Result<Student, Error>)
    requires
        old(store).wf(),
        old(store).students().contains_key(student_id) ==> student_fits(
            merged_student(old(store).students()[student_id], &student_payload),
        ),
    ensures
        final(store).wf(),
        match r {
            Ok(s) => {
                &&& old(store).students().contains_key(student_id)
                &&& s@ == merged_student(old(store).students()[student_id], &student_payload)
                &&& final(store).students() == old(store).students().insert(student_id, s@)
                &&& final(store).student_ctr() == old(store).student_ctr()
                &&& final(store).same_but_students(old(store))
            },
            Err(e) => {
                &&& !old(store).students().contains_key(student_id)
                &&& e.is_not_found()
                &&& e.msg() == id_msg("Update Student  with id="@, student_id, ". not found"@)
                &&& final(store).same_state(old(store))
            },
        },
{
    let bytes = match store.student_map.get(student_id) {
        Some(bytes) => bytes,
        None => {
            return Err(not_found_id("Update Student  with id=", student_id, ". not found"));
        },
    };
    let mut student = match decode_student(&bytes) {
        Some(s) => s,
        None => {
            proof {
                assert(false);
            }
            unreached()
        },
    };
    update_if_not_empty(&mut student.name, student_payload.name);
    update_if_not_empty(&mut student.grade_level, student_payload.grade_level);
    do_insert_student(store, &student);
    Ok(student)
}

/// Removes and returns the student under `id`, or `NotFound`; no cascade
/// cleanup happens.
pub fn delete_student(store: &mut Store, id: u64) -> (r: Result<Student, Error>)
    requires
        old(store).wf(),
    ensures
        final(store).wf(),
        match r {
            Ok(s) => {
                &&& old(store).students().contains_key(id)
                &&& s@ == old(store).students()[id]
                &&& final(store).students() == old(store).students().remove(id)
                &&& final(store).student_ctr() == old(store).student_ctr()
                &&& final(store).same_but_students(old(store))
            },
            Err(e) => {
                &&& !old(store).students().contains_key(id)
                &&& e.is_not_found()
                &&& e.msg() == id_msg("Student with id="@, id, " not found"@)
                &&& final(store).same_state(old(store))
            },
        },
{
    match store.student_map.remove(id) {
        Some(bytes) => {
            let s = match decode_student(&bytes) {
                Some(s) => s,
                None => {
                    proof {
                        assert(false);
                    }
                    unreached()
                },
            };
            proof {
                assert(store.students() =~= old(store).students().remove(id));
            }
            Ok(s)
        },
        None => {
            proof {
                assert(store.students() =~= old(store).students());
            }
            Err(not_found_id("Student with id=", id, " not found"))
        },
    }
}

} // verus!
