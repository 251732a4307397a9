//! Repository operations for lessons: list, read, create, patch, delete.

use vstd::pervasive::unreached;
use vstd::prelude::*;

use crate::backend::map_contents;
use crate::codec::{decode_lesson, entries_cat, lesson_fits, MAX_RECORD_BYTES};
use crate::errors::{not_found_id, not_found_text, validation_error, Error};
use crate::records::{
    lesson_payload_valid, merge_field, update_if_not_empty, Lesson, LessonPayload, LessonV,
};
use crate::store::{do_insert_lesson, next_id, Store};
use crate::text::{id_msg, is_blank};

verus! {

/// The record a `create` builds: the minted id, the payload's scalar fields,
/// and empty relationship lists.
pub open spec fn lesson_from_payload(id: u64, p: &LessonPayload) -> LessonV {
    LessonV {
        id,
        title: p.title@,
        description: p.description@,
        grade_level: p.grade_level@,
        subject: p.subject@,
        teacher_id: p.teacher_id,
        students: Seq::empty(),
        schedule: Seq::empty(),
    }
}

/// A payload small enough that the record built from it fits the byte bound.
pub open spec fn lesson_payload_fits(p: &LessonPayload) -> bool {
    8 * (8 + p.title@.len() + p.description@.len() + p.grade_level@.len() + p.subject@.len())
        <= MAX_RECORD_BYTES
}

/// The record an `update` writes back: non-blank payload fields overwrite,
/// the id and the relationship lists are never altered.
pub open spec fn merged_lesson(cur: LessonV, p: &LessonPayload) -> LessonV {
    LessonV {
        id: cur.id,
        title: merge_field(cur.title, p.title@),
        description: merge_field(cur.description, p.description@),
        grade_level: merge_field(cur.grade_level, p.grade_level@),
        subject: merge_field(cur.subject, p.subject@),
        teacher_id: p.teacher_id,
        students: cur.students,
        schedule: cur.schedule,
    }
}

/// All lessons in ascending-id order; an empty collection is reported as
/// `NotFound`, not as an empty list.
pub fn get_all_lessons(store: &Store) -> (r: Result<Vec<Lesson>, Error>)
    requires
        store.wf(),
    ensures
        match r {
            Ok(v) => {
                &&& v@.len() > 0
                &&& forall|i: int|
                    #![trigger v@[i]]
                    0 <= i < v@.len() ==> store.lessons().contains_key(v@[i].id) && v@[i]@
                        == store.lessons()[v@[i].id]
                &&& forall|k: u64|
                    #[trigger] store.lessons().contains_key(k) ==> exists|i: int|
                        0 <= i < v@.len() && v@[i].id == k
                &&& forall|i: int, j: int| 0 <= i < j < v@.len() ==> v@[i].id < v@[j].id
            },
            Err(e) => {
                &&& forall|k: u64| !store.lessons().contains_key(k)
                &&& e.is_not_found()
                &&& e.msg() == "No Lessons found "@
            },
        },
{
    let entries = store.lesson_map.entries();
    let mut lessons: Vec<Lesson> = Vec::new();
    let mut i: usize = 0;
    while i < entries.len()
        invariant
            store.wf(),
            0 <= i <= entries@.len(),
            lessons@.len() == i,
            forall|j: int|
                #![trigger entries@[j]]
                0 <= j < entries@.len() ==> map_contents(store.lesson_map).contains_key(
                    entries@[j].0,
                ) && entries@[j].1@ == map_contents(store.lesson_map)[entries@[j].0],
            forall|j: int|
                #![trigger lessons@[j]]
                0 <= j < i ==> lessons@[j].id == entries@[j].0 && lessons@[j]@ == store.lessons()[
                    entries@[j].0],
        decreases entries@.len() - i,
    {
        let kv = &entries[i];
        let l = match decode_lesson(&kv.1) {
            Some(l) => l,
            None => {
                proof {
                    assert(map_contents(store.lesson_map).contains_key(entries@[i as int].0));
                    assert(false);
                }
                unreached()
            },
        };
        lessons.push(l);
        i = i + 1;
    }
    if lessons.len() > 0 {
        proof {
            assert forall|k: u64| #[trigger] store.lessons().contains_key(k) implies exists|i: int|
                0 <= i < lessons@.len() && lessons@[i].id == k by {
                assert(map_contents(store.lesson_map).contains_key(k));
                let j = choose|j: int| 0 <= j < entries@.len() && entries@[j].0 == k;
                assert(lessons@[j].id == k);
            };
        }
        Ok(lessons)
    } else {
        Err(not_found_text("No Lessons found "))
    }
}

/// The lesson under `id`, or `NotFound` naming the missing id.
pub fn get_lesson(store: &Store, id: u64) -> (r: Result<Lesson, Error>)
    requires
        store.wf(),
    ensures
        match r {
            Ok(l) => store.lessons().contains_key(id) && l@ == store.lessons()[id],
            Err(e) => {
                &&& !store.lessons().contains_key(id)
                &&& e.is_not_found()
                &&& e.msg() == id_msg("Lesson with id="@, id, " not found"@)
            },
        },
{
    match store.lesson_map.get(id) {
        Some(bytes) => {
            let l = match decode_lesson(&bytes) {
                Some(l) => l,
                None => {
                    proof {
                        assert(false);
                    }
                    unreached()
                },
            };
            Ok(l)
        },
        None => Err(not_found_id("Lesson with id=", id, " not found")),
    }
}

/// Creates a lesson: rejects a payload with any blank required field, else
/// mints the next id, stores the record with empty relationship lists, and
/// returns the stored value.
pub fn add_lesson(store: &mut Store, lesson_payload: LessonPayload) -> (r: Result<Lesson, Error>)
    requires
        old(store).wf(),
        old(store).lesson_ctr() < u64::MAX,
        lesson_payload_fits(&lesson_payload),
    ensures
        final(store).wf(),
        match r {
            Ok(l) => {
                &&& lesson_payload_valid(&lesson_payload)
                &&& l.id == old(store).lesson_ctr() + 1
                &&& l@ == lesson_from_payload(l.id, &lesson_payload)
                &&& final(store).lesson_ctr() == old(store).lesson_ctr() + 1
                &&& final(store).lessons() == old(store).lessons().insert(l.id, l@)
                &&& final(store).same_but_lessons(old(store))
            },
            Err(e) => {
                &&& !lesson_payload_valid(&lesson_payload)
                &&& e.is_validation()
                &&& e.msg() == "Invalid Lesson data Check for valid data "@
                &&& final(store).same_state(old(store))
            },
        },
{
    if is_blank(lesson_payload.title.as_str()) || is_blank(lesson_payload.subject.as_str())
        || is_blank(lesson_payload.description.as_str()) || is_blank(
        lesson_payload.grade_level.as_str(),
    ) {
        return Err(validation_error("Invalid Lesson data Check for valid data "));
    }
    let id = next_id(&mut store.lesson_ids);
    let lesson = Lesson {
        id,
        title: lesson_payload.title,
        description: lesson_payload.description,
        grade_level: lesson_payload.grade_level,
        subject: lesson_payload.subject,
        teacher_id: lesson_payload.teacher_id,
        students: Vec::new(),
        schedule: Vec::new(),
    };
    proof {
        assert(entries_cat(lesson@.schedule).len() == 0);
        assert(lesson_fits(lesson@));
    }
    do_insert_lesson(store, &lesson);
    Ok(lesson)
}

/// Patches the lesson under `lesson_id`: each non-blank payload field
/// overwrites the stored one, a blank one leaves it unchanged, and the
/// relationship lists and the id are never altered.
pub fn update_lesson(store: &mut Store, lesson_id: u64, lesson_payload: LessonPayload) -> (r:
    Result<Lesson, Error>)
    requires
        old(store).wf(),
        old(store).lessons().contains_key(lesson_id) ==> lesson_fits(
            merged_lesson(old(store).lessons()[lesson_id], &lesson_payload),
        ),
    ensures
        final(store).wf(),
        match r {
            Ok(l) => {
                &&& old(store).lessons().contains_key(lesson_id)
                &&& l@ == merged_lesson(old(store).lessons()[lesson_id], &lesson_payload)
                &&& final(store).lessons() == old(store).lessons().insert(lesson_id, l@)
                &&& final(store).lesson_ctr() == old(store).lesson_ctr()
                &&& final(store).same_but_lessons(old(store))
            },
            Err(e) => {
                &&& !old(store).lessons().contains_key(lesson_id)
                &&& e.is_not_found()
                &&& e.msg() == id_msg("Update Lesson  with id="@, lesson_id, ". not found"@)
                &&& final(store).same_state(old(store))
            },
        },
{
    let bytes = match store.lesson_map.get(lesson_id) {
        Some(bytes) => bytes,
        None => {
            return Err(not_found_id("Update Lesson  with id=", lesson_id, ". not found"));
        },
    };
    let mut lesson = match decode_lesson(&bytes) {
        Some(l) => l,
        None => {
            proof {
                assert(false);
            }
            unreached()
        },
    };
    update_if_not_empty(&mut lesson.title, lesson_payload.title);
    update_if_not_empty(&mut lesson.description, lesson_payload.description);
    update_if_not_empty(&mut lesson.grade_level, lesson_payload.grade_level);
    update_if_not_empty(&mut lesson.subject, lesson_payload.subject);
    lesson.teacher_id = lesson_payload.teacher_id;
    do_insert_lesson(store, &lesson);
    Ok(lesson)
}

/// Removes and returns the lesson under `id`, or `NotFound`; no cascade
/// cleanup happens (references to the lesson elsewhere go dangling).
pub fn delete_lesson(store: &mut Store, id: u64) -> (r: Result<Lesson, Error>)
    requires
        old(store).wf(),
    ensures
        final(store).wf(),
        match r {
            Ok(l) => {
                &&& old(store).lessons().contains_key(id)
                &&& l@ == old(store).lessons()[id]
                &&& final(store).lessons() == old(store).lessons().remove(id)
                &&& final(store).lesson_ctr() == old(store).lesson_ctr()
                &&& final(store).same_but_lessons(old(store))
            },
            Err(e) => {
                &&& !old(store).lessons().contains_key(id)
                &&& e.is_not_found()
                &&& e.msg() == id_msg("Lesson with id="@, id, " not found"@)
                &&& final(store).same_state(old(store))
            },
        },
{
    match store.lesson_map.remove(id) {
        Some(bytes) => {
            let l = match decode_lesson(&bytes) {
                Some(l) => l,
                None => {
                    proof {
                        assert(false);
                    }
                    unreached()
                },
            };
            proof {
                assert(store.lessons() =~= old(store).lessons().remove(id));
            }
            Ok(l)
        },
        None => {
            proof {
                assert(store.lessons() =~= old(store).lessons());
            }
            Err(not_found_id("Lesson with id=", id, " not found"))
        },
    }
}

} // verus!
