//! The store: one durable counter and one durable collection per entity
//! kind, with the abstraction that every contract speaks of.
//!
//! Each collection is modelled as a map from identifier to record view. The
//! well-formedness invariant says that every stored byte buffer decodes, that
//! the decoded record carries its own key as its id, and that it stays within
//! the record byte bound.

use vstd::prelude::*;

use crate::backend::{cell_value, map_contents, open_regions, ByteMap, IdCell};
use crate::codec::{
    encode_entry, encode_lesson, encode_student, encode_teacher, entry_fits, entry_of_bytes,
    lemma_entry_fits_wf, lemma_entry_roundtrip, lemma_lesson_fits_wf, lemma_lesson_roundtrip,
    lemma_student_fits_wf, lemma_student_roundtrip, lemma_teacher_fits_wf,
    lemma_teacher_roundtrip, lesson_fits, lesson_of_bytes, student_fits, student_of_bytes,
    teacher_fits, teacher_of_bytes,
};
use crate::records::{Lesson, LessonV, ScheduleEntry, ScheduleEntryV, Student, StudentV, Teacher,
    TeacherV};

verus! {

/// Process-wide singleton state: all eight durable components, injected into
/// every repository operation.
pub struct Store {
    pub lesson_ids: IdCell,
    pub teacher_ids: IdCell,
    pub student_ids: IdCell,
    pub schedule_ids: IdCell,
    pub lesson_map: ByteMap,
    pub teacher_map: ByteMap,
    pub student_map: ByteMap,
    pub schedule_map: ByteMap,
}

impl Store {
    pub open spec fn lessons(&self) -> Map<u64, LessonV> {
        map_contents(self.lesson_map).map_values(|b: Seq<u8>| lesson_of_bytes(b).unwrap())
    }

    pub open spec fn teachers(&self) -> Map<u64, TeacherV> {
        map_contents(self.teacher_map).map_values(|b: Seq<u8>| teacher_of_bytes(b).unwrap())
    }

    pub open spec fn students(&self) -> Map<u64, StudentV> {
        map_contents(self.student_map).map_values(|b: Seq<u8>| student_of_bytes(b).unwrap())
    }

    pub open spec fn schedules(&self) -> Map<u64, ScheduleEntryV> {
        map_contents(self.schedule_map).map_values(|b: Seq<u8>| entry_of_bytes(b).unwrap())
    }

    pub open spec fn lesson_ctr(&self) -> u64 {
        cell_value(self.lesson_ids)
    }

    pub open spec fn teacher_ctr(&self) -> u64 {
        cell_value(self.teacher_ids)
    }

    pub open spec fn student_ctr(&self) -> u64 {
        cell_value(self.student_ids)
    }

    pub open spec fn schedule_ctr(&self) -> u64 {
        cell_value(self.schedule_ids)
    }

    /// Every stored buffer decodes to a record that carries its key as its id
    /// and fits the byte bound.
    pub open spec fn wf(&self) -> bool {
        &&& forall|id: u64| #[trigger]
            map_contents(self.lesson_map).contains_key(id) ==> {
                let d = lesson_of_bytes(map_contents(self.lesson_map)[id]);
                d is Some && d.unwrap().id == id && lesson_fits(d.unwrap())
            }
        &&& forall|id: u64| #[trigger]
            map_contents(self.teacher_map).contains_key(id) ==> {
                let d = teacher_of_bytes(map_contents(self.teacher_map)[id]);
                d is Some && d.unwrap().id == id && teacher_fits(d.unwrap())
            }
        &&& forall|id: u64| #[trigger]
            map_contents(self.student_map).contains_key(id) ==> {
                let d = student_of_bytes(map_contents(self.student_map)[id]);
                d is Some && d.unwrap().id == id && student_fits(d.unwrap())
            }
        &&& forall|id: u64| #[trigger]
            map_contents(self.schedule_map).contains_key(id) ==> {
                let d = entry_of_bytes(map_contents(self.schedule_map)[id]);
                d is Some && d.unwrap().id == id && entry_fits(d.unwrap())
            }
    }

    /// The whole abstract state agrees with `pre`'s: an operation that failed
    /// changed nothing observable.
    pub open spec fn same_state(&self, pre: &Store) -> bool {
        &&& self.lessons() == pre.lessons()
        &&& self.teachers() == pre.teachers()
        &&& self.students() == pre.students()
        &&& self.schedules() == pre.schedules()
        &&& self.lesson_ctr() == pre.lesson_ctr()
        &&& self.teacher_ctr() == pre.teacher_ctr()
        &&& self.student_ctr() == pre.student_ctr()
        &&& self.schedule_ctr() == pre.schedule_ctr()
    }

    /// Everything outside the lesson collection agrees with `pre`.
    pub open spec fn same_but_lessons(&self, pre: &Store) -> bool {
        &&& self.teachers() == pre.teachers()
        &&& self.students() == pre.students()
        &&& self.schedules() == pre.schedules()
        &&& self.teacher_ctr() == pre.teacher_ctr()
        &&& self.student_ctr() == pre.student_ctr()
        &&& self.schedule_ctr() == pre.schedule_ctr()
    }

    /// Everything outside the teacher collection agrees with `pre`.
    pub open spec fn same_but_teachers(&self, pre: &Store) -> bool {
        &&& self.lessons() == pre.lessons()
        &&& self.students() == pre.students()
        &&& self.schedules() == pre.schedules()
        &&& self.lesson_ctr() == pre.lesson_ctr()
        &&& self.student_ctr() == pre.student_ctr()
        &&& self.schedule_ctr() == pre.schedule_ctr()
    }

    /// Everything outside the student collection agrees with `pre`.
    pub open spec fn same_but_students(&self, pre: &Store) -> bool {
        &&& self.lessons() == pre.lessons()
        &&& self.teachers() == pre.teachers()
        &&& self.schedules() == pre.schedules()
        &&& self.lesson_ctr() == pre.lesson_ctr()
        &&& self.teacher_ctr() == pre.teacher_ctr()
        &&& self.schedule_ctr() == pre.schedule_ctr()
    }

    /// Everything outside the schedule-entry collection agrees with `pre`.
    pub open spec fn same_but_schedules(&self, pre: &Store) -> bool {
        &&& self.lessons() == pre.lessons()
        &&& self.teachers() == pre.teachers()
        &&& self.students() == pre.students()
        &&& self.lesson_ctr() == pre.lesson_ctr()
        &&& self.teacher_ctr() == pre.teacher_ctr()
        &&& self.student_ctr() == pre.student_ctr()
    }

    /// Opens a fresh store: all four collections empty and every counter at
    /// zero, so the first minted identifier of each kind is one.
    pub fn new() -> (s: Store)
        ensures
            s.wf(),
            s.lesson_ctr() == 0,
            s.teacher_ctr() == 0,
            s.student_ctr() == 0,
            s.schedule_ctr() == 0,
            s.lessons() =~= Map::empty(),
            s.teachers() =~= Map::empty(),
            s.students() =~= Map::empty(),
            s.schedules() =~= Map::empty(),
    {
        let r = open_regions();
        let s = Store {
            lesson_ids: r.lesson_ids,
            teacher_ids: r.teacher_ids,
            student_ids: r.student_ids,
            schedule_ids: r.schedule_ids,
            lesson_map: r.lessons,
            teacher_map: r.teachers,
            student_map: r.students,
            schedule_map: r.schedules,
        };
        proof {
            assert(s.lessons() =~= Map::empty());
            assert(s.teachers() =~= Map::empty());
            assert(s.students() =~= Map::empty());
            assert(s.schedules() =~= Map::empty());
        }
        s
    }
}

impl Store {
    /// The last lesson id handed out (zero before the first `create`).
    pub fn lesson_counter(&self) -> (r: u64)
        ensures
            r == self.lesson_ctr(),
    {
        self.lesson_ids.value()
    }

    /// The last teacher id handed out.
    pub fn teacher_counter(&self) -> (r: u64)
        ensures
            r == self.teacher_ctr(),
    {
        self.teacher_ids.value()
    }

    /// The last student id handed out.
    pub fn student_counter(&self) -> (r: u64)
        ensures
            r == self.student_ctr(),
    {
        self.student_ids.value()
    }

    /// The last schedule-entry id handed out.
    pub fn schedule_counter(&self) -> (r: u64)
        ensures
            r == self.schedule_ctr(),
    {
        self.schedule_ids.value()
    }
}

/// Mints the next identifier: reads the counter, persists its successor, and
/// returns the new value.
pub fn next_id(c: &mut IdCell) -> (id: u64)
    requires
        cell_value(*old(c)) < u64::MAX,
    ensures
        id == cell_value(*old(c)) + 1,
        cell_value(*final(c)) == id,
{
    let cur = c.value();
    c.put(cur + 1);
    cur + 1
}

/// Serializes the lesson and upserts it under its own id.
pub fn do_insert_lesson(store: &mut Store, lesson: &Lesson)
    requires
        old(store).wf(),
        lesson_fits(lesson@),
    ensures
        final(store).wf(),
        final(store).lessons() == old(store).lessons().insert(lesson.id, lesson@),
        final(store).teachers() == old(store).teachers(),
        final(store).students() == old(store).students(),
        final(store).schedules() == old(store).schedules(),
        final(store).lesson_ctr() == old(store).lesson_ctr(),
        final(store).teacher_ctr() == old(store).teacher_ctr(),
        final(store).student_ctr() == old(store).student_ctr(),
        final(store).schedule_ctr() == old(store).schedule_ctr(),
{
    let bytes = encode_lesson(lesson);
    proof {
        lemma_lesson_fits_wf(lesson@);
        lemma_lesson_roundtrip(lesson@);
    }
    store.lesson_map.insert(lesson.id, bytes);
    proof {
        assert(store.lessons() =~= old(store).lessons().insert(lesson.id, lesson@));
    }
}

/// Serializes the teacher and upserts it under its own id.
pub fn do_insert_teacher(store: &mut Store, teacher: &Teacher)
    requires
        old(store).wf(),
        teacher_fits(teacher@),
    ensures
        final(store).wf(),
        final(store).teachers() == old(store).teachers().insert(teacher.id, teacher@),
        final(store).lessons() == old(store).lessons(),
        final(store).students() == old(store).students(),
        final(store).schedules() == old(store).schedules(),
        final(store).lesson_ctr() == old(store).lesson_ctr(),
        final(store).teacher_ctr() == old(store).teacher_ctr(),
        final(store).student_ctr() == old(store).student_ctr(),
        final(store).schedule_ctr() == old(store).schedule_ctr(),
{
    let bytes = encode_teacher(teacher);
    proof {
        lemma_teacher_fits_wf(teacher@);
        lemma_teacher_roundtrip(teacher@);
    }
    store.teacher_map.insert(teacher.id, bytes);
    proof {
        assert(store.teachers() =~= old(store).teachers().insert(teacher.id, teacher@));
    }
}

/// Serializes the student and upserts it under its own id.
pub fn do_insert_student(store: &mut Store, student: &Student)
    requires
        old(store).wf(),
        student_fits(student@),
    ensures
        final(store).wf(),
        final(store).students() == old(store).students().insert(student.id, student@),
        final(store).lessons() == old(store).lessons(),
        final(store).teachers() == old(store).teachers(),
        final(store).schedules() == old(store).schedules(),
        final(store).lesson_ctr() == old(store).lesson_ctr(),
        final(store).teacher_ctr() == old(store).teacher_ctr(),
        final(store).student_ctr() == old(store).student_ctr(),
        final(store).schedule_ctr() == old(store).schedule_ctr(),
{
    let bytes = encode_student(student);
    proof {
        lemma_student_fits_wf(student@);
        lemma_student_roundtrip(student@);
    }
    store.student_map.insert(student.id, bytes);
    proof {
        assert(store.students() =~= old(store).students().insert(student.id, student@));
    }
}

/// Serializes the schedule entry and upserts it under its own id.
pub fn do_insert_schedule_entry(store: &mut Store, schedule_entry: &ScheduleEntry)
    requires
        old(store).wf(),
        entry_fits(schedule_entry@),
    ensures
        final(store).wf(),
        final(store).schedules() == old(store).schedules().insert(
            schedule_entry.id,
            schedule_entry@,
        ),
        final(store).lessons() == old(store).lessons(),
        final(store).teachers() == old(store).teachers(),
        final(store).students() == old(store).students(),
        final(store).lesson_ctr() == old(store).lesson_ctr(),
        final(store).teacher_ctr() == old(store).teacher_ctr(),
        final(store).student_ctr() == old(store).student_ctr(),
        final(store).schedule_ctr() == old(store).schedule_ctr(),
{
    let bytes = encode_entry(schedule_entry);
    proof {
        lemma_entry_fits_wf(schedule_entry@);
        lemma_entry_roundtrip(schedule_entry@);
    }
    store.schedule_map.insert(schedule_entry.id, bytes);
    proof {
        assert(store.schedules() =~= old(store).schedules().insert(
            schedule_entry.id,
            schedule_entry@,
        ));
    }
}

} // verus!
