//! Cross-entity operations: attaching and detaching relationship members, and
//! the fan-out reads that resolve a relationship list into records.
//!
//! Appends are not deduplicated (the same id may be pushed twice), removal
//! drops every occurrence and is a silent no-op when the member is absent,
//! and fan-out reads skip ids that no longer resolve instead of failing.

use vstd::pervasive::unreached;
use vstd::prelude::*;

use crate::codec::{
    decode_entry, decode_lesson, decode_student, decode_teacher, entries_cat, entry_toks,
    lesson_fits, student_fits, teacher_fits,
};
use crate::errors::{not_found_id, not_found_text, Error};
use crate::records::{Lesson, LessonV, ScheduleEntry, ScheduleEntryV, Student, StudentV, Teacher,
    TeacherV};
use crate::store::{do_insert_lesson, do_insert_student, do_insert_teacher, Store};
use crate::text::id_msg;

verus! {

// ---------------------------------------------------------------------------
// What the operations do to a relationship list
// ---------------------------------------------------------------------------
/// `s` with every occurrence of `x` removed, order otherwise kept.
pub open spec fn ids_without(s: Seq<u64>, x: u64) -> Seq<u64>
    decreases s.len(),
{
    if s.len() == 0 {
        Seq::empty()
    } else if s[0] == x {
        ids_without(s.skip(1), x)
    } else {
        seq![s[0]] + ids_without(s.skip(1), x)
    }
}

/// `es` with every entry whose id is `x` removed, order otherwise kept.
pub open spec fn entries_without(es: Seq<ScheduleEntryV>, x: u64) -> Seq<ScheduleEntryV>
    decreases es.len(),
{
    if es.len() == 0 {
        Seq::empty()
    } else if es[0].id == x {
        entries_without(es.skip(1), x)
    } else {
        seq![es[0]] + entries_without(es.skip(1), x)
    }
}

/// The records that the ids resolve to, in list order, skipping ids with no
/// record behind them.
pub open spec fn resolve<T>(ids: Seq<u64>, m: Map<u64, T>) -> Seq<T>
    decreases ids.len(),
{
    if ids.len() == 0 {
        Seq::empty()
    } else if m.contains_key(ids[0]) {
        seq![m[ids[0]]] + resolve(ids.skip(1), m)
    } else {
        resolve(ids.skip(1), m)
    }
}

pub proof fn lemma_ids_without_len(s: Seq<u64>, x: u64)
    ensures
        ids_without(s, x).len() <= s.len(),
    decreases s.len(),
{
    if s.len() > 0 {
        lemma_ids_without_len(s.skip(1), x);
    }
}

pub proof fn lemma_entries_without_cat_len(es: Seq<ScheduleEntryV>, x: u64)
    ensures
        entries_without(es, x).len() <= es.len(),
        entries_cat(entries_without(es, x)).len() <= entries_cat(es).len(),
    decreases es.len(),
{
    if es.len() > 0 {
        lemma_entries_without_cat_len(es.skip(1), x);
        if es[0].id != x {
            let w = entries_without(es.skip(1), x);
            assert((seq![es[0]] + w).skip(1) =~= w);
            assert(entries_cat(seq![es[0]] + w) == entry_toks(es[0]) + entries_cat(w));
        }
    }
}

pub open spec fn lesson_with_student(cur: LessonV, student_id: u64) -> LessonV {
    LessonV { students: cur.students.push(student_id), ..cur }
}

pub open spec fn lesson_without_student(cur: LessonV, student_id: u64) -> LessonV {
    LessonV { students: ids_without(cur.students, student_id), ..cur }
}

pub open spec fn lesson_with_entry(cur: LessonV, e: ScheduleEntryV) -> LessonV {
    LessonV { schedule: cur.schedule.push(e), ..cur }
}

pub open spec fn lesson_without_entry(cur: LessonV, schedule_id: u64) -> LessonV {
    LessonV { schedule: entries_without(cur.schedule, schedule_id), ..cur }
}

pub open spec fn teacher_with_lesson(cur: TeacherV, lesson_id: u64) -> TeacherV {
    TeacherV { lessons: cur.lessons.push(lesson_id), ..cur }
}

pub open spec fn teacher_without_lesson(cur: TeacherV, lesson_id: u64) -> TeacherV {
    TeacherV { lessons: ids_without(cur.lessons, lesson_id), ..cur }
}

pub open spec fn teacher_with_entry(cur: TeacherV, e: ScheduleEntryV) -> TeacherV {
    TeacherV { availability: cur.availability.push(e), ..cur }
}

pub open spec fn teacher_without_entry(cur: TeacherV, schedule_id: u64) -> TeacherV {
    TeacherV { availability: entries_without(cur.availability, schedule_id), ..cur }
}

pub open spec fn student_with_lesson(cur: StudentV, lesson_id: u64) -> StudentV {
    StudentV { lessons: cur.lessons.push(lesson_id), ..cur }
}

pub open spec fn student_without_lesson(cur: StudentV, lesson_id: u64) -> StudentV {
    StudentV { lessons: ids_without(cur.lessons, lesson_id), ..cur }
}

// ---------------------------------------------------------------------------
// Loading helpers
// ---------------------------------------------------------------------------
fn load_lesson(store: &Store, id: u64) -> (r: Option<Lesson>)
    requires
        store.wf(),
    ensures
        match r {
            Some(l) => store.lessons().contains_key(id) && l@ == store.lessons()[id],
            None => !store.lessons().contains_key(id),
        },
{
    match store.lesson_map.get(id) {
        Some(bytes) => match decode_lesson(&bytes) {
            Some(l) => Some(l),
            None => {
                proof {
                    assert(false);
                }
                unreached()
            },
        },
        None => None,
    }
}

fn load_teacher(store: &Store, id: u64) -> (r: Option<Teacher>)
    requires
        store.wf(),
    ensures
        match r {
            Some(t) => store.teachers().contains_key(id) && t@ == store.teachers()[id],
            None => !store.teachers().contains_key(id),
        },
{
    match store.teacher_map.get(id) {
        Some(bytes) => match decode_teacher(&bytes) {
            Some(t) => Some(t),
            None => {
                proof {
                    assert(false);
                }
                unreached()
            },
        },
        None => None,
    }
}

fn load_student(store: &Store, id: u64) -> (r: Option<Student>)
    requires
        store.wf(),
    ensures
        match r {
            Some(s) => store.students().contains_key(id) && s@ == store.students()[id],
            None => !store.students().contains_key(id),
        },
{
    match store.student_map.get(id) {
        Some(bytes) => match decode_student(&bytes) {
            Some(s) => Some(s),
            None => {
                proof {
                    assert(false);
                }
                unreached()
            },
        },
        None => None,
    }
}

fn load_entry(store: &Store, id: u64) -> (r: Option<ScheduleEntry>)
    requires
        store.wf(),
    ensures
        match r {
            Some(e) => store.schedules().contains_key(id) && e@ == store.schedules()[id],
            None => !store.schedules().contains_key(id),
        },
{
    match store.schedule_map.get(id) {
        Some(bytes) => match decode_entry(&bytes) {
            Some(e) => Some(e),
            None => {
                proof {
                    assert(false);
                }
                unreached()
            },
        },
        None => None,
    }
}

/// Rebuilds an id list without any occurrence of `x`.
fn ids_without_exec(v: &Vec<u64>, x: u64) -> (r: Vec<u64>)
    ensures
        r@ == ids_without(v@, x),
{
    let mut out: Vec<u64> = Vec::new();
    let mut i: usize = 0;
    proof {
        assert(v@.skip(0) =~= v@);
        assert(Seq::<u64>::empty() + ids_without(v@, x) =~= ids_without(v@, x));
    }
    while i < v.len()
        invariant
            0 <= i <= v@.len(),
            ids_without(v@, x) == out@ + ids_without(v@.skip(i as int), x),
        decreases v@.len() - i,
    {
        let y = v[i];
        proof {
            assert(v@.skip(i as int)[0] == y);
            assert(v@.skip(i as int).skip(1) =~= v@.skip(i + 1));
        }
        if y != x {
            let ghost o0 = out@;
            out.push(y);
            proof {
                assert forall|w: Seq<u64>| o0 + (seq![y] + w) == o0.push(y) + w by {
                    assert(o0 + (seq![y] + w) =~= o0.push(y) + w);
                }
            }
        }
        i = i + 1;
    }
    proof {
        assert(out@ + Seq::<u64>::empty() =~= out@);
    }
    out
}

/// Rebuilds an embedded schedule list without any entry whose id is `x`.
fn entries_without_exec(v: Vec<ScheduleEntry>, x: u64) -> (r: Vec<ScheduleEntry>)
    ensures
        r@.map_values(|e: ScheduleEntry| e@) == entries_without(
            v@.map_values(|e: ScheduleEntry| e@),
            x,
        ),
{
    let ghost orig = v@.map_values(|e: ScheduleEntry| e@);
    let mut v = v;
    let mut out: Vec<ScheduleEntry> = Vec::new();
    while v.len() > 0
        invariant
            entries_without(orig, x) == out@.map_values(|e: ScheduleEntry| e@) + entries_without(
                v@.map_values(|e: ScheduleEntry| e@),
                x,
            ),
        decreases v@.len(),
    {
        let ghost vm = v@.map_values(|e: ScheduleEntry| e@);
        let e = v.remove(0);
        proof {
            assert(vm[0] == e@);
            assert(v@.map_values(|e: ScheduleEntry| e@) =~= vm.skip(1));
        }
        if e.id != x {
            let ghost o0 = out@.map_values(|e: ScheduleEntry| e@);
            let ghost ev = e@;
            out.push(e);
            proof {
                assert(out@.map_values(|e: ScheduleEntry| e@) =~= o0.push(ev));
                assert forall|w: Seq<ScheduleEntryV>| o0 + (seq![ev] + w) == o0.push(ev) + w by {
                    assert(o0 + (seq![ev] + w) =~= o0.push(ev) + w);
                }
            }
        }
    }
    proof {
        assert(v@.map_values(|e: ScheduleEntry| e@) =~= Seq::<ScheduleEntryV>::empty());
        assert(out@.map_values(|e: ScheduleEntry| e@) + Seq::<ScheduleEntryV>::empty()
            =~= out@.map_values(|e: ScheduleEntry| e@));
    }
    out
}

// ---------------------------------------------------------------------------
// Appends
// ---------------------------------------------------------------------------
/// Appends `student_id` to the lesson's student list; duplicates are allowed
/// and `student_id` itself is not checked against the student collection.
pub fn insert_student_to_lesson(store: &mut Store, lesson_id: u64, student_id: u64) -> (r: Result<
    Lesson,
    Error,
>)
    requires
        old(store).wf(),
        old(store).lessons().contains_key(lesson_id) ==> lesson_fits(
            lesson_with_student(old(store).lessons()[lesson_id], student_id),
        ),
    ensures
        final(store).wf(),
        match r {
            Ok(l) => {
                &&& old(store).lessons().contains_key(lesson_id)
                &&& l@ == lesson_with_student(old(store).lessons()[lesson_id], student_id)
                &&& final(store).lessons() == old(store).lessons().insert(lesson_id, l@)
                &&& final(store).lesson_ctr() == old(store).lesson_ctr()
                &&& final(store).same_but_lessons(old(store))
            },
            Err(e) => {
                &&& !old(store).lessons().contains_key(lesson_id)
                &&& e.is_not_found()
                &&& e.msg() == id_msg(" Lesson  with id="@, lesson_id, ". not found"@)
                &&& final(store).same_state(old(store))
            },
        },
{
    let mut lesson = match load_lesson(store, lesson_id) {
        Some(l) => l,
        None => {
            return Err(not_found_id(" Lesson  with id=", lesson_id, ". not found"));
        },
    };
    lesson.students.push(student_id);
    do_insert_lesson(store, &lesson);
    Ok(lesson)
}

/// Looks the schedule entry up and appends a value copy of it to the lesson's
/// schedule list; later edits to the source entry do not propagate.
pub fn insert_schedule_to_lesson(store: &mut Store, lesson_id: u64, schedule_id: u64) -> (r:
    Result<Lesson, Error>)
    requires
        old(store).wf(),
        old(store).lessons().contains_key(lesson_id) && old(store).schedules().contains_key(
            schedule_id,
        ) ==> lesson_fits(
            lesson_with_entry(
                old(store).lessons()[lesson_id],
                old(store).schedules()[schedule_id],
            ),
        ),
    ensures
        final(store).wf(),
        match r {
            Ok(l) => {
                &&& old(store).lessons().contains_key(lesson_id)
                &&& old(store).schedules().contains_key(schedule_id)
                &&& l@ == lesson_with_entry(
                    old(store).lessons()[lesson_id],
                    old(store).schedules()[schedule_id],
                )
                &&& final(store).lessons() == old(store).lessons().insert(lesson_id, l@)
                &&& final(store).lesson_ctr() == old(store).lesson_ctr()
                &&& final(store).same_but_lessons(old(store))
            },
            Err(e) => {
                &&& e.is_not_found()
                &&& final(store).same_state(old(store))
                &&& if !old(store).lessons().contains_key(lesson_id) {
                    e.msg() == id_msg(" Lesson  with id="@, lesson_id, ". not found"@)
                } else {
                    &&& !old(store).schedules().contains_key(schedule_id)
                    &&& e.msg() == "Schedule not found "@
                }
            },
        },
{
    let mut lesson = match load_lesson(store, lesson_id) {
        Some(l) => l,
        None => {
            return Err(not_found_id(" Lesson  with id=", lesson_id, ". not found"));
        },
    };
    let schedule = match load_entry(store, schedule_id) {
        Some(e) => e,
        None => {
            return Err(not_found_text("Schedule not found "));
        },
    };
    let ghost ev = schedule@;
    lesson.schedule.push(schedule);
    proof {
        assert(lesson@.schedule =~= old(store).lessons()[lesson_id].schedule.push(ev));
        assert(lesson@ =~= lesson_with_entry(
            old(store).lessons()[lesson_id],
            old(store).schedules()[schedule_id],
        ));
    }
    do_insert_lesson(store, &lesson);
    Ok(lesson)
}

/// Appends `lesson_id` to the teacher's lesson list; duplicates are allowed
/// and `lesson_id` itself is not checked against the lesson collection.
pub fn insert_lesson_to_teacher(store: &mut Store, teacher_id: u64, lesson_id: u64) -> (r: Result<
    Teacher,
    Error,
>)
    requires
        old(store).wf(),
        old(store).teachers().contains_key(teacher_id) ==> teacher_fits(
            teacher_with_lesson(old(store).teachers()[teacher_id], lesson_id),
        ),
    ensures
        final(store).wf(),
        match r {
            Ok(t) => {
                &&& old(store).teachers().contains_key(teacher_id)
                &&& t@ == teacher_with_lesson(old(store).teachers()[teacher_id], lesson_id)
                &&& final(store).teachers() == old(store).teachers().insert(teacher_id, t@)
                &&& final(store).teacher_ctr() == old(store).teacher_ctr()
                &&& final(store).same_but_teachers(old(store))
            },
            Err(e) => {
                &&& !old(store).teachers().contains_key(teacher_id)
                &&& e.is_not_found()
                &&& e.msg() == id_msg(" Teacher  with id="@, teacher_id, ". not found"@)
                &&& final(store).same_state(old(store))
            },
        },
{
    let mut teacher = match load_teacher(store, teacher_id) {
        Some(t) => t,
        None => {
            return Err(not_found_id(" Teacher  with id=", teacher_id, ". not found"));
        },
    };
    teacher.lessons.push(lesson_id);
    do_insert_teacher(store, &teacher);
    Ok(teacher)
}

/// Looks the schedule entry up and appends a value copy of it to the
/// teacher's availability list.
pub fn insert_schedule_to_teacher(store: &mut Store, teacher_id: u64, schedule_id: u64) -> (r:
    Result<Teacher, Error>)
    requires
        old(store).wf(),
        old(store).teachers().contains_key(teacher_id) && old(store).schedules().contains_key(
            schedule_id,
        ) ==> teacher_fits(
            teacher_with_entry(
                old(store).teachers()[teacher_id],
                old(store).schedules()[schedule_id],
            ),
        ),
    ensures
        final(store).wf(),
        match r {
            Ok(t) => {
                &&& old(store).teachers().contains_key(teacher_id)
                &&& old(store).schedules().contains_key(schedule_id)
                &&& t@ == teacher_with_entry(
                    old(store).teachers()[teacher_id],
                    old(store).schedules()[schedule_id],
                )
                &&& final(store).teachers() == old(store).teachers().insert(teacher_id, t@)
                &&& final(store).teacher_ctr() == old(store).teacher_ctr()
                &&& final(store).same_but_teachers(old(store))
            },
            Err(e) => {
                &&& e.is_not_found()
                &&& final(store).same_state(old(store))
                &&& if !old(store).teachers().contains_key(teacher_id) {
                    e.msg() == id_msg("Teacher  with id="@, teacher_id, ". not found"@)
                } else {
                    &&& !old(store).schedules().contains_key(schedule_id)
                    &&& e.msg() == "Schedule not found "@
                }
            },
        },
{
    let mut teacher = match load_teacher(store, teacher_id) {
        Some(t) => t,
        None => {
            return Err(not_found_id("Teacher  with id=", teacher_id, ". not found"));
        },
    };
    let schedule = match load_entry(store, schedule_id) {
        Some(e) => e,
        None => {
            return Err(not_found_text("Schedule not found "));
        },
    };
    let ghost ev = schedule@;
    teacher.availability.push(schedule);
    proof {
        assert(teacher@.availability =~= old(store).teachers()[teacher_id].availability.push(ev));
        assert(teacher@ =~= teacher_with_entry(
            old(store).teachers()[teacher_id],
            old(store).schedules()[schedule_id],
        ));
    }
    do_insert_teacher(store, &teacher);
    Ok(teacher)
}

/// Appends `lesson_id` to the student's lesson list; duplicates are allowed
/// and `lesson_id` itself is not checked against the lesson collection.
pub fn insert_lesson_to_student(store: &mut Store, student_id: u64, lesson_id: u64) -> (r: Result<
    Student,
    Error,
>)
    requires
        old(store).wf(),
        old(store).students().contains_key(student_id) ==> student_fits(
            student_with_lesson(old(store).students()[student_id], lesson_id),
        ),
    ensures
        final(store).wf(),
        match r {
            Ok(s) => {
                &&& old(store).students().contains_key(student_id)
                &&& s@ == student_with_lesson(old(store).students()[student_id], lesson_id)
                &&& final(store).students() == old(store).students().insert(student_id, s@)
                &&& final(store).student_ctr() == old(store).student_ctr()
                &&& final(store).same_but_students(old(store))
            },
            Err(e) => {
                &&& !old(store).students().contains_key(student_id)
                &&& e.is_not_found()
                &&& e.msg() == id_msg(" Student  with id="@, student_id, ". not found"@)
                &&& final(store).same_state(old(store))
            },
        },
{
    let mut student = match load_student(store, student_id) {
        Some(s) => s,
        None => {
            return Err(not_found_id(" Student  with id=", student_id, ". not found"));
        },
    };
    student.lessons.push(lesson_id);
    do_insert_student(store, &student);
    Ok(student)
}

// ---------------------------------------------------------------------------
// Fan-out reads
// ---------------------------------------------------------------------------
/// The records behind the teacher's lesson list, in list order; dangling ids
/// are skipped silently, and an empty result is a success, unlike `get_all`.
pub fn get_all_lessons_for_teacher(store: &Store, teacher_id: u64) -> (r: Result<
    Vec<Lesson>,
    Error,
>)
    requires
        store.wf(),
    ensures
        match r {
            Ok(v) => {
                &&& store.teachers().contains_key(teacher_id)
                &&& v@.map_values(|l: Lesson| l@) == resolve(
                    store.teachers()[teacher_id].lessons,
                    store.lessons(),
                )
            },
            Err(e) => {
                &&& !store.teachers().contains_key(teacher_id)
                &&& e.is_not_found()
                &&& e.msg() == id_msg("Teacher with id="@, teacher_id, ". not found"@)
            },
        },
{
    let teacher = match load_teacher(store, teacher_id) {
        Some(t) => t,
        None => {
            return Err(not_found_id("Teacher with id=", teacher_id, ". not found"));
        },
    };
    let mut lessons: Vec<Lesson> = Vec::new();
    let mut i: usize = 0;
    proof {
        assert(teacher.lessons@.skip(0) =~= teacher.lessons@);
        assert(lessons@.map_values(|l: Lesson| l@) =~= Seq::<LessonV>::empty());
        assert(Seq::<LessonV>::empty() + resolve(teacher.lessons@, store.lessons()) =~= resolve(
            teacher.lessons@,
            store.lessons(),
        ));
    }
    while i < teacher.lessons.len()
        invariant
            store.wf(),
            0 <= i <= teacher.lessons@.len(),
            resolve(teacher.lessons@, store.lessons()) == lessons@.map_values(|l: Lesson| l@)
                + resolve(teacher.lessons@.skip(i as int), store.lessons()),
        decreases teacher.lessons@.len() - i,
    {
        let lid = teacher.lessons[i];
        proof {
            assert(teacher.lessons@.skip(i as int)[0] == lid);
            assert(teacher.lessons@.skip(i as int).skip(1) =~= teacher.lessons@.skip(i + 1));
        }
        match load_lesson(store, lid) {
            Some(l) => {
                let ghost m0 = lessons@.map_values(|l: Lesson| l@);
                let ghost lv = l@;
                lessons.push(l);
                proof {
                    assert(lessons@.map_values(|l: Lesson| l@) =~= m0.push(lv));
                    assert forall|w: Seq<LessonV>| m0 + (seq![lv] + w) == m0.push(lv) + w by {
                        assert(m0 + (seq![lv] + w) =~= m0.push(lv) + w);
                    }
                }
            },
            None => {},
        }
        i = i + 1;
    }
    proof {
        assert(teacher.lessons@.skip(teacher.lessons@.len() as int)
            =~= Seq::<u64>::empty());
        assert(lessons@.map_values(|l: Lesson| l@) + Seq::<LessonV>::empty()
            =~= lessons@.map_values(|l: Lesson| l@));
    }
    Ok(lessons)
}

/// The records behind the student's lesson list, in list order; dangling ids
/// are skipped silently, and an empty result is a success.
pub fn get_all_lessons_for_student(store: &Store, student_id: u64) -> (r: Result<
    Vec<Lesson>,
    Error,
>)
    requires
        store.wf(),
    ensures
        match r {
            Ok(v) => {
                &&& store.students().contains_key(student_id)
                &&& v@.map_values(|l: Lesson| l@) == resolve(
                    store.students()[student_id].lessons,
                    store.lessons(),
                )
            },
            Err(e) => {
                &&& !store.students().contains_key(student_id)
                &&& e.is_not_found()
                &&& e.msg() == id_msg("Student with id="@, student_id, ". not found"@)
            },
        },
{
    let student = match load_student(store, student_id) {
        Some(s) => s,
        None => {
            return Err(not_found_id("Student with id=", student_id, ". not found"));
        },
    };
    let mut lessons: Vec<Lesson> = Vec::new();
    let mut i: usize = 0;
    proof {
        assert(student.lessons@.skip(0) =~= student.lessons@);
        assert(lessons@.map_values(|l: Lesson| l@) =~= Seq::<LessonV>::empty());
        assert(Seq::<LessonV>::empty() + resolve(student.lessons@, store.lessons()) =~= resolve(
            student.lessons@,
            store.lessons(),
        ));
    }
    while i < student.lessons.len()
        invariant
            store.wf(),
            0 <= i <= student.lessons@.len(),
            resolve(student.lessons@, store.lessons()) == lessons@.map_values(|l: Lesson| l@)
                + resolve(student.lessons@.skip(i as int), store.lessons()),
        decreases student.lessons@.len() - i,
    {
        let lid = student.lessons[i];
        proof {
            assert(student.lessons@.skip(i as int)[0] == lid);
            assert(student.lessons@.skip(i as int).skip(1) =~= student.lessons@.skip(i + 1));
        }
        match load_lesson(store, lid) {
            Some(l) => {
                let ghost m0 = lessons@.map_values(|l: Lesson| l@);
                let ghost lv = l@;
                lessons.push(l);
                proof {
                    assert(lessons@.map_values(|l: Lesson| l@) =~= m0.push(lv));
                    assert forall|w: Seq<LessonV>| m0 + (seq![lv] + w) == m0.push(lv) + w by {
                        assert(m0 + (seq![lv] + w) =~= m0.push(lv) + w);
                    }
                }
            },
            None => {},
        }
        i = i + 1;
    }
    proof {
        assert(student.lessons@.skip(student.lessons@.len() as int)
            =~= Seq::<u64>::empty());
        assert(lessons@.map_values(|l: Lesson| l@) + Seq::<LessonV>::empty()
            =~= lessons@.map_values(|l: Lesson| l@));
    }
    Ok(lessons)
}

/// The records behind the lesson's student list, in list order; dangling ids
/// are skipped silently, and an empty result is a success.
pub fn get_all_students_for_lesson(store: &Store, lesson_id: u64) -> (r: Result<
    Vec<Student>,
    Error,
>)
    requires
        store.wf(),
    ensures
        match r {
            Ok(v) => {
                &&& store.lessons().contains_key(lesson_id)
                &&& v@.map_values(|s: Student| s@) == resolve(
                    store.lessons()[lesson_id].students,
                    store.students(),
                )
            },
            Err(e) => {
                &&& !store.lessons().contains_key(lesson_id)
                &&& e.is_not_found()
                &&& e.msg() == id_msg("Lesson with id="@, lesson_id, ". not found"@)
            },
        },
{
    let lesson = match load_lesson(store, lesson_id) {
        Some(l) => l,
        None => {
            return Err(not_found_id("Lesson with id=", lesson_id, ". not found"));
        },
    };
    let mut students: Vec<Student> = Vec::new();
    let mut i: usize = 0;
    proof {
        assert(lesson.students@.skip(0) =~= lesson.students@);
        assert(students@.map_values(|s: Student| s@) =~= Seq::<StudentV>::empty());
        assert(Seq::<StudentV>::empty() + resolve(lesson.students@, store.students()) =~= resolve(
            lesson.students@,
            store.students(),
        ));
    }
    while i < lesson.students.len()
        invariant
            store.wf(),
            0 <= i <= lesson.students@.len(),
            resolve(lesson.students@, store.students()) == students@.map_values(|s: Student| s@)
                + resolve(lesson.students@.skip(i as int), store.students()),
        decreases lesson.students@.len() - i,
    {
        let sid = lesson.students[i];
        proof {
            assert(lesson.students@.skip(i as int)[0] == sid);
            assert(lesson.students@.skip(i as int).skip(1) =~= lesson.students@.skip(i + 1));
        }
        match load_student(store, sid) {
            Some(s) => {
                let ghost m0 = students@.map_values(|s: Student| s@);
                let ghost sv = s@;
                students.push(s);
                proof {
                    assert(students@.map_values(|s: Student| s@) =~= m0.push(sv));
                    assert forall|w: Seq<StudentV>| m0 + (seq![sv] + w) == m0.push(sv) + w by {
                        assert(m0 + (seq![sv] + w) =~= m0.push(sv) + w);
                    }
                }
            },
            None => {},
        }
        i = i + 1;
    }
    proof {
        assert(lesson.students@.skip(lesson.students@.len() as int)
            =~= Seq::<u64>::empty());
        assert(students@.map_values(|s: Student| s@) + Seq::<StudentV>::empty()
            =~= students@.map_values(|s: Student| s@));
    }
    Ok(students)
}

// ---------------------------------------------------------------------------
// Removals
// ---------------------------------------------------------------------------
/// Drops every occurrence of `lesson_id` from the teacher's lesson list;
/// removing an absent member is a silent no-op.
pub fn delete_lesson_from_teacher(store: &mut Store, teacher_id: u64, lesson_id: u64) -> (r:
    Result<Teacher, Error>)
    requires
        old(store).wf(),
    ensures
        final(store).wf(),
        match r {
            Ok(t) => {
                &&& old(store).teachers().contains_key(teacher_id)
                &&& t@ == teacher_without_lesson(old(store).teachers()[teacher_id], lesson_id)
                &&& final(store).teachers() == old(store).teachers().insert(teacher_id, t@)
                &&& final(store).teacher_ctr() == old(store).teacher_ctr()
                &&& final(store).same_but_teachers(old(store))
            },
            Err(e) => {
                &&& !old(store).teachers().contains_key(teacher_id)
                &&& e.is_not_found()
                &&& e.msg() == id_msg(" Teacher  with id="@, teacher_id, ". not found"@)
                &&& final(store).same_state(old(store))
            },
        },
{
    let mut teacher = match load_teacher(store, teacher_id) {
        Some(t) => t,
        None => {
            return Err(not_found_id(" Teacher  with id=", teacher_id, ". not found"));
        },
    };
    teacher.lessons = ids_without_exec(&teacher.lessons, lesson_id);
    proof {
        lemma_ids_without_len(old(store).teachers()[teacher_id].lessons, lesson_id);
        assert(teacher_fits(teacher@));
    }
    do_insert_teacher(store, &teacher);
    Ok(teacher)
}

/// Drops every occurrence of `lesson_id` from the student's lesson list;
/// removing an absent member is a silent no-op.
pub fn delete_lesson_from_student(store: &mut Store, student_id: u64, lesson_id: u64) -> (r:
    Result<Student, Error>)
    requires
        old(store).wf(),
    ensures
        final(store).wf(),
        match r {
            Ok(s) => {
                &&& old(store).students().contains_key(student_id)
                &&& s@ == student_without_lesson(old(store).students()[student_id], lesson_id)
                &&& final(store).students() == old(store).students().insert(student_id, s@)
                &&& final(store).student_ctr() == old(store).student_ctr()
                &&& final(store).same_but_students(old(store))
            },
            Err(e) => {
                &&& !old(store).students().contains_key(student_id)
                &&& e.is_not_found()
                &&& e.msg() == id_msg(" Student  with id="@, student_id, ". not found"@)
                &&& final(store).same_state(old(store))
            },
        },
{
    let mut student = match load_student(store, student_id) {
        Some(s) => s,
        None => {
            return Err(not_found_id(" Student  with id=", student_id, ". not found"));
        },
    };
    student.lessons = ids_without_exec(&student.lessons, lesson_id);
    proof {
        lemma_ids_without_len(old(store).students()[student_id].lessons, lesson_id);
        assert(student_fits(student@));
    }
    do_insert_student(store, &student);
    Ok(student)
}

/// Drops every occurrence of `student_id` from the lesson's student list;
/// removing an absent member is a silent no-op.
pub fn delete_student_from_lesson(store: &mut Store, lesson_id: u64, student_id: u64) -> (r:
    Result<Lesson, Error>)
    requires
        old(store).wf(),
    ensures
        final(store).wf(),
        match r {
            Ok(l) => {
                &&& old(store).lessons().contains_key(lesson_id)
                &&& l@ == lesson_without_student(old(store).lessons()[lesson_id], student_id)
                &&& final(store).lessons() == old(store).lessons().insert(lesson_id, l@)
                &&& final(store).lesson_ctr() == old(store).lesson_ctr()
                &&& final(store).same_but_lessons(old(store))
            },
            Err(e) => {
                &&& !old(store).lessons().contains_key(lesson_id)
                &&& e.is_not_found()
                &&& e.msg() == id_msg(" Lesson  with id="@, lesson_id, ". not found"@)
                &&& final(store).same_state(old(store))
            },
        },
{
    let mut lesson = match load_lesson(store, lesson_id) {
        Some(l) => l,
        None => {
            return Err(not_found_id(" Lesson  with id=", lesson_id, ". not found"));
        },
    };
    lesson.students = ids_without_exec(&lesson.students, student_id);
    proof {
        lemma_ids_without_len(old(store).lessons()[lesson_id].students, student_id);
        assert(lesson_fits(lesson@));
    }
    do_insert_lesson(store, &lesson);
    Ok(lesson)
}

/// Drops every attached schedule copy whose id is `schedule_id` from the
/// lesson; removing an absent member is a silent no-op.
pub fn delete_schedule_from_lesson(store: &mut Store, lesson_id: u64, schedule_id: u64) -> (r:
    Result<Lesson, Error>)
    requires
        old(store).wf(),
    ensures
        final(store).wf(),
        match r {
            Ok(l) => {
                &&& old(store).lessons().contains_key(lesson_id)
                &&& l@ == lesson_without_entry(old(store).lessons()[lesson_id], schedule_id)
                &&& final(store).lessons() == old(store).lessons().insert(lesson_id, l@)
                &&& final(store).lesson_ctr() == old(store).lesson_ctr()
                &&& final(store).same_but_lessons(old(store))
            },
            Err(e) => {
                &&& !old(store).lessons().contains_key(lesson_id)
                &&& e.is_not_found()
                &&& e.msg() == id_msg(" Lesson  with id="@, lesson_id, ". not found"@)
                &&& final(store).same_state(old(store))
            },
        },
{
    let mut lesson = match load_lesson(store, lesson_id) {
        Some(l) => l,
        None => {
            return Err(not_found_id(" Lesson  with id=", lesson_id, ". not found"));
        },
    };
    let schedule = lesson.schedule;
    lesson.schedule = entries_without_exec(schedule, schedule_id);
    proof {
        lemma_entries_without_cat_len(old(store).lessons()[lesson_id].schedule, schedule_id);
        assert(lesson_fits(lesson@));
    }
    do_insert_lesson(store, &lesson);
    Ok(lesson)
}

/// Drops every attached schedule copy whose id is `schedule_id` from the
/// teacher's availability; removing an absent member is a silent no-op.
pub fn delete_schedule_from_teacher(store: &mut Store, teacher_id: u64, schedule_id: u64) -> (r:
    Result<Teacher, Error>)
    requires
        old(store).wf(),
    ensures
        final(store).wf(),
        match r {
            Ok(t) => {
                &&& old(store).teachers().contains_key(teacher_id)
                &&& t@ == teacher_without_entry(old(store).teachers()[teacher_id], schedule_id)
                &&& final(store).teachers() == old(store).teachers().insert(teacher_id, t@)
                &&& final(store).teacher_ctr() == old(store).teacher_ctr()
                &&& final(store).same_but_teachers(old(store))
            },
            Err(e) => {
                &&& !old(store).teachers().contains_key(teacher_id)
                &&& e.is_not_found()
                &&& e.msg() == id_msg(" Teacher  with id="@, teacher_id, ". not found"@)
                &&& final(store).same_state(old(store))
            },
        },
{
    let mut teacher = match load_teacher(store, teacher_id) {
        Some(t) => t,
        None => {
            return Err(not_found_id(" Teacher  with id=", teacher_id, ". not found"));
        },
    };
    let availability = teacher.availability;
    teacher.availability = entries_without_exec(availability, schedule_id);
    proof {
        lemma_entries_without_cat_len(old(store).teachers()[teacher_id].availability, schedule_id);
        assert(teacher_fits(teacher@));
    }
    do_insert_teacher(store, &teacher);
    Ok(teacher)
}

} // verus!
