use lesson_plan_xpress_backend::errors::Error;
use lesson_plan_xpress_backend::lessons::{
    add_lesson, delete_lesson, get_all_lessons, get_lesson, update_lesson,
};
use lesson_plan_xpress_backend::records::{
    LessonPayload, SchedulePayload, StudentPayload, TeacherPayload,
};
use lesson_plan_xpress_backend::relations::{
    delete_lesson_from_student, delete_lesson_from_teacher, delete_schedule_from_lesson,
    delete_schedule_from_teacher, delete_student_from_lesson, get_all_lessons_for_student,
    get_all_lessons_for_teacher, get_all_students_for_lesson, insert_lesson_to_student,
    insert_lesson_to_teacher, insert_schedule_to_lesson, insert_schedule_to_teacher,
    insert_student_to_lesson,
};
use lesson_plan_xpress_backend::schedule::{
    add_schedule_entry, delete_schedule_entry, get_all_schedule_entries, get_schedule_entry,
    update_schedule_entry,
};
use lesson_plan_xpress_backend::store::Store;
use lesson_plan_xpress_backend::students::{
    add_student, delete_student, get_all_students, get_student, update_student,
};
use lesson_plan_xpress_backend::teachers::{
    add_teacher, delete_teacher, get_all_teachers, get_teacher, update_teacher,
};

fn lesson_payload(title: &str, description: &str, grade: &str, subject: &str, teacher_id: u64)
    -> LessonPayload {
    LessonPayload {
        title: title.to_string(),
        description: description.to_string(),
        grade_level: grade.to_string(),
        subject: subject.to_string(),
        teacher_id,
    }
}

fn teacher_payload(name: &str, subject: &str) -> TeacherPayload {
    TeacherPayload { name: name.to_string(), subject: subject.to_string() }
}

fn student_payload(name: &str, grade: &str) -> StudentPayload {
    StudentPayload { name: name.to_string(), grade_level: grade.to_string() }
}

fn schedule_payload(day: &str, start: &str, end: &str) -> SchedulePayload {
    SchedulePayload {
        day: day.to_string(),
        start_time: start.to_string(),
        end_time: end.to_string(),
    }
}

#[test]
fn lesson_ids_are_monotonic_from_one() {
    let mut store = Store::new();
    let a = add_lesson(&mut store, lesson_payload("a", "d", "9", "Math", 7)).unwrap();
    let b = add_lesson(&mut store, lesson_payload("b", "d", "9", "Math", 7)).unwrap();
    let c = add_lesson(&mut store, lesson_payload("c", "d", "9", "Math", 7)).unwrap();
    assert_eq!(a.id, 1);
    assert_eq!(b.id, 2);
    assert_eq!(c.id, 3);
}

#[test]
fn id_spaces_are_disjoint_per_kind() {
    let mut store = Store::new();
    let t = add_teacher(&mut store, teacher_payload("Ada", "Math")).unwrap();
    let s = add_student(&mut store, student_payload("Bob", "9")).unwrap();
    let l = add_lesson(&mut store, lesson_payload("Algebra", "d", "9", "Math", t.id)).unwrap();
    let e = add_schedule_entry(&mut store, schedule_payload("Mon", "09:00", "10:00")).unwrap();
    assert_eq!(t.id, 1);
    assert_eq!(s.id, 1);
    assert_eq!(l.id, 1);
    assert_eq!(e.id, 1);
}

#[test]
fn create_then_get_roundtrips() {
    let mut store = Store::new();
    let created = add_lesson(&mut store, lesson_payload("Algebra", "intro", "9", "Math", 3))
        .unwrap();
    let fetched = get_lesson(&store, created.id).unwrap();
    assert_eq!(fetched, created);
    assert_eq!(fetched.title, "Algebra");
    assert_eq!(fetched.teacher_id, 3);
    assert!(fetched.students.is_empty());
    assert!(fetched.schedule.is_empty());
}

#[test]
fn create_then_get_roundtrips_beyond_ascii() {
    let mut store = Store::new();
    let created = add_lesson(
        &mut store,
        lesson_payload("caf\u{e9} \u{2615}", "\u{3042}", "9\u{00b2}", "Math", 0),
    )
    .unwrap();
    let fetched = get_lesson(&store, created.id).unwrap();
    assert_eq!(fetched.title, "caf\u{e9} \u{2615}");
    assert_eq!(fetched, created);
}

#[test]
fn update_merges_each_field_independently() {
    let mut store = Store::new();
    let l = add_lesson(&mut store, lesson_payload("t0", "d0", "g0", "s0", 1)).unwrap();

    let u1 = update_lesson(&mut store, l.id, lesson_payload("t1", "", "", "", 2)).unwrap();
    assert_eq!(u1.title, "t1");
    assert_eq!(u1.description, "d0");
    assert_eq!(u1.grade_level, "g0");
    assert_eq!(u1.subject, "s0");
    assert_eq!(u1.teacher_id, 2);

    let u2 = update_lesson(&mut store, l.id, lesson_payload("", "d2", "", "", 2)).unwrap();
    assert_eq!(u2.title, "t1");
    assert_eq!(u2.description, "d2");

    let u3 = update_lesson(&mut store, l.id, lesson_payload("", "", "g3", "", 2)).unwrap();
    assert_eq!(u3.grade_level, "g3");

    let u4 = update_lesson(&mut store, l.id, lesson_payload("", "", "", "s4", 2)).unwrap();
    assert_eq!(u4.subject, "s4");

    let stored = get_lesson(&store, l.id).unwrap();
    assert_eq!(stored.title, "t1");
    assert_eq!(stored.description, "d2");
    assert_eq!(stored.grade_level, "g3");
    assert_eq!(stored.subject, "s4");
}

#[test]
fn whitespace_only_update_field_leaves_value() {
    let mut store = Store::new();
    let t = add_teacher(&mut store, teacher_payload("Ada", "Math")).unwrap();
    let u = update_teacher(&mut store, t.id, teacher_payload("  \t\n", "Physics")).unwrap();
    assert_eq!(u.name, "Ada");
    assert_eq!(u.subject, "Physics");
}

#[test]
fn update_does_not_touch_relationship_lists() {
    let mut store = Store::new();
    let l = add_lesson(&mut store, lesson_payload("t", "d", "g", "s", 1)).unwrap();
    insert_student_to_lesson(&mut store, l.id, 77).unwrap();
    let u = update_lesson(&mut store, l.id, lesson_payload("t2", "", "", "", 1)).unwrap();
    assert_eq!(u.students, vec![77]);
}

#[test]
fn delete_is_final() {
    let mut store = Store::new();
    let s = add_student(&mut store, student_payload("Bob", "9")).unwrap();
    let deleted = delete_student(&mut store, s.id).unwrap();
    assert_eq!(deleted, s);
    assert!(matches!(get_student(&store, s.id), Err(Error::NotFound { .. })));
    assert!(matches!(delete_student(&mut store, s.id), Err(Error::NotFound { .. })));
}

#[test]
fn append_then_remove_restores_list() {
    let mut store = Store::new();
    let l = add_lesson(&mut store, lesson_payload("t", "d", "g", "s", 1)).unwrap();
    insert_student_to_lesson(&mut store, l.id, 5).unwrap();
    insert_student_to_lesson(&mut store, l.id, 9).unwrap();
    let after = delete_student_from_lesson(&mut store, l.id, 9).unwrap();
    assert_eq!(after.students, vec![5]);
}

#[test]
fn duplicate_appends_kept_and_removal_drops_all() {
    let mut store = Store::new();
    let t = add_teacher(&mut store, teacher_payload("Ada", "Math")).unwrap();
    insert_lesson_to_teacher(&mut store, t.id, 4).unwrap();
    insert_lesson_to_teacher(&mut store, t.id, 4).unwrap();
    insert_lesson_to_teacher(&mut store, t.id, 6).unwrap();
    let loaded = get_teacher(&store, t.id).unwrap();
    assert_eq!(loaded.lessons, vec![4, 4, 6]);
    let after = delete_lesson_from_teacher(&mut store, t.id, 4).unwrap();
    assert_eq!(after.lessons, vec![6]);
}

#[test]
fn removing_absent_member_is_silent_noop() {
    let mut store = Store::new();
    let s = add_student(&mut store, student_payload("Bob", "9")).unwrap();
    insert_lesson_to_student(&mut store, s.id, 3).unwrap();
    let after = delete_lesson_from_student(&mut store, s.id, 99).unwrap();
    assert_eq!(after.lessons, vec![3]);
}

#[test]
fn empty_collection_listing_is_not_found() {
    let store = Store::new();
    assert!(matches!(get_all_lessons(&store), Err(Error::NotFound { .. })));
    assert!(matches!(get_all_teachers(&store), Err(Error::NotFound { .. })));
    assert!(matches!(get_all_students(&store), Err(Error::NotFound { .. })));
    assert!(matches!(get_all_schedule_entries(&store), Err(Error::NotFound { .. })));
}

#[test]
fn one_create_makes_single_element_listing() {
    let mut store = Store::new();
    let l = add_lesson(&mut store, lesson_payload("t", "d", "g", "s", 1)).unwrap();
    let all = get_all_lessons(&store).unwrap();
    assert_eq!(all.len(), 1);
    assert_eq!(all[0], l);
}

#[test]
fn listing_is_ascending_by_id_after_deletes() {
    let mut store = Store::new();
    for name in ["a", "b", "c", "d"] {
        add_teacher(&mut store, teacher_payload(name, "Math")).unwrap();
    }
    delete_teacher(&mut store, 2).unwrap();
    let all = get_all_teachers(&store).unwrap();
    let ids: Vec<u64> = all.iter().map(|t| t.id).collect();
    assert_eq!(ids, vec![1, 3, 4]);
}

#[test]
fn dangling_fanout_returns_empty_list() {
    let mut store = Store::new();
    let t = add_teacher(&mut store, teacher_payload("Ada", "Math")).unwrap();
    let l = add_lesson(&mut store, lesson_payload("Algebra", "d", "9", "Math", t.id)).unwrap();
    insert_lesson_to_teacher(&mut store, t.id, l.id).unwrap();
    delete_lesson(&mut store, l.id).unwrap();
    let lessons = get_all_lessons_for_teacher(&store, t.id).unwrap();
    assert!(lessons.is_empty());
}

#[test]
fn fanout_skips_only_dangling_ids() {
    let mut store = Store::new();
    let s = add_student(&mut store, student_payload("Bob", "9")).unwrap();
    let l1 = add_lesson(&mut store, lesson_payload("a", "d", "9", "Math", 1)).unwrap();
    let l2 = add_lesson(&mut store, lesson_payload("b", "d", "9", "Math", 1)).unwrap();
    insert_lesson_to_student(&mut store, s.id, l1.id).unwrap();
    insert_lesson_to_student(&mut store, s.id, l2.id).unwrap();
    delete_lesson(&mut store, l1.id).unwrap();
    let lessons = get_all_lessons_for_student(&store, s.id).unwrap();
    assert_eq!(lessons.len(), 1);
    assert_eq!(lessons[0].id, l2.id);
}

#[test]
fn students_for_lesson_resolves_in_list_order() {
    let mut store = Store::new();
    let a = add_student(&mut store, student_payload("A", "9")).unwrap();
    let b = add_student(&mut store, student_payload("B", "9")).unwrap();
    let l = add_lesson(&mut store, lesson_payload("t", "d", "g", "s", 1)).unwrap();
    insert_student_to_lesson(&mut store, l.id, b.id).unwrap();
    insert_student_to_lesson(&mut store, l.id, a.id).unwrap();
    let students = get_all_students_for_lesson(&store, l.id).unwrap();
    let ids: Vec<u64> = students.iter().map(|s| s.id).collect();
    assert_eq!(ids, vec![b.id, a.id]);
}

#[test]
fn scenario_teacher_lesson_attachment() {
    let mut store = Store::new();
    let teacher = add_teacher(&mut store, teacher_payload("Ada", "Math")).unwrap();
    assert_eq!(teacher.id, 1);
    let lesson = add_lesson(&mut store, lesson_payload("Algebra", "d", "9", "Math", 1)).unwrap();
    assert_eq!(lesson.id, 1);
    let linked = insert_lesson_to_teacher(&mut store, 1, 1).unwrap();
    assert_eq!(linked.lessons, vec![1]);
    let lessons = get_all_lessons_for_teacher(&store, 1).unwrap();
    assert_eq!(lessons.len(), 1);
    assert_eq!(lessons[0].id, 1);
}

#[test]
fn attached_schedule_is_a_value_copy() {
    let mut store = Store::new();
    let e = add_schedule_entry(&mut store, schedule_payload("Mon", "09:00", "10:00")).unwrap();
    let l = add_lesson(&mut store, lesson_payload("t", "d", "g", "s", 1)).unwrap();
    let attached = insert_schedule_to_lesson(&mut store, l.id, e.id).unwrap();
    assert_eq!(attached.schedule.len(), 1);
    assert_eq!(attached.schedule[0].day, "Mon");

    update_schedule_entry(&mut store, e.id, schedule_payload("Tue", "", "")).unwrap();
    assert_eq!(get_schedule_entry(&store, e.id).unwrap().day, "Tue");
    let reloaded = get_lesson(&store, l.id).unwrap();
    assert_eq!(reloaded.schedule[0].day, "Mon");
}

#[test]
fn schedule_detach_by_id() {
    let mut store = Store::new();
    let e1 = add_schedule_entry(&mut store, schedule_payload("Mon", "09:00", "10:00")).unwrap();
    let e2 = add_schedule_entry(&mut store, schedule_payload("Tue", "09:00", "10:00")).unwrap();
    let t = add_teacher(&mut store, teacher_payload("Ada", "Math")).unwrap();
    insert_schedule_to_teacher(&mut store, t.id, e1.id).unwrap();
    insert_schedule_to_teacher(&mut store, t.id, e2.id).unwrap();
    let after = delete_schedule_from_teacher(&mut store, t.id, e1.id).unwrap();
    assert_eq!(after.availability.len(), 1);
    assert_eq!(after.availability[0].day, "Tue");

    let l = add_lesson(&mut store, lesson_payload("t", "d", "g", "s", 1)).unwrap();
    insert_schedule_to_lesson(&mut store, l.id, e2.id).unwrap();
    let trimmed = delete_schedule_from_lesson(&mut store, l.id, e2.id).unwrap();
    assert!(trimmed.schedule.is_empty());
}

#[test]
fn blank_payload_fields_are_validation_errors() {
    let mut store = Store::new();
    let r = add_lesson(&mut store, lesson_payload("   ", "d", "9", "Math", 1));
    match r {
        Err(Error::ValidationError { msg }) => {
            assert_eq!(msg, "Invalid Lesson data Check for valid data ");
        },
        _ => panic!("expected a validation error"),
    }
    let r = add_teacher(&mut store, teacher_payload("Ada", ""));
    match r {
        Err(Error::ValidationError { msg }) => {
            assert_eq!(msg, "Invalid Teacher data Check for valid data ");
        },
        _ => panic!("expected a validation error"),
    }
    let r = add_student(&mut store, student_payload("\t", "9"));
    assert!(matches!(r, Err(Error::ValidationError { .. })));
    let r = add_schedule_entry(&mut store, schedule_payload("Mon", " ", "10:00"));
    assert!(matches!(r, Err(Error::ValidationError { .. })));
    assert!(matches!(get_all_lessons(&store), Err(Error::NotFound { .. })));
}

#[test]
fn not_found_messages_embed_the_id() {
    let store = Store::new();
    match get_lesson(&store, 42) {
        Err(Error::NotFound { msg }) => assert_eq!(msg, "Lesson with id=42 not found"),
        _ => panic!("expected not found"),
    }
    match get_teacher(&store, 7) {
        Err(Error::NotFound { msg }) => assert_eq!(msg, "Teacher with id=7 not found"),
        _ => panic!("expected not found"),
    }
    match get_student(&store, 0) {
        Err(Error::NotFound { msg }) => assert_eq!(msg, "Student with id=0 not found"),
        _ => panic!("expected not found"),
    }
    match get_schedule_entry(&store, 1000) {
        Err(Error::NotFound { msg }) => {
            assert_eq!(msg, "Schedule Entry with id=1000 not found");
        },
        _ => panic!("expected not found"),
    }
}

#[test]
fn update_and_relationship_errors_name_the_owner() {
    let mut store = Store::new();
    match update_lesson(&mut store, 9, lesson_payload("t", "d", "g", "s", 1)) {
        Err(Error::NotFound { msg }) => {
            assert_eq!(msg, "Update Lesson  with id=9. not found");
        },
        _ => panic!("expected not found"),
    }
    match update_student(&mut store, 2, student_payload("n", "g")) {
        Err(Error::NotFound { msg }) => {
            assert_eq!(msg, "Update Student  with id=2. not found");
        },
        _ => panic!("expected not found"),
    }
    match insert_student_to_lesson(&mut store, 8, 1) {
        Err(Error::NotFound { msg }) => assert_eq!(msg, " Lesson  with id=8. not found"),
        _ => panic!("expected not found"),
    }
    match get_all_lessons_for_teacher(&store, 3) {
        Err(Error::NotFound { msg }) => assert_eq!(msg, "Teacher with id=3. not found"),
        _ => panic!("expected not found"),
    }
}

#[test]
fn missing_schedule_on_attach_is_worded_distinctly() {
    let mut store = Store::new();
    let l = add_lesson(&mut store, lesson_payload("t", "d", "g", "s", 1)).unwrap();
    match insert_schedule_to_lesson(&mut store, l.id, 5) {
        Err(Error::NotFound { msg }) => assert_eq!(msg, "Schedule not found "),
        _ => panic!("expected not found"),
    }
    let t = add_teacher(&mut store, teacher_payload("Ada", "Math")).unwrap();
    match insert_schedule_to_teacher(&mut store, t.id, 5) {
        Err(Error::NotFound { msg }) => assert_eq!(msg, "Schedule not found "),
        _ => panic!("expected not found"),
    }
}

#[test]
fn failed_create_leaves_store_unchanged() {
    let mut store = Store::new();
    add_teacher(&mut store, teacher_payload("Ada", "Math")).unwrap();
    let _ = add_teacher(&mut store, teacher_payload("", "Math"));
    let next = add_teacher(&mut store, teacher_payload("Grace", "CS")).unwrap();
    assert_eq!(next.id, 2);
    assert_eq!(get_all_teachers(&store).unwrap().len(), 2);
}

#[test]
fn deleted_record_is_returned_verbatim() {
    let mut store = Store::new();
    let e = add_schedule_entry(&mut store, schedule_payload("Mon", "09:00", "10:00")).unwrap();
    let gone = delete_schedule_entry(&mut store, e.id).unwrap();
    assert_eq!(gone, e);
    assert!(matches!(
        get_all_schedule_entries(&store),
        Err(Error::NotFound { .. })
    ));
}

#[test]
fn message_accessor_exposes_the_text() {
    let store = Store::new();
    let e = get_lesson(&store, 3).unwrap_err();
    assert_eq!(e.message(), "Lesson with id=3 not found");
}

#[test]
fn long_fields_near_the_byte_bound_roundtrip() {
    let mut store = Store::new();
    let long_title = "t".repeat(100);
    let created = add_lesson(
        &mut store,
        lesson_payload(&long_title, "d", "9", "Math", 1),
    )
    .unwrap();
    let fetched = get_lesson(&store, created.id).unwrap();
    assert_eq!(fetched.title.len(), 100);
    assert_eq!(fetched, created);
}

#[test]
fn schedule_entry_update_merges_each_field() {
    let mut store = Store::new();
    let e = add_schedule_entry(&mut store, schedule_payload("Mon", "09:00", "10:00")).unwrap();
    let u1 = update_schedule_entry(&mut store, e.id, schedule_payload("Tue", "", "")).unwrap();
    assert_eq!(u1.day, "Tue");
    assert_eq!(u1.start_time, "09:00");
    assert_eq!(u1.end_time, "10:00");
    let u2 = update_schedule_entry(&mut store, e.id, schedule_payload("", "11:00", "12:00"))
        .unwrap();
    assert_eq!(u2.day, "Tue");
    assert_eq!(u2.start_time, "11:00");
    assert_eq!(u2.end_time, "12:00");
}

#[test]
fn update_never_changes_the_id() {
    let mut store = Store::new();
    let t = add_teacher(&mut store, teacher_payload("Ada", "Math")).unwrap();
    let u = update_teacher(&mut store, t.id, teacher_payload("Grace", "CS")).unwrap();
    assert_eq!(u.id, t.id);
    assert_eq!(get_teacher(&store, t.id).unwrap().name, "Grace");
}
