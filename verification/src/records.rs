//! The four record kinds, the caller-supplied payloads, and their
//! mathematical views.
//!
//! Relationship lists hold raw identifiers or embedded value copies, never
//! references: a lesson lists its students by id and carries value copies of
//! the schedule entries attached to it, so later edits to a source schedule
//! entry do not propagate into the copies.

use vstd::prelude::*;

use crate::text::{is_blank, spec_is_blank};

verus! {

/// A teaching slot. `day`, `start_time` and `end_time` are free-form strings;
/// no parsing or overlap validation is done on them.
#[derive(Debug, PartialEq)]
pub struct ScheduleEntry {
    pub id: u64,
    pub day: String,
    pub start_time: String,
    pub end_time: String,
}

#[verifier::ext_equal]
pub struct ScheduleEntryV {
    pub id: u64,
    pub day: Seq<char>,
    pub start_time: Seq<char>,
    pub end_time: Seq<char>,
}

impl View for ScheduleEntry {
    type V = ScheduleEntryV;

    open spec fn view(&self) -> ScheduleEntryV {
        ScheduleEntryV {
            id: self.id,
            day: self.day@,
            start_time: self.start_time@,
            end_time: self.end_time@,
        }
    }
}

/// A lesson. `teacher_id` is an unvalidated reference; `students` lists
/// student ids (duplicates allowed, insertion order kept); `schedule` holds
/// embedded copies of schedule entries.
#[derive(Debug, PartialEq)]
pub struct Lesson {
    pub id: u64,
    pub title: String,
    pub description: String,
    pub grade_level: String,
    pub subject: String,
    pub teacher_id: u64,
    pub students: Vec<u64>,
    pub schedule: Vec<ScheduleEntry>,
}

#[verifier::ext_equal]
pub struct LessonV {
    pub id: u64,
    pub title: Seq<char>,
    pub description: Seq<char>,
    pub grade_level: Seq<char>,
    pub subject: Seq<char>,
    pub teacher_id: u64,
    pub students: Seq<u64>,
    pub schedule: Seq<ScheduleEntryV>,
}

impl View for Lesson {
    type V = LessonV;

    open spec fn view(&self) -> LessonV {
        LessonV {
            id: self.id,
            title: self.title@,
            description: self.description@,
            grade_level: self.grade_level@,
            subject: self.subject@,
            teacher_id: self.teacher_id,
            students: self.students@,
            schedule: self.schedule@.map_values(|e: ScheduleEntry| e@),
        }
    }
}

/// A teacher, with the ids of the lessons linked to them and embedded copies
/// of the schedule entries marking their availability.
#[derive(Debug, PartialEq)]
pub struct Teacher {
    pub id: u64,
    pub name: String,
    pub subject: String,
    pub lessons: Vec<u64>,
    pub availability: Vec<ScheduleEntry>,
}

#[verifier::ext_equal]
pub struct TeacherV {
    pub id: u64,
    pub name: Seq<char>,
    pub subject: Seq<char>,
    pub lessons: Seq<u64>,
    pub availability: Seq<ScheduleEntryV>,
}

impl View for Teacher {
    type V = TeacherV;

    open spec fn view(&self) -> TeacherV {
        TeacherV {
            id: self.id,
            name: self.name@,
            subject: self.subject@,
            lessons: self.lessons@,
            availability: self.availability@.map_values(|e: ScheduleEntry| e@),
        }
    }
}

/// A student, with the ids of the lessons they are connected to.
#[derive(Debug, PartialEq)]
pub struct Student {
    pub id: u64,
    pub name: String,
    pub grade_level: String,
    pub lessons: Vec<u64>,
}

#[verifier::ext_equal]
pub struct StudentV {
    pub id: u64,
    pub name: Seq<char>,
    pub grade_level: Seq<char>,
    pub lessons: Seq<u64>,
}

impl View for Student {
    type V = StudentV;

    open spec fn view(&self) -> StudentV {
        StudentV {
            id: self.id,
            name: self.name@,
            grade_level: self.grade_level@,
            lessons: self.lessons@,
        }
    }
}

/// What a caller supplies to create or patch a lesson: no id and no
/// relationship lists, which are repository-assigned or empty at birth.
pub struct LessonPayload {
    pub title: String,
    pub description: String,
    pub grade_level: String,
    pub subject: String,
    pub teacher_id: u64,
}

pub struct TeacherPayload {
    pub name: String,
    pub subject: String,
}

pub struct StudentPayload {
    pub name: String,
    pub grade_level: String,
}

pub struct SchedulePayload {
    pub day: String,
    pub start_time: String,
    pub end_time: String,
}

/// A lesson payload passes validation when every required string is
/// non-blank; `teacher_id` is not checked.
pub open spec fn lesson_payload_valid(p: &LessonPayload) -> bool {
    &&& !spec_is_blank(p.title@)
    &&& !spec_is_blank(p.subject@)
    &&& !spec_is_blank(p.description@)
    &&& !spec_is_blank(p.grade_level@)
}

pub open spec fn teacher_payload_valid(p: &TeacherPayload) -> bool {
    &&& !spec_is_blank(p.name@)
    &&& !spec_is_blank(p.subject@)
}

pub open spec fn student_payload_valid(p: &StudentPayload) -> bool {
    &&& !spec_is_blank(p.name@)
    &&& !spec_is_blank(p.grade_level@)
}

pub open spec fn schedule_payload_valid(p: &SchedulePayload) -> bool {
    &&& !spec_is_blank(p.day@)
    &&& !spec_is_blank(p.start_time@)
    &&& !spec_is_blank(p.end_time@)
}

/// The partial-patch rule of `update`: a blank payload field means "leave the
/// stored field unchanged", a non-blank one overwrites it.
pub open spec fn merge_field(current: Seq<char>, supplied: Seq<char>) -> Seq<char> {
    if spec_is_blank(supplied) {
        current
    } else {
        supplied
    }
}

/// Overwrites `field` with `new_value` unless `new_value` is blank.
pub fn update_if_not_empty(field: &mut String, new_value: String)
    ensures
        final(field)@ == merge_field(old(field)@, new_value@),
{
    if !is_blank(new_value.as_str()) {
        *field = new_value;
    }
}

} // verus!
