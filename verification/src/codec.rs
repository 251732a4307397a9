//! Serialization of records into bounded byte buffers.
//!
//! A record is first flattened into a stream of 64-bit tokens (identifiers
//! and counts as themselves, characters as their Unicode code points behind a
//! length prefix), and the stream is then laid out as little-endian bytes,
//! eight per token. Decoding mirrors the layout token by token and fails on
//! anything that the encoder cannot have produced. The round-trip theorems at
//! the end say that decoding inverts encoding exactly.

use vstd::bytes::{
    lemma_auto_spec_u64_to_from_le_bytes, spec_u64_from_le_bytes, spec_u64_to_le_bytes,
    u64_from_le_bytes, u64_to_le_bytes,
};
use vstd::prelude::*;
use vstd::slice::slice_subrange;
use vstd::utf8::{char_is_scalar, char_u32_cast, is_scalar};

use crate::records::{
    Lesson, LessonV, ScheduleEntry, ScheduleEntryV, Student, StudentV, Teacher, TeacherV,
};
use crate::text::push_char;

verus! {

/// No record may serialize to more than this many bytes.
pub const MAX_RECORD_BYTES: usize = 1024;

// ---------------------------------------------------------------------------
// Token stream <-> bytes
// ---------------------------------------------------------------------------
/// The little-endian byte layout of a token stream, eight bytes per token.
pub open spec fn toks_to_bytes(t: Seq<u64>) -> Seq<u8>
    decreases t.len(),
{
    if t.len() == 0 {
        Seq::empty()
    } else {
        spec_u64_to_le_bytes(t[0]) + toks_to_bytes(t.skip(1))
    }
}

/// The token stream read back from a byte layout whose length is a multiple
/// of eight.
pub open spec fn bytes_to_toks(b: Seq<u8>) -> Seq<u64>
    decreases b.len(),
{
    if b.len() < 8 {
        Seq::empty()
    } else {
        seq![spec_u64_from_le_bytes(b.take(8))] + bytes_to_toks(b.skip(8))
    }
}

pub proof fn lemma_toks_to_bytes_len(t: Seq<u64>)
    ensures
        toks_to_bytes(t).len() == 8 * t.len(),
    decreases t.len(),
{
    lemma_auto_spec_u64_to_from_le_bytes();
    if t.len() > 0 {
        lemma_toks_to_bytes_len(t.skip(1));
    }
}

/// Reading the byte layout of a token stream yields the stream again.
pub proof fn lemma_bytes_toks_roundtrip(t: Seq<u64>)
    ensures
        bytes_to_toks(toks_to_bytes(t)) == t,
    decreases t.len(),
{
    lemma_auto_spec_u64_to_from_le_bytes();
    if t.len() == 0 {
        assert(bytes_to_toks(toks_to_bytes(t)) =~= t);
    } else {
        let b = toks_to_bytes(t);
        lemma_toks_to_bytes_len(t.skip(1));
        assert(b.take(8) =~= spec_u64_to_le_bytes(t[0]));
        assert(b.skip(8) =~= toks_to_bytes(t.skip(1)));
        lemma_bytes_toks_roundtrip(t.skip(1));
        assert(bytes_to_toks(b) =~= t);
    }
}

proof fn lemma_toks_to_bytes_push(t: Seq<u64>, x: u64)
    ensures
        toks_to_bytes(t.push(x)) == toks_to_bytes(t) + spec_u64_to_le_bytes(x),
    decreases t.len(),
{
    if t.len() == 0 {
        assert(t.push(x).skip(1) =~= t);
        assert(toks_to_bytes(t.push(x)) =~= toks_to_bytes(t) + spec_u64_to_le_bytes(x));
    } else {
        assert(t.push(x).skip(1) =~= t.skip(1).push(x));
        lemma_toks_to_bytes_push(t.skip(1), x);
        assert(toks_to_bytes(t.push(x)) =~= toks_to_bytes(t) + spec_u64_to_le_bytes(x));
    }
}

proof fn lemma_bytes_to_toks_snoc(b: Seq<u8>, c: Seq<u8>)
    requires
        b.len() % 8 == 0,
        c.len() == 8,
    ensures
        bytes_to_toks(b + c) == bytes_to_toks(b).push(spec_u64_from_le_bytes(c)),
    decreases b.len(),
{
    if b.len() == 0 {
        assert((b + c).take(8) =~= c);
        assert((b + c).skip(8) =~= Seq::<u8>::empty());
        assert(bytes_to_toks(Seq::<u8>::empty()) =~= Seq::<u64>::empty());
        assert(bytes_to_toks(b + c) == seq![spec_u64_from_le_bytes((b + c).take(8))]
            + bytes_to_toks((b + c).skip(8)));
        assert(bytes_to_toks(b + c) =~= bytes_to_toks(b).push(spec_u64_from_le_bytes(c)));
    } else {
        assert(b.len() >= 8);
        assert((b + c).take(8) =~= b.take(8));
        assert((b + c).skip(8) =~= b.skip(8) + c);
        lemma_bytes_to_toks_snoc(b.skip(8), c);
        assert(bytes_to_toks(b + c) == seq![spec_u64_from_le_bytes((b + c).take(8))]
            + bytes_to_toks((b + c).skip(8)));
        assert(bytes_to_toks((b + c).skip(8)) == bytes_to_toks(b.skip(8)).push(
            spec_u64_from_le_bytes(c),
        ));
        assert(bytes_to_toks(b + c) =~= bytes_to_toks(b).push(spec_u64_from_le_bytes(c)));
    }
}

/// Lays a token stream out as bytes, eight per token, little endian.
pub fn encode_toks(t: &Vec<u64>) -> (r: Vec<u8>)
    ensures
        r@ == toks_to_bytes(t@),
        r@.len() == 8 * t@.len(),
{
    let mut r: Vec<u8> = Vec::new();
    let mut i: usize = 0;
    proof {
        lemma_toks_to_bytes_len(t@);
    }
    while i < t.len()
        invariant
            0 <= i <= t@.len(),
            r@ == toks_to_bytes(t@.take(i as int)),
            r@.len() == 8 * i,
        decreases t@.len() - i,
    {
        let mut bs = u64_to_le_bytes(t[i]);
        proof {
            lemma_toks_to_bytes_push(t@.take(i as int), t@[i as int]);
            assert(t@.take(i + 1) =~= t@.take(i as int).push(t@[i as int]));
        }
        r.append(&mut bs);
        i = i + 1;
    }
    proof {
        assert(t@.take(t@.len() as int) =~= t@);
    }
    r
}

/// Reads a token stream back from bytes; fails exactly when the length is
/// not a multiple of eight.
pub fn decode_toks(b: &Vec<u8>) -> (r: Option<Vec<u64>>)
    ensures
        match r {
            Some(t) => b@.len() % 8 == 0 && t@ == bytes_to_toks(b@) && 8 * t@.len() == b@.len(),
            None => b@.len() % 8 != 0,
        },
{
    if b.len() % 8 != 0 {
        return None;
    }
    let n = b.len() / 8;
    let mut t: Vec<u64> = Vec::new();
    let mut i: usize = 0;
    while i < n
        invariant
            0 <= i <= n,
            8 * n == b@.len(),
            b@.len() <= usize::MAX,
            t@ == bytes_to_toks(b@.take(8 * i)),
            t@.len() == i,
        decreases n - i,
    {
        let x = u64_from_le_bytes(slice_subrange(b.as_slice(), 8 * i, 8 * i + 8));
        proof {
            lemma_bytes_to_toks_snoc(b@.take(8 * i), b@.subrange(8 * i, 8 * i + 8));
            assert(b@.take(8 * (i + 1)) =~= b@.take(8 * i) + b@.subrange(8 * i, 8 * i + 8));
        }
        t.push(x);
        i = i + 1;
    }
    proof {
        assert(b@.take(8 * n) =~= b@);
    }
    Some(t)
}

// ---------------------------------------------------------------------------
// Records -> token streams
// ---------------------------------------------------------------------------
/// The token carrying one character: its Unicode code point.
pub open spec fn char_code(c: char) -> u64 {
    (c as u32) as u64
}

/// Whether a token is the code point of some character.
pub open spec fn is_char_code(x: u64) -> bool {
    x <= 0x10FFFF && is_scalar(x as u32)
}

/// The character a token stands for, meaningful only when `is_char_code`.
pub open spec fn code_char(x: u64) -> char {
    (x as u32) as char
}

/// A string as tokens: its length, then one token per character.
pub open spec fn str_toks(s: Seq<char>) -> Seq<u64> {
    seq![s.len() as u64] + s.map_values(|c: char| char_code(c))
}

/// An identifier list as tokens: its length, then the identifiers.
pub open spec fn ids_toks(v: Seq<u64>) -> Seq<u64> {
    seq![v.len() as u64] + v
}

pub open spec fn entry_toks(e: ScheduleEntryV) -> Seq<u64> {
    seq![e.id] + str_toks(e.day) + str_toks(e.start_time) + str_toks(e.end_time)
}

pub open spec fn entries_cat(es: Seq<ScheduleEntryV>) -> Seq<u64>
    decreases es.len(),
{
    if es.len() == 0 {
        Seq::empty()
    } else {
        entry_toks(es[0]) + entries_cat(es.skip(1))
    }
}

/// An embedded schedule list as tokens: its length, then each entry.
pub open spec fn entries_toks(es: Seq<ScheduleEntryV>) -> Seq<u64> {
    seq![es.len() as u64] + entries_cat(es)
}

pub open spec fn lesson_toks(l: LessonV) -> Seq<u64> {
    seq![l.id, l.teacher_id] + str_toks(l.title) + str_toks(l.description) + str_toks(
        l.grade_level,
    ) + str_toks(l.subject) + ids_toks(l.students) + entries_toks(l.schedule)
}

pub open spec fn teacher_toks(t: TeacherV) -> Seq<u64> {
    seq![t.id] + str_toks(t.name) + str_toks(t.subject) + ids_toks(t.lessons) + entries_toks(
        t.availability,
    )
}

pub open spec fn student_toks(s: StudentV) -> Seq<u64> {
    seq![s.id] + str_toks(s.name) + str_toks(s.grade_level) + ids_toks(s.lessons)
}

/// The serialized form of each record kind.
pub open spec fn lesson_bytes(l: LessonV) -> Seq<u8> {
    toks_to_bytes(lesson_toks(l))
}

pub open spec fn teacher_bytes(t: TeacherV) -> Seq<u8> {
    toks_to_bytes(teacher_toks(t))
}

pub open spec fn student_bytes(s: StudentV) -> Seq<u8> {
    toks_to_bytes(student_toks(s))
}

pub open spec fn entry_bytes(e: ScheduleEntryV) -> Seq<u8> {
    toks_to_bytes(entry_toks(e))
}

/// A record fits the store when its serialized form stays within the bound.
pub open spec fn lesson_fits(l: LessonV) -> bool {
    8 * lesson_toks(l).len() <= MAX_RECORD_BYTES
}

pub open spec fn teacher_fits(t: TeacherV) -> bool {
    8 * teacher_toks(t).len() <= MAX_RECORD_BYTES
}

pub open spec fn student_fits(s: StudentV) -> bool {
    8 * student_toks(s).len() <= MAX_RECORD_BYTES
}

pub open spec fn entry_fits(e: ScheduleEntryV) -> bool {
    8 * entry_toks(e).len() <= MAX_RECORD_BYTES
}

// ---------------------------------------------------------------------------
// Token streams -> records
// ---------------------------------------------------------------------------
/// Reads one token; what is left follows it.
pub open spec fn take_tok(t: Seq<u64>) -> Option<(u64, Seq<u64>)> {
    if t.len() >= 1 {
        Some((t[0], t.skip(1)))
    } else {
        None
    }
}

/// Reads `n` characters, failing on a token that is no code point.
pub open spec fn take_chars(t: Seq<u64>, n: nat) -> Option<(Seq<char>, Seq<u64>)>
    decreases n,
{
    if n == 0 {
        Some((Seq::empty(), t))
    } else if t.len() == 0 || !is_char_code(t[0]) {
        None
    } else {
        match take_chars(t.skip(1), (n - 1) as nat) {
            Some((s, r)) => Some((seq![code_char(t[0])] + s, r)),
            None => None,
        }
    }
}

/// Reads a length-prefixed string.
pub open spec fn take_str(t: Seq<u64>) -> Option<(Seq<char>, Seq<u64>)> {
    match take_tok(t) {
        Some((n, r)) => take_chars(r, n as nat),
        None => None,
    }
}

pub open spec fn take_ids(t: Seq<u64>, n: nat) -> Option<(Seq<u64>, Seq<u64>)>
    decreases n,
{
    if n == 0 {
        Some((Seq::empty(), t))
    } else if t.len() == 0 {
        None
    } else {
        match take_ids(t.skip(1), (n - 1) as nat) {
            Some((v, r)) => Some((seq![t[0]] + v, r)),
            None => None,
        }
    }
}

/// Reads a length-prefixed identifier list.
pub open spec fn take_id_list(t: Seq<u64>) -> Option<(Seq<u64>, Seq<u64>)> {
    match take_tok(t) {
        Some((n, r)) => take_ids(r, n as nat),
        None => None,
    }
}

pub open spec fn take_entry(t: Seq<u64>) -> Option<(ScheduleEntryV, Seq<u64>)> {
    match take_tok(t) {
        Some((id, r)) => match take_str(r) {
            Some((day, r)) => match take_str(r) {
                Some((start_time, r)) => match take_str(r) {
                    Some((end_time, r)) => Some(
                        (ScheduleEntryV { id, day, start_time, end_time }, r),
                    ),
                    None => None,
                },
                None => None,
            },
            None => None,
        },
        None => None,
    }
}

pub open spec fn take_entry_seq(t: Seq<u64>, n: nat) -> Option<(Seq<ScheduleEntryV>, Seq<u64>)>
    decreases n,
{
    if n == 0 {
        Some((Seq::empty(), t))
    } else {
        match take_entry(t) {
            Some((e, r)) => match take_entry_seq(r, (n - 1) as nat) {
                Some((es, r2)) => Some((seq![e] + es, r2)),
                None => None,
            },
            None => None,
        }
    }
}

/// Reads a length-prefixed embedded schedule list.
pub open spec fn take_entry_list(t: Seq<u64>) -> Option<(Seq<ScheduleEntryV>, Seq<u64>)> {
    match take_tok(t) {
        Some((n, r)) => take_entry_seq(r, n as nat),
        None => None,
    }
}

pub open spec fn take_lesson(t: Seq<u64>) -> Option<(LessonV, Seq<u64>)> {
    match take_tok(t) {
        Some((id, r)) => match take_tok(r) {
            Some((teacher_id, r)) => match take_str(r) {
                Some((title, r)) => match take_str(r) {
                    Some((description, r)) => match take_str(r) {
                        Some((grade_level, r)) => match take_str(r) {
                            Some((subject, r)) => match take_id_list(r) {
                                Some((students, r)) => match take_entry_list(r) {
                                    Some((schedule, r)) => Some(
                                        (
                                            LessonV {
                                                id,
                                                title,
                                                description,
                                                grade_level,
                                                subject,
                                                teacher_id,
                                                students,
                                                schedule,
                                            },
                                            r,
                                        ),
                                    ),
                                    None => None,
                                },
                                None => None,
                            },
                            None => None,
                        },
                        None => None,
                    },
                    None => None,
                },
                None => None,
            },
            None => None,
        },
        None => None,
    }
}

pub open spec fn take_teacher(t: Seq<u64>) -> Option<(TeacherV, Seq<u64>)> {
    match take_tok(t) {
        Some((id, r)) => match take_str(r) {
            Some((name, r)) => match take_str(r) {
                Some((subject, r)) => match take_id_list(r) {
                    Some((lessons, r)) => match take_entry_list(r) {
                        Some((availability, r)) => Some(
                            (TeacherV { id, name, subject, lessons, availability }, r),
                        ),
                        None => None,
                    },
                    None => None,
                },
                None => None,
            },
            None => None,
        },
        None => None,
    }
}

pub open spec fn take_student(t: Seq<u64>) -> Option<(StudentV, Seq<u64>)> {
    match take_tok(t) {
        Some((id, r)) => match take_str(r) {
            Some((name, r)) => match take_str(r) {
                Some((grade_level, r)) => match take_id_list(r) {
                    Some((lessons, r)) => Some((StudentV { id, name, grade_level, lessons }, r)),
                    None => None,
                },
                None => None,
            },
            None => None,
        },
        None => None,
    }
}

/// The record a stored byte buffer stands for: its token stream must parse as
/// one record with nothing left over.
pub open spec fn lesson_of_bytes(b: Seq<u8>) -> Option<LessonV> {
    if b.len() % 8 == 0 {
        match take_lesson(bytes_to_toks(b)) {
            Some((l, r)) => if r.len() == 0 {
                Some(l)
            } else {
                None
            },
            None => None,
        }
    } else {
        None
    }
}

pub open spec fn teacher_of_bytes(b: Seq<u8>) -> Option<TeacherV> {
    if b.len() % 8 == 0 {
        match take_teacher(bytes_to_toks(b)) {
            Some((t, r)) => if r.len() == 0 {
                Some(t)
            } else {
                None
            },
            None => None,
        }
    } else {
        None
    }
}

pub open spec fn student_of_bytes(b: Seq<u8>) -> Option<StudentV> {
    if b.len() % 8 == 0 {
        match take_student(bytes_to_toks(b)) {
            Some((s, r)) => if r.len() == 0 {
                Some(s)
            } else {
                None
            },
            None => None,
        }
    } else {
        None
    }
}

pub open spec fn entry_of_bytes(b: Seq<u8>) -> Option<ScheduleEntryV> {
    if b.len() % 8 == 0 {
        match take_entry(bytes_to_toks(b)) {
            Some((e, r)) => if r.len() == 0 {
                Some(e)
            } else {
                None
            },
            None => None,
        }
    } else {
        None
    }
}

// ---------------------------------------------------------------------------
// Round-trip theorems
// ---------------------------------------------------------------------------
/// Every length a record view carries must be faithful to its length-prefix
/// token; any view of an executable record that fits the byte bound is.
pub open spec fn entry_v_wf(e: ScheduleEntryV) -> bool {
    &&& e.day.len() <= u64::MAX
    &&& e.start_time.len() <= u64::MAX
    &&& e.end_time.len() <= u64::MAX
}

pub open spec fn lesson_v_wf(l: LessonV) -> bool {
    &&& l.title.len() <= u64::MAX
    &&& l.description.len() <= u64::MAX
    &&& l.grade_level.len() <= u64::MAX
    &&& l.subject.len() <= u64::MAX
    &&& l.students.len() <= u64::MAX
    &&& l.schedule.len() <= u64::MAX
    &&& forall|i: int| 0 <= i < l.schedule.len() ==> entry_v_wf(#[trigger] l.schedule[i])
}

pub open spec fn teacher_v_wf(t: TeacherV) -> bool {
    &&& t.name.len() <= u64::MAX
    &&& t.subject.len() <= u64::MAX
    &&& t.lessons.len() <= u64::MAX
    &&& t.availability.len() <= u64::MAX
    &&& forall|i: int| 0 <= i < t.availability.len() ==> entry_v_wf(#[trigger] t.availability[i])
}

pub open spec fn student_v_wf(s: StudentV) -> bool {
    &&& s.name.len() <= u64::MAX
    &&& s.grade_level.len() <= u64::MAX
    &&& s.lessons.len() <= u64::MAX
}

proof fn lemma_take_chars_rt(s: Seq<char>, rest: Seq<u64>)
    ensures
        take_chars(s.map_values(|c: char| char_code(c)) + rest, s.len()) == Some((s, rest)),
    decreases s.len(),
{
    let m = s.map_values(|c: char| char_code(c));
    if s.len() == 0 {
        assert(m + rest =~= rest);
        assert(s =~= Seq::<char>::empty());
    } else {
        let t = m + rest;
        assert(t[0] == char_code(s[0]));
        char_is_scalar(s[0]);
        assert(t[0] as u32 == s[0] as u32);
        assert(is_char_code(t[0]));
        char_u32_cast(s[0], s[0] as u32);
        assert(code_char(t[0]) == s[0]);
        assert(t.skip(1) =~= s.skip(1).map_values(|c: char| char_code(c)) + rest);
        lemma_take_chars_rt(s.skip(1), rest);
        assert(seq![s[0]] + s.skip(1) =~= s);
        assert(take_chars(t, s.len()) == Some((s, rest)));
    }
}

proof fn lemma_take_str_rt(s: Seq<char>, rest: Seq<u64>)
    requires
        s.len() <= u64::MAX,
    ensures
        take_str(str_toks(s) + rest) == Some((s, rest)),
{
    let m = s.map_values(|c: char| char_code(c));
    let t = str_toks(s) + rest;
    assert(t[0] == s.len() as u64);
    assert(t.skip(1) =~= m + rest);
    lemma_take_chars_rt(s, rest);
}

proof fn lemma_take_ids_rt(v: Seq<u64>, rest: Seq<u64>)
    ensures
        take_ids(v + rest, v.len()) == Some((v, rest)),
    decreases v.len(),
{
    if v.len() == 0 {
        assert(v + rest =~= rest);
        assert(v =~= Seq::<u64>::empty());
    } else {
        let t = v + rest;
        assert(t.skip(1) =~= v.skip(1) + rest);
        lemma_take_ids_rt(v.skip(1), rest);
        assert(seq![v[0]] + v.skip(1) =~= v);
        assert(take_ids(t, v.len()) == Some((v, rest)));
    }
}

proof fn lemma_take_id_list_rt(v: Seq<u64>, rest: Seq<u64>)
    requires
        v.len() <= u64::MAX,
    ensures
        take_id_list(ids_toks(v) + rest) == Some((v, rest)),
{
    let t = ids_toks(v) + rest;
    assert(t[0] == v.len() as u64);
    assert(t.skip(1) =~= v + rest);
    lemma_take_ids_rt(v, rest);
}

proof fn lemma_take_entry_rt(e: ScheduleEntryV, rest: Seq<u64>)
    requires
        entry_v_wf(e),
    ensures
        take_entry(entry_toks(e) + rest) == Some((e, rest)),
{
    let t = entry_toks(e) + rest;
    let r3 = str_toks(e.end_time) + rest;
    let r2 = str_toks(e.start_time) + r3;
    let r1 = str_toks(e.day) + r2;
    assert(t[0] == e.id);
    assert(t.skip(1) =~= r1);
    lemma_take_str_rt(e.day, r2);
    lemma_take_str_rt(e.start_time, r3);
    lemma_take_str_rt(e.end_time, rest);
}

proof fn lemma_take_entry_seq_rt(es: Seq<ScheduleEntryV>, rest: Seq<u64>)
    requires
        forall|i: int| 0 <= i < es.len() ==> entry_v_wf(#[trigger] es[i]),
    ensures
        take_entry_seq(entries_cat(es) + rest, es.len()) == Some((es, rest)),
    decreases es.len(),
{
    if es.len() == 0 {
        assert(entries_cat(es) + rest =~= rest);
        assert(es =~= Seq::<ScheduleEntryV>::empty());
    } else {
        assert(entries_cat(es) + rest =~= entry_toks(es[0]) + (entries_cat(es.skip(1)) + rest));
        lemma_take_entry_rt(es[0], entries_cat(es.skip(1)) + rest);
        lemma_take_entry_seq_rt(es.skip(1), rest);
        assert(seq![es[0]] + es.skip(1) =~= es);
        assert(take_entry_seq(entries_cat(es) + rest, es.len()) == Some((es, rest)));
    }
}

proof fn lemma_take_entry_list_rt(es: Seq<ScheduleEntryV>, rest: Seq<u64>)
    requires
        es.len() <= u64::MAX,
        forall|i: int| 0 <= i < es.len() ==> entry_v_wf(#[trigger] es[i]),
    ensures
        take_entry_list(entries_toks(es) + rest) == Some((es, rest)),
{
    let t = entries_toks(es) + rest;
    assert(t[0] == es.len() as u64);
    assert(t.skip(1) =~= entries_cat(es) + rest);
    lemma_take_entry_seq_rt(es, rest);
}

pub proof fn lemma_take_lesson_rt(l: LessonV, rest: Seq<u64>)
    requires
        lesson_v_wf(l),
    ensures
        take_lesson(lesson_toks(l) + rest) == Some((l, rest)),
{
    let t = lesson_toks(l) + rest;
    let r6 = entries_toks(l.schedule) + rest;
    let r5 = ids_toks(l.students) + r6;
    let r4 = str_toks(l.subject) + r5;
    let r3 = str_toks(l.grade_level) + r4;
    let r2 = str_toks(l.description) + r3;
    let r1 = str_toks(l.title) + r2;
    assert(t[0] == l.id);
    assert(t.skip(1) =~= seq![l.teacher_id] + r1);
    assert((seq![l.teacher_id] + r1).skip(1) =~= r1);
    lemma_take_str_rt(l.title, r2);
    lemma_take_str_rt(l.description, r3);
    lemma_take_str_rt(l.grade_level, r4);
    lemma_take_str_rt(l.subject, r5);
    lemma_take_id_list_rt(l.students, r6);
    lemma_take_entry_list_rt(l.schedule, rest);
}

pub proof fn lemma_take_teacher_rt(t: TeacherV, rest: Seq<u64>)
    requires
        teacher_v_wf(t),
    ensures
        take_teacher(teacher_toks(t) + rest) == Some((t, rest)),
{
    let s = teacher_toks(t) + rest;
    let r4 = entries_toks(t.availability) + rest;
    let r3 = ids_toks(t.lessons) + r4;
    let r2 = str_toks(t.subject) + r3;
    let r1 = str_toks(t.name) + r2;
    assert(s[0] == t.id);
    assert(s.skip(1) =~= r1);
    lemma_take_str_rt(t.name, r2);
    lemma_take_str_rt(t.subject, r3);
    lemma_take_id_list_rt(t.lessons, r4);
    lemma_take_entry_list_rt(t.availability, rest);
}

pub proof fn lemma_take_student_rt(s: StudentV, rest: Seq<u64>)
    requires
        student_v_wf(s),
    ensures
        take_student(student_toks(s) + rest) == Some((s, rest)),
{
    let t = student_toks(s) + rest;
    let r3 = ids_toks(s.lessons) + rest;
    let r2 = str_toks(s.grade_level) + r3;
    let r1 = str_toks(s.name) + r2;
    assert(t[0] == s.id);
    assert(t.skip(1) =~= r1);
    lemma_take_str_rt(s.name, r2);
    lemma_take_str_rt(s.grade_level, r3);
    lemma_take_id_list_rt(s.lessons, rest);
}

/// Decoding the serialized form of a well-formed lesson gives the lesson back.
pub proof fn lemma_lesson_roundtrip(l: LessonV)
    requires
        lesson_v_wf(l),
    ensures
        lesson_of_bytes(lesson_bytes(l)) == Some(l),
{
    lemma_toks_to_bytes_len(lesson_toks(l));
    lemma_bytes_toks_roundtrip(lesson_toks(l));
    lemma_take_lesson_rt(l, Seq::empty());
    assert(lesson_toks(l) + Seq::<u64>::empty() =~= lesson_toks(l));
}

pub proof fn lemma_teacher_roundtrip(t: TeacherV)
    requires
        teacher_v_wf(t),
    ensures
        teacher_of_bytes(teacher_bytes(t)) == Some(t),
{
    lemma_toks_to_bytes_len(teacher_toks(t));
    lemma_bytes_toks_roundtrip(teacher_toks(t));
    lemma_take_teacher_rt(t, Seq::empty());
    assert(teacher_toks(t) + Seq::<u64>::empty() =~= teacher_toks(t));
}

pub proof fn lemma_student_roundtrip(s: StudentV)
    requires
        student_v_wf(s),
    ensures
        student_of_bytes(student_bytes(s)) == Some(s),
{
    lemma_toks_to_bytes_len(student_toks(s));
    lemma_bytes_toks_roundtrip(student_toks(s));
    lemma_take_student_rt(s, Seq::empty());
    assert(student_toks(s) + Seq::<u64>::empty() =~= student_toks(s));
}

pub proof fn lemma_entry_roundtrip(e: ScheduleEntryV)
    requires
        entry_v_wf(e),
    ensures
        entry_of_bytes(entry_bytes(e)) == Some(e),
{
    lemma_toks_to_bytes_len(entry_toks(e));
    lemma_bytes_toks_roundtrip(entry_toks(e));
    lemma_take_entry_rt(e, Seq::empty());
    assert(entry_toks(e) + Seq::<u64>::empty() =~= entry_toks(e));
}

proof fn lemma_entries_cat_bounds(es: Seq<ScheduleEntryV>)
    ensures
        entries_cat(es).len() >= 4 * es.len(),
        forall|i: int|
            0 <= i < es.len() ==> entry_toks(#[trigger] es[i]).len() <= entries_cat(es).len(),
    decreases es.len(),
{
    if es.len() > 0 {
        lemma_entries_cat_bounds(es.skip(1));
        assert(forall|i: int| 1 <= i < es.len() ==> es.skip(1)[i - 1] == #[trigger] es[i]);
    }
}

/// A lesson that fits the byte bound has faithful length prefixes.
pub proof fn lemma_lesson_fits_wf(l: LessonV)
    requires
        lesson_fits(l),
    ensures
        lesson_v_wf(l),
{
    lemma_entries_cat_bounds(l.schedule);
}

pub proof fn lemma_teacher_fits_wf(t: TeacherV)
    requires
        teacher_fits(t),
    ensures
        teacher_v_wf(t),
{
    lemma_entries_cat_bounds(t.availability);
}

pub proof fn lemma_student_fits_wf(s: StudentV)
    requires
        student_fits(s),
    ensures
        student_v_wf(s),
{
}

pub proof fn lemma_entry_fits_wf(e: ScheduleEntryV)
    requires
        entry_fits(e),
    ensures
        entry_v_wf(e),
{
}

// ---------------------------------------------------------------------------
// Executable encoders
// ---------------------------------------------------------------------------
fn push_str_toks(out: &mut Vec<u64>, s: &String)
    ensures
        final(out)@ == old(out)@ + str_toks(s@),
{
    let st = s.as_str();
    let n = st.unicode_len();
    out.push(n as u64);
    let mut k: usize = 0;
    while k < n
        invariant
            0 <= k <= n,
            st@ == s@,
            n == s@.len(),
            out@ == old(out)@ + seq![n as u64] + s@.take(k as int).map_values(
                |c: char| char_code(c),
            ),
        decreases n - k,
    {
        let c = st.get_char(k);
        out.push((c as u32) as u64);
        proof {
            assert(s@.take(k + 1).map_values(|c: char| char_code(c)) =~= s@.take(
                k as int,
            ).map_values(|c: char| char_code(c)).push(char_code(s@[k as int])));
        }
        k = k + 1;
    }
    proof {
        assert(s@.take(s@.len() as int) =~= s@);
        assert(old(out)@ + seq![n as u64] + s@.map_values(|c: char| char_code(c)) =~= old(out)@
            + str_toks(s@));
    }
}

fn push_ids_toks(out: &mut Vec<u64>, v: &Vec<u64>)
    ensures
        final(out)@ == old(out)@ + ids_toks(v@),
{
    let n = v.len();
    out.push(n as u64);
    let mut k: usize = 0;
    while k < n
        invariant
            0 <= k <= n,
            n == v@.len(),
            out@ == old(out)@ + seq![n as u64] + v@.take(k as int),
        decreases n - k,
    {
        out.push(v[k]);
        proof {
            assert(v@.take(k + 1) =~= v@.take(k as int).push(v@[k as int]));
        }
        k = k + 1;
    }
    proof {
        assert(v@.take(v@.len() as int) =~= v@);
        assert(old(out)@ + seq![n as u64] + v@ =~= old(out)@ + ids_toks(v@));
    }
}

fn push_entry_toks(out: &mut Vec<u64>, e: &ScheduleEntry)
    ensures
        final(out)@ == old(out)@ + entry_toks(e@),
{
    out.push(e.id);
    push_str_toks(out, &e.day);
    push_str_toks(out, &e.start_time);
    push_str_toks(out, &e.end_time);
    proof {
        assert(out@ =~= old(out)@ + entry_toks(e@));
    }
}

proof fn lemma_entries_cat_snoc(es: Seq<ScheduleEntryV>, e: ScheduleEntryV)
    ensures
        entries_cat(es.push(e)) == entries_cat(es) + entry_toks(e),
    decreases es.len(),
{
    if es.len() == 0 {
        assert(es.push(e).skip(1) =~= es);
        assert(entries_cat(es.push(e)) =~= entries_cat(es) + entry_toks(e));
    } else {
        assert(es.push(e).skip(1) =~= es.skip(1).push(e));
        lemma_entries_cat_snoc(es.skip(1), e);
        assert(entries_cat(es.push(e)) =~= entries_cat(es) + entry_toks(e));
    }
}

fn push_entries_toks(out: &mut Vec<u64>, es: &Vec<ScheduleEntry>)
    ensures
        final(out)@ == old(out)@ + entries_toks(es@.map_values(|e: ScheduleEntry| e@)),
{
    let n = es.len();
    out.push(n as u64);
    let mut k: usize = 0;
    while k < n
        invariant
            0 <= k <= n,
            n == es@.len(),
            out@ == old(out)@ + seq![n as u64] + entries_cat(
                es@.take(k as int).map_values(|e: ScheduleEntry| e@),
            ),
        decreases n - k,
    {
        push_entry_toks(out, &es[k]);
        proof {
            lemma_entries_cat_snoc(
                es@.take(k as int).map_values(|e: ScheduleEntry| e@),
                es@[k as int]@,
            );
            assert(es@.take(k + 1).map_values(|e: ScheduleEntry| e@) =~= es@.take(
                k as int,
            ).map_values(|e: ScheduleEntry| e@).push(es@[k as int]@));
        }
        k = k + 1;
    }
    proof {
        assert(es@.take(es@.len() as int) =~= es@);
        let m = es@.map_values(|e: ScheduleEntry| e@);
        assert(m.len() == n);
        assert(old(out)@ + seq![n as u64] + entries_cat(m) =~= old(out)@ + entries_toks(m));
    }
}

/// Serializes a lesson; the caller keeps the result within the byte bound.
pub fn encode_lesson(l: &Lesson) -> (r: Vec<u8>)
    ensures
        r@ == lesson_bytes(l@),
        r@.len() == 8 * lesson_toks(l@).len(),
{
    let mut toks: Vec<u64> = Vec::new();
    toks.push(l.id);
    toks.push(l.teacher_id);
    push_str_toks(&mut toks, &l.title);
    push_str_toks(&mut toks, &l.description);
    push_str_toks(&mut toks, &l.grade_level);
    push_str_toks(&mut toks, &l.subject);
    push_ids_toks(&mut toks, &l.students);
    push_entries_toks(&mut toks, &l.schedule);
    proof {
        assert(toks@ =~= lesson_toks(l@));
    }
    encode_toks(&toks)
}

pub fn encode_teacher(t: &Teacher) -> (r: Vec<u8>)
    ensures
        r@ == teacher_bytes(t@),
        r@.len() == 8 * teacher_toks(t@).len(),
{
    let mut toks: Vec<u64> = Vec::new();
    toks.push(t.id);
    push_str_toks(&mut toks, &t.name);
    push_str_toks(&mut toks, &t.subject);
    push_ids_toks(&mut toks, &t.lessons);
    push_entries_toks(&mut toks, &t.availability);
    proof {
        assert(toks@ =~= teacher_toks(t@));
    }
    encode_toks(&toks)
}

pub fn encode_student(s: &Student) -> (r: Vec<u8>)
    ensures
        r@ == student_bytes(s@),
        r@.len() == 8 * student_toks(s@).len(),
{
    let mut toks: Vec<u64> = Vec::new();
    toks.push(s.id);
    push_str_toks(&mut toks, &s.name);
    push_str_toks(&mut toks, &s.grade_level);
    push_ids_toks(&mut toks, &s.lessons);
    proof {
        assert(toks@ =~= student_toks(s@));
    }
    encode_toks(&toks)
}

pub fn encode_entry(e: &ScheduleEntry) -> (r: Vec<u8>)
    ensures
        r@ == entry_bytes(e@),
        r@.len() == 8 * entry_toks(e@).len(),
{
    let mut toks: Vec<u64> = Vec::new();
    push_entry_toks(&mut toks, e);
    proof {
        assert(toks@ =~= entry_toks(e@));
    }
    encode_toks(&toks)
}

/// Whether the lesson's serialized form stays within the byte bound; callers
/// that cannot prove it test it with this before storing.
pub fn lesson_record_fits(l: &Lesson) -> (r: bool)
    ensures
        r == lesson_fits(l@),
{
    encode_lesson(l).len() <= MAX_RECORD_BYTES
}

pub fn teacher_record_fits(t: &Teacher) -> (r: bool)
    ensures
        r == teacher_fits(t@),
{
    encode_teacher(t).len() <= MAX_RECORD_BYTES
}

pub fn student_record_fits(s: &Student) -> (r: bool)
    ensures
        r == student_fits(s@),
{
    encode_student(s).len() <= MAX_RECORD_BYTES
}

pub fn entry_record_fits(e: &ScheduleEntry) -> (r: bool)
    ensures
        r == entry_fits(e@),
{
    encode_entry(e).len() <= MAX_RECORD_BYTES
}

// ---------------------------------------------------------------------------
// Executable decoders
// ---------------------------------------------------------------------------
/// Relies on `char::from_u32`: yields the character with code point `u`
/// exactly when `u` is a Unicode scalar value, and nothing otherwise.
#[verifier::external_body]
fn char_from_code(u: u32) -> (r: Option<char>)
    ensures
        r is Some <==> is_scalar(u),
        r is Some ==> r.unwrap() as u32 == u,
{
    char::from_u32(u)
}

proof fn lemma_take_chars_short(t: Seq<u64>, n: nat)
    requires
        n > t.len(),
    ensures
        take_chars(t, n) is None,
    decreases n,
{
    if t.len() > 0 && is_char_code(t[0]) {
        lemma_take_chars_short(t.skip(1), (n - 1) as nat);
    }
}

proof fn lemma_take_ids_short(t: Seq<u64>, n: nat)
    requires
        n > t.len(),
    ensures
        take_ids(t, n) is None,
    decreases n,
{
    if t.len() > 0 {
        lemma_take_ids_short(t.skip(1), (n - 1) as nat);
    }
}

fn read_tok(t: &Vec<u64>, pos: usize) -> (r: Option<(u64, usize)>)
    requires
        pos <= t@.len(),
    ensures
        match r {
            Some(v) => pos < t@.len() && v.1 == pos + 1 && take_tok(t@.skip(pos as int)) == Some(
                (v.0, t@.skip(v.1 as int)),
            ),
            None => take_tok(t@.skip(pos as int)) is None,
        },
{
    if pos < t.len() {
        proof {
            assert(t@.skip(pos as int).skip(1) =~= t@.skip(pos as int + 1));
        }
        Some((t[pos], pos + 1))
    } else {
        None
    }
}

fn read_chars(t: &Vec<u64>, pos: usize, n: u64) -> (r: Option<(String, usize)>)
    requires
        pos <= t@.len(),
    ensures
        match r {
            Some(v) => pos <= v.1 <= t@.len() && take_chars(t@.skip(pos as int), n as nat)
                == Some((v.0@, t@.skip(v.1 as int))),
            None => take_chars(t@.skip(pos as int), n as nat) is None,
        },
{
    let remaining = t.len() - pos;
    if n > remaining as u64 {
        proof {
            lemma_take_chars_short(t@.skip(pos as int), n as nat);
        }
        return None;
    }
    let cnt = n as usize;
    let mut s = String::new();
    let mut k: usize = 0;
    while k < cnt
        invariant
            0 <= k <= cnt,
            pos + cnt <= t@.len(),
            t@.len() <= usize::MAX,
            cnt == n as nat,
            take_chars(t@.skip(pos as int), n as nat) == (match take_chars(
                t@.skip(pos + k),
                (n - k) as nat,
            ) {
                Some(w) => Some((s@ + w.0, w.1)),
                None => None::<(Seq<char>, Seq<u64>)>,
            }),
        decreases cnt - k,
    {
        let x = t[pos + k];
        let ghost rest = t@.skip(pos + k);
        proof {
            assert(rest[0] == x);
            assert(rest.skip(1) =~= t@.skip(pos + k + 1));
        }
        if !(x < 0xD800 || (0xE000 <= x && x <= 0x10FFFF)) {
            proof {
                assert(!is_char_code(x));
                assert(take_chars(rest, (n - k) as nat) is None);
            }
            return None;
        }
        let c = match char_from_code(x as u32) {
            Some(c) => c,
            None => {
                proof {
                    assert(is_scalar(x as u32));
                    assert(false);
                }
                return None;
            },
        };
        proof {
            char_u32_cast(c, x as u32);
            assert(code_char(x) == c);
            assert(is_char_code(x));
        }
        let ghost s0 = s@;
        push_char(&mut s, c);
        proof {
            assert forall|w: Seq<char>| s0 + (seq![c] + w) == s0.push(c) + w by {
                assert(s0 + (seq![c] + w) =~= s0.push(c) + w);
            }
        }
        k = k + 1;
    }
    proof {
        assert(s@ + Seq::<char>::empty() =~= s@);
        assert(t@.skip(pos + cnt) =~= t@.skip((pos + cnt) as int));
    }
    Some((s, pos + cnt))
}

fn read_str(t: &Vec<u64>, pos: usize) -> (r: Option<(String, usize)>)
    requires
        pos <= t@.len(),
    ensures
        match r {
            Some(v) => pos <= v.1 <= t@.len() && take_str(t@.skip(pos as int)) == Some(
                (v.0@, t@.skip(v.1 as int)),
            ),
            None => take_str(t@.skip(pos as int)) is None,
        },
{
    match read_tok(t, pos) {
        Some((n, p1)) => read_chars(t, p1, n),
        None => None,
    }
}

fn read_ids(t: &Vec<u64>, pos: usize, n: u64) -> (r: Option<(Vec<u64>, usize)>)
    requires
        pos <= t@.len(),
    ensures
        match r {
            Some(v) => pos <= v.1 <= t@.len() && take_ids(t@.skip(pos as int), n as nat) == Some(
                (v.0@, t@.skip(v.1 as int)),
            ),
            None => take_ids(t@.skip(pos as int), n as nat) is None,
        },
{
    let remaining = t.len() - pos;
    if n > remaining as u64 {
        proof {
            lemma_take_ids_short(t@.skip(pos as int), n as nat);
        }
        return None;
    }
    let cnt = n as usize;
    let mut out: Vec<u64> = Vec::new();
    let mut k: usize = 0;
    while k < cnt
        invariant
            0 <= k <= cnt,
            pos + cnt <= t@.len(),
            t@.len() <= usize::MAX,
            cnt == n as nat,
            take_ids(t@.skip(pos as int), n as nat) == (match take_ids(
                t@.skip(pos + k),
                (n - k) as nat,
            ) {
                Some(w) => Some((out@ + w.0, w.1)),
                None => None::<(Seq<u64>, Seq<u64>)>,
            }),
        decreases cnt - k,
    {
        let x = t[pos + k];
        proof {
            assert(t@.skip(pos + k)[0] == x);
            assert(t@.skip(pos + k).skip(1) =~= t@.skip(pos + k + 1));
        }
        let ghost o0 = out@;
        out.push(x);
        proof {
            assert forall|w: Seq<u64>| o0 + (seq![x] + w) == o0.push(x) + w by {
                assert(o0 + (seq![x] + w) =~= o0.push(x) + w);
            }
        }
        k = k + 1;
    }
    proof {
        assert(out@ + Seq::<u64>::empty() =~= out@);
        assert(t@.skip(pos + cnt) =~= t@.skip((pos + cnt) as int));
    }
    Some((out, pos + cnt))
}

fn read_id_list(t: &Vec<u64>, pos: usize) -> (r: Option<(Vec<u64>, usize)>)
    requires
        pos <= t@.len(),
    ensures
        match r {
            Some(v) => pos <= v.1 <= t@.len() && take_id_list(t@.skip(pos as int)) == Some(
                (v.0@, t@.skip(v.1 as int)),
            ),
            None => take_id_list(t@.skip(pos as int)) is None,
        },
{
    match read_tok(t, pos) {
        Some((n, p1)) => read_ids(t, p1, n),
        None => None,
    }
}

fn read_entry(t: &Vec<u64>, pos: usize) -> (r: Option<(ScheduleEntry, usize)>)
    requires
        pos <= t@.len(),
    ensures
        match r {
            Some(v) => pos <= v.1 <= t@.len() && take_entry(t@.skip(pos as int)) == Some(
                (v.0@, t@.skip(v.1 as int)),
            ),
            None => take_entry(t@.skip(pos as int)) is None,
        },
{
    let (id, p) = match read_tok(t, pos) {
        Some(v) => v,
        None => {
            return None;
        },
    };
    let (day, p) = match read_str(t, p) {
        Some(v) => v,
        None => {
            return None;
        },
    };
    let (start_time, p) = match read_str(t, p) {
        Some(v) => v,
        None => {
            return None;
        },
    };
    let (end_time, p) = match read_str(t, p) {
        Some(v) => v,
        None => {
            return None;
        },
    };
    Some((ScheduleEntry { id, day, start_time, end_time }, p))
}

fn read_entries(t: &Vec<u64>, pos: usize) -> (r: Option<(Vec<ScheduleEntry>, usize)>)
    requires
        pos <= t@.len(),
    ensures
        match r {
            Some(v) => pos <= v.1 <= t@.len() && take_entry_list(t@.skip(pos as int)) == Some(
                (v.0@.map_values(|e: ScheduleEntry| e@), t@.skip(v.1 as int)),
            ),
            None => take_entry_list(t@.skip(pos as int)) is None,
        },
{
    let (n, p1) = match read_tok(t, pos) {
        Some(v) => v,
        None => {
            return None;
        },
    };
    let mut out: Vec<ScheduleEntry> = Vec::new();
    let mut p = p1;
    let mut k: u64 = 0;
    while k < n
        invariant
            0 <= k <= n,
            p1 <= p <= t@.len(),
            take_entry_list(t@.skip(pos as int)) == (match take_entry_seq(
                t@.skip(p as int),
                (n - k) as nat,
            ) {
                Some(w) => Some((out@.map_values(|e: ScheduleEntry| e@) + w.0, w.1)),
                None => None::<(Seq<ScheduleEntryV>, Seq<u64>)>,
            }),
        decreases n - k,
    {
        let (e, p2) = match read_entry(t, p) {
            Some(v) => v,
            None => {
                return None;
            },
        };
        let ghost m0 = out@.map_values(|e: ScheduleEntry| e@);
        out.push(e);
        proof {
            assert(out@.map_values(|e: ScheduleEntry| e@) =~= m0.push(e@));
            assert forall|w: Seq<ScheduleEntryV>| m0 + (seq![e@] + w) == m0.push(e@) + w by {
                assert(m0 + (seq![e@] + w) =~= m0.push(e@) + w);
            }
        }
        p = p2;
        k = k + 1;
    }
    proof {
        assert(out@.map_values(|e: ScheduleEntry| e@) + Seq::<ScheduleEntryV>::empty()
            =~= out@.map_values(|e: ScheduleEntry| e@));
    }
    Some((out, p))
}

/// Deserializes a lesson, failing on any buffer the encoder cannot produce.
pub fn decode_lesson(b: &Vec<u8>) -> (r: Option<Lesson>)
    ensures
        match r {
            Some(l) => lesson_of_bytes(b@) == Some(l@),
            None => lesson_of_bytes(b@) is None,
        },
{
    let toks = match decode_toks(b) {
        Some(t) => t,
        None => {
            return None;
        },
    };
    proof {
        assert(toks@.skip(0) =~= toks@);
    }
    let (id, p) = match read_tok(&toks, 0) {
        Some(v) => v,
        None => {
            return None;
        },
    };
    let (teacher_id, p) = match read_tok(&toks, p) {
        Some(v) => v,
        None => {
            return None;
        },
    };
    let (title, p) = match read_str(&toks, p) {
        Some(v) => v,
        None => {
            return None;
        },
    };
    let (description, p) = match read_str(&toks, p) {
        Some(v) => v,
        None => {
            return None;
        },
    };
    let (grade_level, p) = match read_str(&toks, p) {
        Some(v) => v,
        None => {
            return None;
        },
    };
    let (subject, p) = match read_str(&toks, p) {
        Some(v) => v,
        None => {
            return None;
        },
    };
    let (students, p) = match read_id_list(&toks, p) {
        Some(v) => v,
        None => {
            return None;
        },
    };
    let (schedule, p) = match read_entries(&toks, p) {
        Some(v) => v,
        None => {
            return None;
        },
    };
    if p != toks.len() {
        return None;
    }
    Some(Lesson { id, title, description, grade_level, subject, teacher_id, students, schedule })
}

pub fn decode_teacher(b: &Vec<u8>) -> (r: Option<Teacher>)
    ensures
        match r {
            Some(t) => teacher_of_bytes(b@) == Some(t@),
            None => teacher_of_bytes(b@) is None,
        },
{
    let toks = match decode_toks(b) {
        Some(t) => t,
        None => {
            return None;
        },
    };
    proof {
        assert(toks@.skip(0) =~= toks@);
    }
    let (id, p) = match read_tok(&toks, 0) {
        Some(v) => v,
        None => {
            return None;
        },
    };
    let (name, p) = match read_str(&toks, p) {
        Some(v) => v,
        None => {
            return None;
        },
    };
    let (subject, p) = match read_str(&toks, p) {
        Some(v) => v,
        None => {
            return None;
        },
    };
    let (lessons, p) = match read_id_list(&toks, p) {
        Some(v) => v,
        None => {
            return None;
        },
    };
    let (availability, p) = match read_entries(&toks, p) {
        Some(v) => v,
        None => {
            return None;
        },
    };
    if p != toks.len() {
        return None;
    }
    Some(Teacher { id, name, subject, lessons, availability })
}

pub fn decode_student(b: &Vec<u8>) -> (r: Option<Student>)
    ensures
        match r {
            Some(s) => student_of_bytes(b@) == Some(s@),
            None => student_of_bytes(b@) is None,
        },
{
    let toks = match decode_toks(b) {
        Some(t) => t,
        None => {
            return None;
        },
    };
    proof {
        assert(toks@.skip(0) =~= toks@);
    }
    let (id, p) = match read_tok(&toks, 0) {
        Some(v) => v,
        None => {
            return None;
        },
    };
    let (name, p) = match read_str(&toks, p) {
        Some(v) => v,
        None => {
            return None;
        },
    };
    let (grade_level, p) = match read_str(&toks, p) {
        Some(v) => v,
        None => {
            return None;
        },
    };
    let (lessons, p) = match read_id_list(&toks, p) {
        Some(v) => v,
        None => {
            return None;
        },
    };
    if p != toks.len() {
        return None;
    }
    Some(Student { id, name, grade_level, lessons })
}

pub fn decode_entry(b: &Vec<u8>) -> (r: Option<ScheduleEntry>)
    ensures
        match r {
            Some(e) => entry_of_bytes(b@) == Some(e@),
            None => entry_of_bytes(b@) is None,
        },
{
    let toks = match decode_toks(b) {
        Some(t) => t,
        None => {
            return None;
        },
    };
    proof {
        assert(toks@.skip(0) =~= toks@);
    }
    let (e, p) = match read_entry(&toks, 0) {
        Some(v) => v,
        None => {
            return None;
        },
    };
    if p != toks.len() {
        return None;
    }
    Some(e)
}

} // verus!
