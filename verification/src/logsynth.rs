//! Student lab-session logs and the default-log synthesizer.
//!
//! A log written within the trailing five-hour window counts as the
//! current session's log: creating a second one is refused, and the
//! default-log query returns the existing one unchanged (idempotent
//! get-or-create).  When no recent log exists, the synthesizer
//! derives the expected session from the subcourse's room, the
//! governing semester's week arithmetic, the student's stored seat —
//! a hard dependency — and the curriculum entry of the week.

use vstd::prelude::*;
use crate::OpError;
use crate::calendar::{spec_week_number, week_number, MAX_DAY_NUMBER, MAX_INSTANT};
use crate::enroll::{find_subcourse, has_member, GroupStore};
use crate::models::{CourseSchedule, Semester, StudentLog, SubSchedule};

verus! {

/// The get-or-create window: a log finished within the last five
/// hours still belongs to the current session.
pub const RECENT_WINDOW_MINUTES: i64 = 300;

/// Whether a log belongs to this student and subcourse and still
/// falls in the five-hour window before `now`.
pub open spec fn is_recent_log(log: StudentLog, stu: Seq<char>, sc: i64, now: int) -> bool {
    log.stu_id@ == stu && log.subcourse_id == sc && log.fin_time >= now - 300
}

/// The index of the most recent log of this student and subcourse
/// within the window, if any; the earliest such index on ties.
pub open spec fn recent_log_index(s: Seq<StudentLog>, stu: Seq<char>, sc: i64, now: int) -> Option<
    int,
>
    decreases s.len(),
{
    if s.len() == 0 {
        None
    } else {
        let rest = recent_log_index(s.drop_last(), stu, sc, now);
        if is_recent_log(s.last(), stu, sc, now) {
            match rest {
                None => Some(s.len() - 1),
                Some(i) => if s.last().fin_time > s[i].fin_time {
                    Some(s.len() - 1)
                } else {
                    Some(i)
                },
            }
        } else {
            rest
        }
    }
}

/// What the recency lookup returns: a valid index of a recent log
/// whose finish time no other recent log exceeds, or nothing when no
/// log is recent.
pub proof fn lemma_recent_log_index_props(s: Seq<StudentLog>, stu: Seq<char>, sc: i64, now: int)
    ensures
        match recent_log_index(s, stu, sc, now) {
            Some(i) => 0 <= i < s.len() && is_recent_log(s[i], stu, sc, now) && forall|j: int|
                0 <= j < s.len() && is_recent_log(#[trigger] s[j], stu, sc, now) ==> s[j].fin_time
                    <= s[i].fin_time,
            None => forall|j: int| 0 <= j < s.len() ==> !is_recent_log(#[trigger] s[j], stu, sc, now),
        },
    decreases s.len(),
{
    if s.len() > 0 {
        lemma_recent_log_index_props(s.drop_last(), stu, sc, now);
        assert forall|j: int| 0 <= j < s.len() - 1 implies s.drop_last()[j] == s[j] by {}
    }
}

/// The first semester with the given id, if any.
pub open spec fn find_semester(s: Seq<Semester>, id: i64) -> Option<Semester>
    decreases s.len(),
{
    if s.len() == 0 {
        None
    } else if s[0].id == id {
        Some(s[0])
    } else {
        find_semester(s.subrange(1, s.len() as int), id)
    }
}

/// When the first match of `id` stands at index `k`, the lookup
/// returns exactly that entry.
pub proof fn lemma_find_semester_present(s: Seq<Semester>, id: i64, k: int)
    requires
        0 <= k < s.len(),
        s[k].id == id,
        forall|j: int| 0 <= j < k ==> (#[trigger] s[j]).id != id,
    ensures
        find_semester(s, id) == Some(s[k]),
    decreases s.len(),
{
    if s[0].id == id {
        assert(k == 0);
    } else {
        lemma_find_semester_present(s.subrange(1, s.len() as int), id, k - 1);
    }
}

/// When no entry carries `id`, the lookup returns nothing.
pub proof fn lemma_find_semester_absent(s: Seq<Semester>, id: i64)
    requires
        forall|j: int| 0 <= j < s.len() ==> (#[trigger] s[j]).id != id,
    ensures
        find_semester(s, id) is None,
    decreases s.len(),
{
    if s.len() > 0 {
        lemma_find_semester_absent(s.subrange(1, s.len() as int), id);
    }
}

/// An exact copy of a semester record.
pub fn clone_semester(s: &Semester) -> (r: Semester)
    ensures
        r == *s,
{
    Semester { id: s.id, name: s.name.clone(), start: s.start, end: s.end }
}

/// A copy of the semester with the given id.
pub fn get_semester_by_id(semesters: &Vec<Semester>, id: i64) -> (r: Result<Semester, OpError>)
    ensures
        r == match find_semester(semesters@, id) {
            Some(s) => Ok::<Semester, OpError>(s),
            None => Err::<Semester, OpError>(OpError::NotFound),
        },
{
    let n = semesters.len();
    let mut k: usize = 0;
    while k < n
        invariant
            n == semesters@.len(),
            0 <= k <= n,
            forall|j: int| 0 <= j < k ==> (#[trigger] semesters@[j]).id != id,
        decreases n - k,
    {
        if semesters[k].id == id {
            proof {
                lemma_find_semester_present(semesters@, id, k as int);
            }
            return Ok(clone_semester(&semesters[k]));
        }
        k += 1;
    }
    proof {
        lemma_find_semester_absent(semesters@, id);
    }
    Err(OpError::NotFound)
}

/// Whether a semester's date range covers the day.
pub open spec fn semester_covers(s: Semester, today: int) -> bool {
    s.start <= today <= s.end
}

/// The first semester whose range covers the day, if any.  That at
/// most one semester is current is an assumption on the stored data,
/// not enforced here.
pub open spec fn find_current_semester(s: Seq<Semester>, today: int) -> Option<Semester>
    decreases s.len(),
{
    if s.len() == 0 {
        None
    } else if semester_covers(s[0], today) {
        Some(s[0])
    } else {
        find_current_semester(s.subrange(1, s.len() as int), today)
    }
}

/// When the first covering semester stands at index `k`, the lookup
/// returns exactly that entry.
pub proof fn lemma_find_current_semester_present(s: Seq<Semester>, today: int, k: int)
    requires
        0 <= k < s.len(),
        semester_covers(s[k], today),
        forall|j: int| 0 <= j < k ==> !semester_covers(#[trigger] s[j], today),
    ensures
        find_current_semester(s, today) == Some(s[k]),
    decreases s.len(),
{
    if semester_covers(s[0], today) {
        assert(k == 0);
    } else {
        lemma_find_current_semester_present(s.subrange(1, s.len() as int), today, k - 1);
    }
}

/// When no semester covers the day, the lookup returns nothing.
pub proof fn lemma_find_current_semester_absent(s: Seq<Semester>, today: int)
    requires
        forall|j: int| 0 <= j < s.len() ==> !semester_covers(#[trigger] s[j], today),
    ensures
        find_current_semester(s, today) is None,
    decreases s.len(),
{
    if s.len() > 0 {
        lemma_find_current_semester_absent(s.subrange(1, s.len() as int), today);
    }
}

/// The index of the first semester whose range covers the day.
pub fn current_semester_index(semesters: &Vec<Semester>, today: i64) -> (r: Option<usize>)
    ensures
        match r {
            Some(k) => k < semesters@.len() && find_current_semester(semesters@, today as int)
                == Some(semesters@[k as int]) && semester_covers(
                semesters@[k as int],
                today as int,
            ),
            None => find_current_semester(semesters@, today as int) is None,
        },
{
    let n = semesters.len();
    let mut k: usize = 0;
    while k < n
        invariant
            n == semesters@.len(),
            0 <= k <= n,
            forall|j: int| 0 <= j < k ==> !semester_covers(#[trigger] semesters@[j], today as int),
        decreases n - k,
    {
        if semesters[k].start <= today && today <= semesters[k].end {
            proof {
                lemma_find_current_semester_present(semesters@, today as int, k as int);
            }
            return Some(k);
        }
        k += 1;
    }
    proof {
        lemma_find_current_semester_absent(semesters@, today as int);
    }
    None
}

/// The first curriculum entry with the given id, if any.
pub open spec fn find_schedule_by_id(s: Seq<CourseSchedule>, id: i64) -> Option<CourseSchedule>
    decreases s.len(),
{
    if s.len() == 0 {
        None
    } else if s[0].id == id {
        Some(s[0])
    } else {
        find_schedule_by_id(s.subrange(1, s.len() as int), id)
    }
}

/// When the first match of `id` stands at index `k`, the lookup
/// returns exactly that entry.
pub proof fn lemma_find_schedule_by_id_present(s: Seq<CourseSchedule>, id: i64, k: int)
    requires
        0 <= k < s.len(),
        s[k].id == id,
        forall|j: int| 0 <= j < k ==> (#[trigger] s[j]).id != id,
    ensures
        find_schedule_by_id(s, id) == Some(s[k]),
    decreases s.len(),
{
    if s[0].id == id {
        assert(k == 0);
    } else {
        lemma_find_schedule_by_id_present(s.subrange(1, s.len() as int), id, k - 1);
    }
}

/// When no entry carries `id`, the lookup returns nothing.
pub proof fn lemma_find_schedule_by_id_absent(s: Seq<CourseSchedule>, id: i64)
    requires
        forall|j: int| 0 <= j < s.len() ==> (#[trigger] s[j]).id != id,
    ensures
        find_schedule_by_id(s, id) is None,
    decreases s.len(),
{
    if s.len() > 0 {
        lemma_find_schedule_by_id_absent(s.subrange(1, s.len() as int), id);
    }
}

/// An exact copy of a curriculum entry.
pub fn clone_schedule(s: &CourseSchedule) -> (r: CourseSchedule)
    ensures
        r == *s,
{
    CourseSchedule {
        id: s.id,
        week: s.week,
        name: s.name.clone(),
        requirement: s.requirement.clone(),
        course_id: s.course_id,
    }
}

/// A copy of the curriculum entry with the given id.
pub fn get_schedule_by_id(schedules: &Vec<CourseSchedule>, id: i64) -> (r: Result<
    CourseSchedule,
    OpError,
>)
    ensures
        r == match find_schedule_by_id(schedules@, id) {
            Some(s) => Ok::<CourseSchedule, OpError>(s),
            None => Err::<CourseSchedule, OpError>(OpError::NotFound),
        },
{
    let n = schedules.len();
    let mut k: usize = 0;
    while k < n
        invariant
            n == schedules@.len(),
            0 <= k <= n,
            forall|j: int| 0 <= j < k ==> (#[trigger] schedules@[j]).id != id,
        decreases n - k,
    {
        if schedules[k].id == id {
            proof {
                lemma_find_schedule_by_id_present(schedules@, id, k as int);
            }
            return Ok(clone_schedule(&schedules[k]));
        }
        k += 1;
    }
    proof {
        lemma_find_schedule_by_id_absent(schedules@, id);
    }
    Err(OpError::NotFound)
}

/// The first curriculum entry of the course for the given week, if
/// any.
pub open spec fn find_schedule(s: Seq<CourseSchedule>, course_id: i64, week: int) -> Option<
    CourseSchedule,
>
    decreases s.len(),
{
    if s.len() == 0 {
        None
    } else if s[0].course_id == course_id && s[0].week == week {
        Some(s[0])
    } else {
        find_schedule(s.subrange(1, s.len() as int), course_id, week)
    }
}

/// When the first match stands at index `k`, the lookup returns
/// exactly that entry.
pub proof fn lemma_find_schedule_present(s: Seq<CourseSchedule>, course_id: i64, week: int, k: int)
    requires
        0 <= k < s.len(),
        s[k].course_id == course_id && s[k].week == week,
        forall|j: int|
            0 <= j < k ==> !((#[trigger] s[j]).course_id == course_id && s[j].week == week),
    ensures
        find_schedule(s, course_id, week) == Some(s[k]),
    decreases s.len(),
{
    if s[0].course_id == course_id && s[0].week == week {
        assert(k == 0);
    } else {
        lemma_find_schedule_present(s.subrange(1, s.len() as int), course_id, week, k - 1);
    }
}

/// When no entry matches, the lookup returns nothing.
pub proof fn lemma_find_schedule_absent(s: Seq<CourseSchedule>, course_id: i64, week: int)
    requires
        forall|j: int|
            0 <= j < s.len() ==> !((#[trigger] s[j]).course_id == course_id && s[j].week == week),
    ensures
        find_schedule(s, course_id, week) is None,
    decreases s.len(),
{
    if s.len() > 0 {
        lemma_find_schedule_absent(s.subrange(1, s.len() as int), course_id, week);
    }
}

/// The index of the first curriculum entry of the course for the
/// given week.
pub fn schedule_index_by_week(schedules: &Vec<CourseSchedule>, course_id: i64, week: i64) -> (r:
    Option<usize>)
    ensures
        match r {
            Some(k) => k < schedules@.len() && find_schedule(schedules@, course_id, week as int)
                == Some(schedules@[k as int]),
            None => find_schedule(schedules@, course_id, week as int) is None,
        },
{
    let n = schedules.len();
    let mut k: usize = 0;
    while k < n
        invariant
            n == schedules@.len(),
            0 <= k <= n,
            forall|j: int|
                0 <= j < k ==> !((#[trigger] schedules@[j]).course_id == course_id
                    && schedules@[j].week == week),
        decreases n - k,
    {
        if schedules[k].course_id == course_id && schedules[k].week == week {
            proof {
                lemma_find_schedule_present(schedules@, course_id, week as int, k as int);
            }
            return Some(k);
        }
        k += 1;
    }
    proof {
        lemma_find_schedule_absent(schedules@, course_id, week as int);
    }
    None
}

/// The steps of one curriculum entry, in stored order.
pub open spec fn subschedules_of(s: Seq<SubSchedule>, schedule_id: i64) -> Seq<SubSchedule>
    decreases s.len(),
{
    if s.len() == 0 {
        Seq::empty()
    } else {
        let rest = subschedules_of(s.drop_last(), schedule_id);
        if s.last().schedule_id == schedule_id {
            rest.push(s.last())
        } else {
            rest
        }
    }
}

/// An exact copy of a curriculum step.
pub fn clone_subschedule(s: &SubSchedule) -> (r: SubSchedule)
    ensures
        r == *s,
{
    SubSchedule { id: s.id, schedule_id: s.schedule_id, step: s.step, title: s.title.clone() }
}

/// Copies of the steps of one curriculum entry, in stored order.
pub fn list_subschedules(subschedules: &Vec<SubSchedule>, schedule_id: i64) -> (r: Vec<SubSchedule>)
    ensures
        r@ == subschedules_of(subschedules@, schedule_id),
{
    let n = subschedules.len();
    let mut out: Vec<SubSchedule> = Vec::new();
    let mut i: usize = 0;
    proof {
        assert(subschedules@.subrange(0, 0) =~= Seq::<SubSchedule>::empty());
    }
    while i < n
        invariant
            n == subschedules@.len(),
            0 <= i <= n,
            out@ == subschedules_of(subschedules@.subrange(0, i as int), schedule_id),
        decreases n - i,
    {
        proof {
            assert(subschedules@.subrange(0, i + 1).drop_last() =~= subschedules@.subrange(
                0,
                i as int,
            ));
            assert(subschedules@.subrange(0, i + 1).last() == subschedules@[i as int]);
        }
        if subschedules[i].schedule_id == schedule_id {
            out.push(clone_subschedule(&subschedules[i]));
        }
        i += 1;
    }
    proof {
        assert(subschedules@.subrange(0, n as int) =~= subschedules@);
    }
    out
}

/// The first log with the given id, if any.
pub open spec fn find_log_by_id(s: Seq<StudentLog>, id: i64) -> Option<StudentLog>
    decreases s.len(),
{
    if s.len() == 0 {
        None
    } else if s[0].id == id {
        Some(s[0])
    } else {
        find_log_by_id(s.subrange(1, s.len() as int), id)
    }
}

/// When the first match of `id` stands at index `k`, the lookup
/// returns exactly that entry.
pub proof fn lemma_find_log_by_id_present(s: Seq<StudentLog>, id: i64, k: int)
    requires
        0 <= k < s.len(),
        s[k].id == id,
        forall|j: int| 0 <= j < k ==> (#[trigger] s[j]).id != id,
    ensures
        find_log_by_id(s, id) == Some(s[k]),
    decreases s.len(),
{
    if s[0].id == id {
        assert(k == 0);
    } else {
        lemma_find_log_by_id_present(s.subrange(1, s.len() as int), id, k - 1);
    }
}

/// When no entry carries `id`, the lookup returns nothing.
pub proof fn lemma_find_log_by_id_absent(s: Seq<StudentLog>, id: i64)
    requires
        forall|j: int| 0 <= j < s.len() ==> (#[trigger] s[j]).id != id,
    ensures
        find_log_by_id(s, id) is None,
    decreases s.len(),
{
    if s.len() > 0 {
        lemma_find_log_by_id_absent(s.subrange(1, s.len() as int), id);
    }
}

/// An exact copy of a log record.
pub fn clone_student_log(s: &StudentLog) -> (r: StudentLog)
    ensures
        r == *s,
{
    StudentLog {
        id: s.id,
        stu_id: s.stu_id.clone(),
        stu_name: s.stu_name.clone(),
        subcourse_id: s.subcourse_id,
        room_id: s.room_id,
        seat: s.seat,
        lab_name: s.lab_name.clone(),
        note: s.note.clone(),
        tea_note: s.tea_note.clone(),
        tea_name: s.tea_name.clone(),
        fin_time: s.fin_time,
        confirm: s.confirm,
    }
}

/// The recent logs of one subcourse, in stored order.
pub open spec fn recent_logs_of_subcourse(s: Seq<StudentLog>, sc: i64, now: int) -> Seq<StudentLog>
    decreases s.len(),
{
    if s.len() == 0 {
        Seq::empty()
    } else {
        let rest = recent_logs_of_subcourse(s.drop_last(), sc, now);
        if s.last().subcourse_id == sc && s.last().fin_time >= now - 300 {
            rest.push(s.last())
        } else {
            rest
        }
    }
}

/// The logs of one room finished within a closed time range, in
/// stored order.
pub open spec fn logs_of_room_between(s: Seq<StudentLog>, room_id: i64, start: int, end: int) -> Seq<
    StudentLog,
>
    decreases s.len(),
{
    if s.len() == 0 {
        Seq::empty()
    } else {
        let rest = logs_of_room_between(s.drop_last(), room_id, start, end);
        if s.last().room_id == room_id && start <= s.last().fin_time <= end {
            rest.push(s.last())
        } else {
            rest
        }
    }
}

/// The store of student lab-session logs.
pub struct LogBook {
    pub logs: Vec<StudentLog>,
    pub next_id: i64,
}

impl LogBook {
    /// Well-formedness: unique log ids below the id counter.
    pub open spec fn wf(&self) -> bool {
        &&& self.next_id >= 1
        &&& forall|i: int|
            0 <= i < self.logs@.len() ==> 1 <= (#[trigger] self.logs@[i]).id < self.next_id
        &&& forall|i: int, j: int|
            0 <= i < j < self.logs@.len() ==> (#[trigger] self.logs@[i]).id != (
            #[trigger] self.logs@[j]).id
    }

    /// An empty book.
    pub fn new() -> (r: Self)
        ensures
            r.wf(),
            r.logs@.len() == 0,
            r.next_id == 1,
    {
        LogBook { logs: Vec::new(), next_id: 1 }
    }

    /// A copy of the log with the given id.
    pub fn get_student_log_by_id(&self, id: i64) -> (r: Result<StudentLog, OpError>)
        ensures
            r == match find_log_by_id(self.logs@, id) {
                Some(l) => Ok::<StudentLog, OpError>(l),
                None => Err::<StudentLog, OpError>(OpError::NotFound),
            },
    {
        let n = self.logs.len();
        let mut k: usize = 0;
        while k < n
            invariant
                n == self.logs@.len(),
                0 <= k <= n,
                forall|j: int| 0 <= j < k ==> (#[trigger] self.logs@[j]).id != id,
            decreases n - k,
        {
            if self.logs[k].id == id {
                proof {
                    lemma_find_log_by_id_present(self.logs@, id, k as int);
                }
                return Ok(clone_student_log(&self.logs[k]));
            }
            k += 1;
        }
        proof {
            lemma_find_log_by_id_absent(self.logs@, id);
        }
        Err(OpError::NotFound)
    }

    /// The index of the most recent log of this student and subcourse
    /// within the five-hour window before `now`.
    pub fn find_recent_student_log(&self, stu_id: &String, subcourse_id: i64, now: i64) -> (r:
        Option<usize>)
        requires
            -MAX_INSTANT <= now <= MAX_INSTANT,
        ensures
            match r {
                Some(i) => recent_log_index(self.logs@, stu_id@, subcourse_id, now as int) == Some(
                    i as int,
                ) && i < self.logs@.len(),
                None => recent_log_index(self.logs@, stu_id@, subcourse_id, now as int) is None,
            },
    {
        let cutoff = now - RECENT_WINDOW_MINUTES;
        let n = self.logs.len();
        let mut best: Option<usize> = None;
        let mut i: usize = 0;
        proof {
            assert(self.logs@.subrange(0, 0) =~= Seq::<StudentLog>::empty());
        }
        while i < n
            invariant
                -MAX_INSTANT <= now <= MAX_INSTANT,
                cutoff == now - 300,
                n == self.logs@.len(),
                0 <= i <= n,
                match best {
                    Some(b) => b < i && recent_log_index(
                        self.logs@.subrange(0, i as int),
                        stu_id@,
                        subcourse_id,
                        now as int,
                    ) == Some(b as int),
                    None => recent_log_index(
                        self.logs@.subrange(0, i as int),
                        stu_id@,
                        subcourse_id,
                        now as int,
                    ) is None,
                },
            decreases n - i,
        {
            proof {
                assert(self.logs@.subrange(0, i + 1).drop_last() =~= self.logs@.subrange(
                    0,
                    i as int,
                ));
                assert(self.logs@.subrange(0, i + 1).last() == self.logs@[i as int]);
            }
            let log = &self.logs[i];
            if log.subcourse_id == subcourse_id && log.stu_id == *stu_id && log.fin_time >= cutoff {
                match best {
                    None => {
                        best = Some(i);
                    },
                    Some(b) => {
                        if log.fin_time > self.logs[b].fin_time {
                            best = Some(i);
                        }
                    },
                }
            }
            i += 1;
        }
        proof {
            assert(self.logs@.subrange(0, n as int) =~= self.logs@);
        }
        best
    }

    /// Records a log.  A recent log of the same student and subcourse
    /// refuses the insert as `Conflict` carrying its index; otherwise
    /// the record is stored under a fresh id with its finish time set
    /// to `now`.
    pub fn add_student_log(&mut self, log: StudentLog, now: i64) -> (r: Result<i64, OpError>)
        requires
            old(self).wf(),
            -MAX_INSTANT <= now <= MAX_INSTANT,
        ensures
            final(self).wf(),
            r is Err ==> *final(self) == *old(self),
            match r {
                Ok(id) => {
                    &&& recent_log_index(old(self).logs@, log.stu_id@, log.subcourse_id, now as int)
                        is None
                    &&& id == old(self).next_id
                    &&& final(self).logs@ == old(self).logs@.push(
                        StudentLog { id, fin_time: now, ..log },
                    )
                    &&& final(self).next_id == old(self).next_id + 1
                },
                Err(OpError::Conflict(i)) => recent_log_index(
                    old(self).logs@,
                    log.stu_id@,
                    log.subcourse_id,
                    now as int,
                ) == Some(i as int),
                Err(OpError::Invalid) => old(self).next_id == i64::MAX && recent_log_index(
                    old(self).logs@,
                    log.stu_id@,
                    log.subcourse_id,
                    now as int,
                ) is None,
                _ => false,
            },
    {
        if let Some(i) = self.find_recent_student_log(&log.stu_id, log.subcourse_id, now) {
            return Err(OpError::Conflict(i));
        }
        if self.next_id == i64::MAX {
            return Err(OpError::Invalid);
        }
        let id = self.next_id;
        let rec = StudentLog { id, fin_time: now, ..log };
        self.logs.push(rec);
        self.next_id = id + 1;
        Ok(id)
    }

    /// Updates the student-editable fields (seat, note, lab name) of
    /// the log with the given id, stamping the finish time, but only
    /// while the log is not yet confirmed.  Reports whether a log was
    /// updated.
    pub fn update_student_log(&mut self, id: i64, new: &StudentLog, now: i64) -> (r: bool)
        requires
            old(self).wf(),
        ensures
            final(self).wf(),
            final(self).next_id == old(self).next_id,
            !r ==> *final(self) == *old(self) && forall|i: int|
                0 <= i < old(self).logs@.len() ==> !((#[trigger] old(self).logs@[i]).id == id
                    && old(self).logs@[i].confirm == 0),
            r ==> exists|i: int|
                {
                    &&& 0 <= i < old(self).logs@.len()
                    &&& (#[trigger] old(self).logs@[i]).id == id
                    &&& old(self).logs@[i].confirm == 0
                    &&& final(self).logs@ == old(self).logs@.update(
                        i,
                        StudentLog {
                            seat: new.seat,
                            note: new.note,
                            lab_name: new.lab_name,
                            fin_time: now,
                            ..old(self).logs@[i]
                        },
                    )
                },
    {
        let n = self.logs.len();
        let mut i: usize = 0;
        while i < n
            invariant
                *self == *old(self),
                old(self).wf(),
                n == self.logs@.len(),
                0 <= i <= n,
                forall|j: int|
                    0 <= j < i ==> !((#[trigger] self.logs@[j]).id == id && self.logs@[j].confirm
                        == 0),
            decreases n - i,
        {
            if self.logs[i].id == id && self.logs[i].confirm == 0 {
                let rec = StudentLog {
                    id: self.logs[i].id,
                    stu_id: self.logs[i].stu_id.clone(),
                    stu_name: self.logs[i].stu_name.clone(),
                    subcourse_id: self.logs[i].subcourse_id,
                    room_id: self.logs[i].room_id,
                    seat: new.seat,
                    lab_name: new.lab_name.clone(),
                    note: new.note.clone(),
                    tea_note: self.logs[i].tea_note.clone(),
                    tea_name: self.logs[i].tea_name.clone(),
                    fin_time: now,
                    confirm: self.logs[i].confirm,
                };
                proof {
                    assert(rec == StudentLog {
                        seat: new.seat,
                        note: new.note,
                        lab_name: new.lab_name,
                        fin_time: now,
                        ..old(self).logs@[i as int]
                    });
                }
                self.logs.set(i, rec);
                return true;
            }
            i += 1;
        }
        false
    }

    /// Confirms the log with the given id, recording the teacher's
    /// note and name and stamping the finish time.  Reports whether a
    /// log was found.
    pub fn confirm_student_log(&mut self, id: i64, tea_note: &String, tea_name: &String, now: i64) -> (r:
        bool)
        requires
            old(self).wf(),
        ensures
            final(self).wf(),
            final(self).next_id == old(self).next_id,
            !r ==> *final(self) == *old(self) && forall|i: int|
                0 <= i < old(self).logs@.len() ==> (#[trigger] old(self).logs@[i]).id != id,
            r ==> exists|i: int|
                {
                    &&& 0 <= i < old(self).logs@.len()
                    &&& (#[trigger] old(self).logs@[i]).id == id
                    &&& final(self).logs@[i].tea_note@ == tea_note@
                    &&& final(self).logs@[i].tea_name@ == tea_name@
                    &&& final(self).logs@[i].confirm == 1
                    &&& final(self).logs@[i].fin_time == now
                    &&& final(self).logs@[i].id == id
                    &&& final(self).logs@[i].stu_id == old(self).logs@[i].stu_id
                    &&& final(self).logs@[i].stu_name == old(self).logs@[i].stu_name
                    &&& final(self).logs@[i].subcourse_id == old(self).logs@[i].subcourse_id
                    &&& final(self).logs@[i].room_id == old(self).logs@[i].room_id
                    &&& final(self).logs@[i].seat == old(self).logs@[i].seat
                    &&& final(self).logs@[i].lab_name == old(self).logs@[i].lab_name
                    &&& final(self).logs@[i].note == old(self).logs@[i].note
                    &&& final(self).logs@ == old(self).logs@.update(i, final(self).logs@[i])
                },
    {
        let n = self.logs.len();
        let mut i: usize = 0;
        while i < n
            invariant
                *self == *old(self),
                old(self).wf(),
                n == self.logs@.len(),
                0 <= i <= n,
                forall|j: int| 0 <= j < i ==> (#[trigger] self.logs@[j]).id != id,
            decreases n - i,
        {
            if self.logs[i].id == id {
                let rec = StudentLog {
                    id: self.logs[i].id,
                    stu_id: self.logs[i].stu_id.clone(),
                    stu_name: self.logs[i].stu_name.clone(),
                    subcourse_id: self.logs[i].subcourse_id,
                    room_id: self.logs[i].room_id,
                    seat: self.logs[i].seat,
                    lab_name: self.logs[i].lab_name.clone(),
                    note: self.logs[i].note.clone(),
                    tea_note: tea_note.clone(),
                    tea_name: tea_name.clone(),
                    fin_time: now,
                    confirm: 1,
                };
                self.logs.set(i, rec);
                return true;
            }
            i += 1;
        }
        false
    }

    /// Copies of the recent logs of one subcourse — exactly those in
    /// the window, nothing else — sorted by seat in ascending order.
    pub fn list_recent_logs(&self, subcourse_id: i64, now: i64) -> (r: Vec<StudentLog>)
        requires
            -MAX_INSTANT <= now <= MAX_INSTANT,
        ensures
            r@.to_multiset() == recent_logs_of_subcourse(
                self.logs@,
                subcourse_id,
                now as int,
            ).to_multiset(),
            forall|a: int, b: int| 0 <= a < b < r@.len() ==> r@[a].seat <= r@[b].seat,
    {
        let cutoff = now - RECENT_WINDOW_MINUTES;
        let n = self.logs.len();
        let mut out: Vec<StudentLog> = Vec::new();
        let mut i: usize = 0;
        proof {
            assert(self.logs@.subrange(0, 0) =~= Seq::<StudentLog>::empty());
            assert(out@.to_multiset() =~= Seq::<StudentLog>::empty().to_multiset());
        }
        while i < n
            invariant
                cutoff == now - 300,
                n == self.logs@.len(),
                0 <= i <= n,
                out@.to_multiset() == recent_logs_of_subcourse(
                    self.logs@.subrange(0, i as int),
                    subcourse_id,
                    now as int,
                ).to_multiset(),
                forall|a: int, b: int| 0 <= a < b < out@.len() ==> out@[a].seat <= out@[b].seat,
            decreases n - i,
        {
            proof {
                assert(self.logs@.subrange(0, i + 1).drop_last() =~= self.logs@.subrange(
                    0,
                    i as int,
                ));
                assert(self.logs@.subrange(0, i + 1).last() == self.logs@[i as int]);
            }
            if self.logs[i].subcourse_id == subcourse_id && self.logs[i].fin_time >= cutoff {
                let m = clone_student_log(&self.logs[i]);
                let len = out.len();
                let mut p: usize = 0;
                while p < len && out[p].seat <= m.seat
                    invariant
                        len == out@.len(),
                        0 <= p <= len,
                        forall|q: int| 0 <= q < p ==> (#[trigger] out@[q]).seat <= m.seat,
                    decreases len - p,
                {
                    p += 1;
                }
                let ghost pre = out@;
                proof {
                    vstd::seq_lib::to_multiset_insert(pre, p as int, m);
                    vstd::seq_lib::to_multiset_build(
                        recent_logs_of_subcourse(
                            self.logs@.subrange(0, i as int),
                            subcourse_id,
                            now as int,
                        ),
                        self.logs@[i as int],
                    );
                }
                out.insert(p, m);
                proof {
                    assert forall|a: int, b: int|
                        0 <= a < b < out@.len() implies out@[a].seat <= out@[b].seat by {
                        if b < p as int {
                            assert(out@[a] == pre[a] && out@[b] == pre[b]);
                        } else if a < p as int && b == p as int {
                            assert(out@[a] == pre[a] && out@[b] == m);
                        } else if a < p as int && b > p as int {
                            assert(out@[a] == pre[a] && out@[b] == pre[b - 1]);
                        } else if a == p as int && b > p as int {
                            assert(out@[b] == pre[b - 1]);
                            assert(pre[p as int].seat > m.seat);
                        } else {
                            assert(out@[a] == pre[a - 1] && out@[b] == pre[b - 1]);
                        }
                    }
                }
            }
            i += 1;
        }
        proof {
            assert(self.logs@.subrange(0, n as int) =~= self.logs@);
        }
        out
    }

    /// Copies of the logs of one room finished within the closed
    /// range — exactly those, nothing else — sorted by finish time in
    /// descending order (most recent first).
    pub fn find_student_logs_by_room(&self, room_id: i64, start_time: i64, end_time: i64) -> (r:
        Vec<StudentLog>)
        ensures
            r@.to_multiset() == logs_of_room_between(
                self.logs@,
                room_id,
                start_time as int,
                end_time as int,
            ).to_multiset(),
            forall|a: int, b: int| 0 <= a < b < r@.len() ==> r@[a].fin_time >= r@[b].fin_time,
    {
        let n = self.logs.len();
        let mut out: Vec<StudentLog> = Vec::new();
        let mut i: usize = 0;
        proof {
            assert(self.logs@.subrange(0, 0) =~= Seq::<StudentLog>::empty());
            assert(out@.to_multiset() =~= Seq::<StudentLog>::empty().to_multiset());
        }
        while i < n
            invariant
                n == self.logs@.len(),
                0 <= i <= n,
                out@.to_multiset() == logs_of_room_between(
                    self.logs@.subrange(0, i as int),
                    room_id,
                    start_time as int,
                    end_time as int,
                ).to_multiset(),
                forall|a: int, b: int|
                    0 <= a < b < out@.len() ==> out@[a].fin_time >= out@[b].fin_time,
            decreases n - i,
        {
            proof {
                assert(self.logs@.subrange(0, i + 1).drop_last() =~= self.logs@.subrange(
                    0,
                    i as int,
                ));
                assert(self.logs@.subrange(0, i + 1).last() == self.logs@[i as int]);
            }
            if self.logs[i].room_id == room_id && self.logs[i].fin_time >= start_time
                && self.logs[i].fin_time <= end_time {
                let m = clone_student_log(&self.logs[i]);
                let len = out.len();
                let mut p: usize = 0;
                while p < len && out[p].fin_time >= m.fin_time
                    invariant
                        len == out@.len(),
                        0 <= p <= len,
                        forall|q: int| 0 <= q < p ==> (#[trigger] out@[q]).fin_time >= m.fin_time,
                    decreases len - p,
                {
                    p += 1;
                }
                let ghost pre = out@;
                proof {
                    vstd::seq_lib::to_multiset_insert(pre, p as int, m);
                    vstd::seq_lib::to_multiset_build(
                        logs_of_room_between(
                            self.logs@.subrange(0, i as int),
                            room_id,
                            start_time as int,
                            end_time as int,
                        ),
                        self.logs@[i as int],
                    );
                }
                out.insert(p, m);
                proof {
                    assert forall|a: int, b: int|
                        0 <= a < b < out@.len() implies out@[a].fin_time >= out@[b].fin_time by {
                        if b < p as int {
                            assert(out@[a] == pre[a] && out@[b] == pre[b]);
                        } else if a < p as int && b == p as int {
                            assert(out@[a] == pre[a] && out@[b] == m);
                        } else if a < p as int && b > p as int {
                            assert(out@[a] == pre[a] && out@[b] == pre[b - 1]);
                        } else if a == p as int && b > p as int {
                            assert(out@[b] == pre[b - 1]);
                            assert(pre[p as int].fin_time < m.fin_time);
                        } else {
                            assert(out@[a] == pre[a - 1] && out@[b] == pre[b - 1]);
                        }
                    }
                }
            }
            i += 1;
        }
        proof {
            assert(self.logs@.subrange(0, n as int) =~= self.logs@);
        }
        out
    }

    /// The index of the first log of the student whose lab name
    /// matches the curriculum entry's name.
    pub fn get_student_log_by_schedule(&self, stu_id: &String, schedule_name: &String) -> (r:
        Option<usize>)
        ensures
            match r {
                Some(i) => i < self.logs@.len() && self.logs@[i as int].stu_id@ == stu_id@
                    && self.logs@[i as int].lab_name@ == schedule_name@ && forall|j: int|
                    0 <= j < i ==> !((#[trigger] self.logs@[j]).stu_id@ == stu_id@
                        && self.logs@[j].lab_name@ == schedule_name@),
                None => forall|j: int|
                    0 <= j < self.logs@.len() ==> !((#[trigger] self.logs@[j]).stu_id@ == stu_id@
                        && self.logs@[j].lab_name@ == schedule_name@),
            },
    {
        let n = self.logs.len();
        let mut i: usize = 0;
        while i < n
            invariant
                n == self.logs@.len(),
                0 <= i <= n,
                forall|j: int|
                    0 <= j < i ==> !((#[trigger] self.logs@[j]).stu_id@ == stu_id@
                        && self.logs@[j].lab_name@ == schedule_name@),
            decreases n - i,
        {
            if self.logs[i].stu_id == *stu_id && self.logs[i].lab_name == *schedule_name {
                return Some(i);
            }
            i += 1;
        }
        None
    }
}

/// Derives the student's expected lab-session log.
///
/// A recent log (five-hour window) is returned unchanged.  Otherwise
/// the subcourse and its governing semester must exist (`NotFound`),
/// the week arithmetic must stay in machine range (`Invalid`, which
/// also covers a semester start that is no representable day number),
/// and the student must already hold a seat in the group — a hard
/// dependency, `NotFound` otherwise.  The synthesized log carries the
/// subcourse's room, the stored seat, the curriculum entry of the
/// computed week (an empty lab name when the week has none), finish
/// time `now`, and is not persisted by this call.
pub fn get_default_log(
    logbook: &LogBook,
    groups: &GroupStore,
    semesters: &Vec<Semester>,
    schedules: &Vec<CourseSchedule>,
    stu_id: &String,
    subcourse_id: i64,
    today: i64,
    now: i64,
) -> (r: Result<StudentLog, OpError>)
    requires
        groups.wf(),
        -MAX_DAY_NUMBER <= today <= MAX_DAY_NUMBER,
        -MAX_INSTANT <= now <= MAX_INSTANT,
    ensures
        ({
            let recent = recent_log_index(logbook.logs@, stu_id@, subcourse_id, now as int);
            match recent {
                Some(i) => r == Ok::<StudentLog, OpError>(logbook.logs@[i]),
                None => match find_subcourse(groups.subcourses@, subcourse_id) {
                    None => r == Err::<StudentLog, OpError>(OpError::NotFound),
                    Some(sub) => match find_semester(semesters@, sub.year_id) {
                        None => r == Err::<StudentLog, OpError>(OpError::NotFound),
                        Some(sem) => if !(-MAX_DAY_NUMBER <= sem.start <= MAX_DAY_NUMBER) {
                            r == Err::<StudentLog, OpError>(OpError::Invalid)
                        } else if !(i64::MIN <= spec_week_number(
                            today as int,
                            sem.start as int,
                            sub.lag_week as int,
                        ) <= i64::MAX) {
                            r == Err::<StudentLog, OpError>(OpError::Invalid)
                        } else if !has_member(groups.members@, subcourse_id, stu_id@) {
                            r == Err::<StudentLog, OpError>(OpError::NotFound)
                        } else {
                            let week = spec_week_number(
                                today as int,
                                sem.start as int,
                                sub.lag_week as int,
                            );
                            match r {
                                Err(_) => false,
                                Ok(log) => {
                                    &&& log.id == 0
                                    &&& log.stu_id@ == stu_id@
                                    &&& log.stu_name@ == Seq::<char>::empty()
                                    &&& log.subcourse_id == subcourse_id
                                    &&& log.room_id == sub.room_id
                                    &&& exists|i: int|
                                        {
                                            &&& 0 <= i < groups.members@.len()
                                            &&& (#[trigger] groups.members@[i]).subcourse_id
                                                == subcourse_id
                                            &&& groups.members@[i].stu_id@ == stu_id@
                                            &&& log.seat == groups.members@[i].seat
                                        }
                                    &&& match find_schedule(schedules@, sub.course_id, week) {
                                        Some(sch) => log.lab_name@ == sch.name@,
                                        None => log.lab_name@ == Seq::<char>::empty(),
                                    }
                                    &&& log.note@ == Seq::<char>::empty()
                                    &&& log.tea_note@ == Seq::<char>::empty()
                                    &&& log.tea_name@ == Seq::<char>::empty()
                                    &&& log.fin_time == now
                                    &&& log.confirm == 0
                                },
                            }
                        },
                    },
                },
            }
        }),
{
    if let Some(i) = logbook.find_recent_student_log(stu_id, subcourse_id, now) {
        return Ok(clone_student_log(&logbook.logs[i]));
    }
    let sub = match groups.get_subcourse_by_id(subcourse_id) {
        Ok(sub) => sub,
        Err(_) => {
            return Err(OpError::NotFound);
        },
    };
    let n = semesters.len();
    let mut k: usize = 0;
    let mut sem_start: i64 = 0;
    let mut sem_found = false;
    while k < n && !sem_found
        invariant
            n == semesters@.len(),
            0 <= k <= n,
            !sem_found ==> forall|j: int|
                0 <= j < k ==> (#[trigger] semesters@[j]).id != sub.year_id,
            sem_found ==> k < n && find_semester(semesters@, sub.year_id) == Some(
                semesters@[k as int],
            ) && sem_start == semesters@[k as int].start,
        decreases n - k + if sem_found {
            0int
        } else {
            1int
        },
    {
        if semesters[k].id == sub.year_id {
            proof {
                lemma_find_semester_present(semesters@, sub.year_id, k as int);
            }
            sem_start = semesters[k].start;
            sem_found = true;
        } else {
            k += 1;
        }
    }
    if !sem_found {
        proof {
            lemma_find_semester_absent(semesters@, sub.year_id);
        }
        return Err(OpError::NotFound);
    }
    if sem_start < -MAX_DAY_NUMBER || sem_start > MAX_DAY_NUMBER {
        return Err(OpError::Invalid);
    }
    let week = match week_number(today, sem_start, sub.lag_week) {
        Some(w) => w,
        None => {
            return Err(OpError::Invalid);
        },
    };
    let seat = match groups.get_student_seat(stu_id, subcourse_id) {
        Ok(seat) => seat,
        Err(_) => {
            return Err(OpError::NotFound);
        },
    };
    let lab_name = match schedule_index_by_week(schedules, sub.course_id, week) {
        Some(si) => schedules[si].name.clone(),
        None => String::new(),
    };
    Ok(
        StudentLog {
            id: 0,
            stu_id: stu_id.clone(),
            stu_name: String::new(),
            subcourse_id,
            room_id: sub.room_id,
            seat,
            lab_name,
            note: String::new(),
            tea_note: String::new(),
            tea_name: String::new(),
            fin_time: now,
            confirm: 0,
        },
    )
}

/// A teacher forces a student's session log: the expected session is
/// derived as in [`get_default_log`], stamped with the student's
/// recorded name, the teacher's name and a fixed teacher note, marked
/// confirmed, and recorded at once.
///
/// A recent log of the student refuses the call as `Conflict`
/// carrying its index (the session is already logged); the other
/// failures are those of the derivation, and an exhausted log id
/// counter is `Invalid`.
pub fn force_student_log(
    logbook: &mut LogBook,
    groups: &GroupStore,
    semesters: &Vec<Semester>,
    schedules: &Vec<CourseSchedule>,
    stu_id: &String,
    subcourse_id: i64,
    tea_name: &String,
    today: i64,
    now: i64,
) -> (r: Result<i64, OpError>)
    requires
        old(logbook).wf(),
        groups.wf(),
        -MAX_DAY_NUMBER <= today <= MAX_DAY_NUMBER,
        -MAX_INSTANT <= now <= MAX_INSTANT,
    ensures
        final(logbook).wf(),
        r is Err ==> *final(logbook) == *old(logbook),
        ({
            let recent = recent_log_index(old(logbook).logs@, stu_id@, subcourse_id, now as int);
            match r {
                Err(OpError::Conflict(i)) => recent == Some(i as int),
                Err(OpError::NotFound) => recent is None && (find_subcourse(
                    groups.subcourses@,
                    subcourse_id,
                ) is None || (find_subcourse(groups.subcourses@, subcourse_id) matches Some(sub)
                    && (find_semester(semesters@, sub.year_id) is None || !has_member(
                    groups.members@,
                    subcourse_id,
                    stu_id@,
                )))),
                Err(OpError::Invalid) => recent is None && match find_subcourse(
                    groups.subcourses@,
                    subcourse_id,
                ) {
                    None => false,
                    Some(sub) => match find_semester(semesters@, sub.year_id) {
                        None => false,
                        Some(sem) => !(-MAX_DAY_NUMBER <= sem.start <= MAX_DAY_NUMBER) || !(
                        i64::MIN <= spec_week_number(
                            today as int,
                            sem.start as int,
                            sub.lag_week as int,
                        ) <= i64::MAX) || (has_member(groups.members@, subcourse_id, stu_id@)
                            && old(logbook).next_id == i64::MAX),
                    },
                },
                Err(_) => false,
                Ok(id) => {
                    &&& recent is None
                    &&& id == old(logbook).next_id
                    &&& final(logbook).next_id == old(logbook).next_id + 1
                    &&& final(logbook).logs@.len() == old(logbook).logs@.len() + 1
                    &&& final(logbook).logs@.subrange(0, old(logbook).logs@.len() as int) == old(
                        logbook,
                    ).logs@
                    &&& ({
                        let log = final(logbook).logs@.last();
                        &&& log.id == id
                        &&& log.stu_id@ == stu_id@
                        &&& log.subcourse_id == subcourse_id
                        &&& log.confirm == 1
                        &&& log.tea_name@ == tea_name@
                        &&& log.tea_note@ == "Log by T"@
                        &&& log.fin_time == now
                        &&& exists|i: int|
                            {
                                &&& 0 <= i < groups.members@.len()
                                &&& (#[trigger] groups.members@[i]).subcourse_id == subcourse_id
                                &&& groups.members@[i].stu_id@ == stu_id@
                                &&& log.seat == groups.members@[i].seat
                                &&& log.stu_name@ == groups.members@[i].stu_name@
                            }
                        &&& (find_subcourse(groups.subcourses@, subcourse_id) matches Some(sub) ==> {
                            &&& log.room_id == sub.room_id
                            &&& match find_schedule(
                                schedules@,
                                sub.course_id,
                                spec_week_number(
                                    today as int,
                                    find_semester(
                                        semesters@,
                                        sub.year_id,
                                    ).unwrap().start as int,
                                    sub.lag_week as int,
                                ),
                            ) {
                                Some(sch) => log.lab_name@ == sch.name@,
                                None => log.lab_name@ == Seq::<char>::empty(),
                            }
                        })
                    })
                },
            }
        }),
{
    let mut log = match get_default_log(
        logbook,
        groups,
        semesters,
        schedules,
        stu_id,
        subcourse_id,
        today,
        now,
    ) {
        Ok(log) => log,
        Err(e) => {
            return Err(e);
        },
    };
    // the recorded name is best-effort, as for a forced log the
    // membership may already be gone
    match groups.get_student_name(stu_id, subcourse_id) {
        Ok(name) => {
            log.stu_name = name;
        },
        Err(_) => {},
    }
    log.confirm = 1;
    log.tea_name = tea_name.clone();
    log.tea_note = String::from_str("Log by T");
    proof {
        lemma_recent_log_index_props(logbook.logs@, stu_id@, subcourse_id, now as int);
    }
    logbook.add_student_log(log, now)
}

} // verus!
