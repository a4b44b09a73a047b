//! The store of student work-timeline entries.
//!
//! An entry records one step of a student's work on a curriculum
//! entry, written either by the student or by a teacher.  Who may
//! create or delete an entry is decided by the checks in
//! [`crate::ownership`]; this store holds the records and the queries
//! over them.

use vstd::prelude::*;
use crate::OpError;
use crate::models::StudentTimeline;

verus! {

/// How many entries a student has filed under one curriculum entry.
pub open spec fn count_timeline_entries(s: Seq<StudentTimeline>, stu: Seq<char>, schedule_id: i64) -> int
    decreases s.len(),
{
    if s.len() == 0 {
        0
    } else {
        count_timeline_entries(s.drop_last(), stu, schedule_id) + if s.last().stu_id@ == stu
            && s.last().schedule_id == schedule_id {
            1int
        } else {
            0int
        }
    }
}

/// The first entry with the given id, if any.
pub open spec fn find_timeline(s: Seq<StudentTimeline>, id: i64) -> Option<StudentTimeline>
    decreases s.len(),
{
    if s.len() == 0 {
        None
    } else if s[0].id == id {
        Some(s[0])
    } else {
        find_timeline(s.subrange(1, s.len() as int), id)
    }
}

/// When the first match of `id` stands at index `k`, the lookup
/// returns exactly that entry.
pub proof fn lemma_find_timeline_present(s: Seq<StudentTimeline>, id: i64, k: int)
    requires
        0 <= k < s.len(),
        s[k].id == id,
        forall|j: int| 0 <= j < k ==> (#[trigger] s[j]).id != id,
    ensures
        find_timeline(s, id) == Some(s[k]),
    decreases s.len(),
{
    if s[0].id == id {
        assert(k == 0);
    } else {
        lemma_find_timeline_present(s.subrange(1, s.len() as int), id, k - 1);
    }
}

/// When no entry carries `id`, the lookup returns nothing.
pub proof fn lemma_find_timeline_absent(s: Seq<StudentTimeline>, id: i64)
    requires
        forall|j: int| 0 <= j < s.len() ==> (#[trigger] s[j]).id != id,
    ensures
        find_timeline(s, id) is None,
    decreases s.len(),
{
    if s.len() > 0 {
        lemma_find_timeline_absent(s.subrange(1, s.len() as int), id);
    }
}

/// The entries of one student under one subcourse and curriculum
/// entry, in stored order.
pub open spec fn timelines_of_schedule(
    s: Seq<StudentTimeline>,
    subcourse_id: i64,
    schedule_id: i64,
) -> Seq<StudentTimeline>
    decreases s.len(),
{
    if s.len() == 0 {
        Seq::empty()
    } else {
        let rest = timelines_of_schedule(s.drop_last(), subcourse_id, schedule_id);
        if s.last().subcourse_id == subcourse_id && s.last().schedule_id == schedule_id {
            rest.push(s.last())
        } else {
            rest
        }
    }
}

/// The entries a caller sees of one student in one subcourse: all of
/// them for the subcourse's own teacher, otherwise only those the
/// caller wrote.
pub open spec fn timelines_of_student(
    s: Seq<StudentTimeline>,
    subcourse_id: i64,
    stu: Seq<char>,
    tea: Seq<char>,
    caller_is_subcourse_teacher: bool,
) -> Seq<StudentTimeline>
    decreases s.len(),
{
    if s.len() == 0 {
        Seq::empty()
    } else {
        let rest = timelines_of_student(
            s.drop_last(),
            subcourse_id,
            stu,
            tea,
            caller_is_subcourse_teacher,
        );
        if s.last().subcourse_id == subcourse_id && s.last().stu_id@ == stu && (
        caller_is_subcourse_teacher || s.last().tea_id@ == tea) {
            rest.push(s.last())
        } else {
            rest
        }
    }
}

/// An exact copy of a timeline entry.
pub fn clone_timeline(t: &StudentTimeline) -> (r: StudentTimeline)
    ensures
        r == *t,
{
    StudentTimeline {
        id: t.id,
        stu_id: t.stu_id.clone(),
        tea_id: t.tea_id.clone(),
        schedule_id: t.schedule_id,
        subschedule: t.subschedule.clone(),
        subcourse_id: t.subcourse_id,
        note: t.note.clone(),
        notetype: t.notetype,
        timestamp: t.timestamp,
    }
}

/// The store of timeline entries.
pub struct TimelineStore {
    pub entries: Vec<StudentTimeline>,
    pub next_id: i64,
}

impl TimelineStore {
    /// Well-formedness: unique entry ids below the id counter.
    pub open spec fn wf(&self) -> bool {
        &&& self.next_id >= 1
        &&& forall|i: int|
            0 <= i < self.entries@.len() ==> 1 <= (#[trigger] self.entries@[i]).id < self.next_id
        &&& forall|i: int, j: int|
            0 <= i < j < self.entries@.len() ==> (#[trigger] self.entries@[i]).id != (
            #[trigger] self.entries@[j]).id
    }

    /// An empty store.
    pub fn new() -> (r: Self)
        ensures
            r.wf(),
            r.entries@.len() == 0,
            r.next_id == 1,
    {
        TimelineStore { entries: Vec::new(), next_id: 1 }
    }

    /// Files an entry under a fresh id, which is returned; its
    /// timestamp is set to `now`.
    pub fn add_student_timeline(&mut self, entry: StudentTimeline, now: i64) -> (r: Result<
        i64,
        OpError,
    >)
        requires
            old(self).wf(),
        ensures
            final(self).wf(),
            r is Err ==> *final(self) == *old(self) && r == Err::<i64, OpError>(OpError::Invalid)
                && old(self).next_id == i64::MAX,
            r matches Ok(id) ==> {
                &&& id == old(self).next_id
                &&& final(self).entries@ == old(self).entries@.push(
                    StudentTimeline { id, timestamp: now, ..entry },
                )
                &&& final(self).next_id == old(self).next_id + 1
            },
            old(self).next_id < i64::MAX ==> r is Ok,
    {
        if self.next_id == i64::MAX {
            return Err(OpError::Invalid);
        }
        let id = self.next_id;
        let rec = StudentTimeline { id, timestamp: now, ..entry };
        self.entries.push(rec);
        self.next_id = id + 1;
        Ok(id)
    }

    /// How many entries the student has filed under the curriculum
    /// entry.
    pub fn count_student_timeline_entries(&self, stu_id: &String, schedule_id: i64) -> (r: usize)
        ensures
            r == count_timeline_entries(self.entries@, stu_id@, schedule_id),
    {
        let n = self.entries.len();
        let mut count: usize = 0;
        let mut i: usize = 0;
        proof {
            assert(self.entries@.subrange(0, 0) =~= Seq::<StudentTimeline>::empty());
        }
        while i < n
            invariant
                n == self.entries@.len(),
                0 <= i <= n,
                count == count_timeline_entries(
                    self.entries@.subrange(0, i as int),
                    stu_id@,
                    schedule_id,
                ),
                0 <= count <= i,
            decreases n - i,
        {
            proof {
                assert(self.entries@.subrange(0, i + 1).drop_last() =~= self.entries@.subrange(
                    0,
                    i as int,
                ));
                assert(self.entries@.subrange(0, i + 1).last() == self.entries@[i as int]);
                lemma_count_timeline_bounds(self.entries@.subrange(0, i + 1), stu_id@, schedule_id);
            }
            if self.entries[i].stu_id == *stu_id && self.entries[i].schedule_id == schedule_id {
                count += 1;
            }
            i += 1;
        }
        proof {
            assert(self.entries@.subrange(0, n as int) =~= self.entries@);
        }
        count
    }

    /// Removes the entry with the given id; reports whether one was
    /// removed.
    pub fn delete_student_timeline(&mut self, id: i64) -> (r: bool)
        requires
            old(self).wf(),
        ensures
            final(self).wf(),
            final(self).next_id == old(self).next_id,
            !r ==> *final(self) == *old(self) && find_timeline(old(self).entries@, id) is None,
            r ==> exists|k: int|
                {
                    &&& 0 <= k < old(self).entries@.len()
                    &&& (#[trigger] old(self).entries@[k]).id == id
                    &&& final(self).entries@ == old(self).entries@.remove(k)
                },
    {
        let n = self.entries.len();
        let mut k: usize = 0;
        while k < n
            invariant
                *self == *old(self),
                old(self).wf(),
                n == self.entries@.len(),
                0 <= k <= n,
                forall|j: int| 0 <= j < k ==> (#[trigger] self.entries@[j]).id != id,
            decreases n - k,
        {
            if self.entries[k].id == id {
                self.entries.remove(k);
                return true;
            }
            k += 1;
        }
        proof {
            lemma_find_timeline_absent(self.entries@, id);
        }
        false
    }

    /// A copy of the entry with the given id.
    pub fn get_timeline_by_id(&self, id: i64) -> (r: Result<StudentTimeline, OpError>)
        ensures
            r == match find_timeline(self.entries@, id) {
                Some(t) => Ok::<StudentTimeline, OpError>(t),
                None => Err::<StudentTimeline, OpError>(OpError::NotFound),
            },
    {
        let n = self.entries.len();
        let mut k: usize = 0;
        while k < n
            invariant
                n == self.entries@.len(),
                0 <= k <= n,
                forall|j: int| 0 <= j < k ==> (#[trigger] self.entries@[j]).id != id,
            decreases n - k,
        {
            if self.entries[k].id == id {
                proof {
                    lemma_find_timeline_present(self.entries@, id, k as int);
                }
                return Ok(clone_timeline(&self.entries[k]));
            }
            k += 1;
        }
        proof {
            lemma_find_timeline_absent(self.entries@, id);
        }
        Err(OpError::NotFound)
    }

    /// Copies of the entries of one subcourse and curriculum entry,
    /// in stored order.
    pub fn list_timelines_by_schedule(&self, subcourse_id: i64, schedule_id: i64) -> (r: Vec<
        StudentTimeline,
    >)
        ensures
            r@ == timelines_of_schedule(self.entries@, subcourse_id, schedule_id),
    {
        let n = self.entries.len();
        let mut out: Vec<StudentTimeline> = Vec::new();
        let mut i: usize = 0;
        proof {
            assert(self.entries@.subrange(0, 0) =~= Seq::<StudentTimeline>::empty());
        }
        while i < n
            invariant
                n == self.entries@.len(),
                0 <= i <= n,
                out@ == timelines_of_schedule(
                    self.entries@.subrange(0, i as int),
                    subcourse_id,
                    schedule_id,
                ),
            decreases n - i,
        {
            proof {
                assert(self.entries@.subrange(0, i + 1).drop_last() =~= self.entries@.subrange(
                    0,
                    i as int,
                ));
                assert(self.entries@.subrange(0, i + 1).last() == self.entries@[i as int]);
            }
            if self.entries[i].subcourse_id == subcourse_id && self.entries[i].schedule_id
                == schedule_id {
                out.push(clone_timeline(&self.entries[i]));
            }
            i += 1;
        }
        proof {
            assert(self.entries@.subrange(0, n as int) =~= self.entries@);
        }
        out
    }

    /// Copies of the entries of one student in one subcourse, as one
    /// caller sees them: the subcourse's own teacher sees every
    /// entry, any other caller only the entries they wrote
    /// themselves.
    pub fn list_timelines_by_student(
        &self,
        subcourse_id: i64,
        stu_id: &String,
        tea_id: &String,
        caller_is_subcourse_teacher: bool,
    ) -> (r: Vec<StudentTimeline>)
        ensures
            r@ == timelines_of_student(
                self.entries@,
                subcourse_id,
                stu_id@,
                tea_id@,
                caller_is_subcourse_teacher,
            ),
    {
        let n = self.entries.len();
        let mut out: Vec<StudentTimeline> = Vec::new();
        let mut i: usize = 0;
        proof {
            assert(self.entries@.subrange(0, 0) =~= Seq::<StudentTimeline>::empty());
        }
        while i < n
            invariant
                n == self.entries@.len(),
                0 <= i <= n,
                out@ == timelines_of_student(
                    self.entries@.subrange(0, i as int),
                    subcourse_id,
                    stu_id@,
                    tea_id@,
                    caller_is_subcourse_teacher,
                ),
            decreases n - i,
        {
            proof {
                assert(self.entries@.subrange(0, i + 1).drop_last() =~= self.entries@.subrange(
                    0,
                    i as int,
                ));
                assert(self.entries@.subrange(0, i + 1).last() == self.entries@[i as int]);
            }
            if self.entries[i].subcourse_id == subcourse_id && self.entries[i].stu_id == *stu_id
                && (caller_is_subcourse_teacher || self.entries[i].tea_id == *tea_id) {
                out.push(clone_timeline(&self.entries[i]));
            }
            i += 1;
        }
        proof {
            assert(self.entries@.subrange(0, n as int) =~= self.entries@);
        }
        out
    }
}

/// The entry count is between 0 and the sequence length.
pub proof fn lemma_count_timeline_bounds(s: Seq<StudentTimeline>, stu: Seq<char>, schedule_id: i64)
    ensures
        0 <= count_timeline_entries(s, stu, schedule_id) <= s.len(),
    decreases s.len(),
{
    if s.len() > 0 {
        lemma_count_timeline_bounds(s.drop_last(), stu, schedule_id);
    }
}

} // verus!
