//! The enrollment allocator: capacity-bounded seat assignment for
//! subcourse groups.
//!
//! A [`GroupStore`] holds the subcourses and the group memberships as
//! plain in-memory state.  Callers that share one store across
//! concurrent requests must serialize the mutating calls (`&mut self`
//! makes that a type-system obligation here); under that discipline
//! the well-formedness predicate [`GroupStore::wf`] is preserved by
//! every operation, and it carries the laws of the allocator: the
//! member count of a subcourse never exceeds its seat limit, no two
//! memberships of one subcourse share a seat, and a student holds at
//! most one membership per subcourse.
//!
//! Seats are assigned as one more than the highest seat currently held
//! in the subcourse, so a freed seat number is never reused while any
//! later membership exists.

use vstd::prelude::*;
use crate::OpError;
use crate::models::{Student, SubCourse, SubCourseWithName, SubcourseQuery};
use crate::perm::{passes_mask, PERMISSION_TEACHER};

verus! {

/// How many memberships of subcourse `sc` the sequence holds.
pub open spec fn count_members(s: Seq<Student>, sc: i64) -> int
    decreases s.len(),
{
    if s.len() == 0 {
        0
    } else {
        count_members(s.drop_last(), sc) + if s.last().subcourse_id == sc {
            1int
        } else {
            0int
        }
    }
}

/// The highest seat currently held in subcourse `sc`; 0 when empty.
pub open spec fn max_seat(s: Seq<Student>, sc: i64) -> int
    decreases s.len(),
{
    if s.len() == 0 {
        0
    } else {
        let rest = max_seat(s.drop_last(), sc);
        let cur = if s.last().subcourse_id == sc {
            s.last().seat as int
        } else {
            0int
        };
        if cur > rest {
            cur
        } else {
            rest
        }
    }
}

/// Whether student `stu` holds a membership in subcourse `sc`.
pub open spec fn has_member(s: Seq<Student>, sc: i64, stu: Seq<char>) -> bool {
    exists|i: int| 0 <= i < s.len() && (#[trigger] s[i]).subcourse_id == sc && s[i].stu_id@ == stu
}

/// The first subcourse with the given id, if any.
pub open spec fn find_subcourse(s: Seq<SubCourse>, id: i64) -> Option<SubCourse>
    decreases s.len(),
{
    if s.len() == 0 {
        None
    } else if s[0].id == id {
        Some(s[0])
    } else {
        find_subcourse(s.subrange(1, s.len() as int), id)
    }
}

/// The member count is between 0 and the sequence length.
pub proof fn lemma_count_bounds(s: Seq<Student>, sc: i64)
    ensures
        0 <= count_members(s, sc) <= s.len(),
    decreases s.len(),
{
    if s.len() > 0 {
        lemma_count_bounds(s.drop_last(), sc);
    }
}

/// Removing index `i` lowers the count by one exactly when the removed
/// membership belonged to the counted subcourse.
pub proof fn lemma_count_remove(s: Seq<Student>, i: int, sc: i64)
    requires
        0 <= i < s.len(),
    ensures
        count_members(s.remove(i), sc) == count_members(s, sc) - if s[i].subcourse_id == sc {
            1int
        } else {
            0int
        },
    decreases s.len(),
{
    if i == s.len() - 1 {
        assert(s.remove(i) =~= s.drop_last());
    } else {
        assert(s.remove(i).drop_last() =~= s.drop_last().remove(i));
        lemma_count_remove(s.drop_last(), i, sc);
        assert(s.remove(i).last() == s.last());
    }
}

/// Replacing the entry at `i` by one of the same subcourse leaves
/// every count unchanged.
pub proof fn lemma_count_update_same_sub(s: Seq<Student>, i: int, m: Student, sc: i64)
    requires
        0 <= i < s.len(),
        m.subcourse_id == s[i].subcourse_id,
    ensures
        count_members(s.update(i, m), sc) == count_members(s, sc),
    decreases s.len(),
{
    if i == s.len() - 1 {
        assert(s.update(i, m).drop_last() =~= s.drop_last());
        assert(s.update(i, m).last() == m);
    } else {
        assert(s.update(i, m).drop_last() =~= s.drop_last().update(i, m));
        lemma_count_update_same_sub(s.drop_last(), i, m, sc);
        assert(s.update(i, m).last() == s.last());
    }
}

/// A sequence with no membership of `sc` counts zero for it.
pub proof fn lemma_count_zero_when_absent(s: Seq<Student>, sc: i64)
    requires
        forall|i: int| 0 <= i < s.len() ==> (#[trigger] s[i]).subcourse_id != sc,
    ensures
        count_members(s, sc) == 0,
    decreases s.len(),
{
    if s.len() > 0 {
        lemma_count_zero_when_absent(s.drop_last(), sc);
    }
}

/// Every membership of `sc` holds a seat no higher than the maximum.
pub proof fn lemma_max_seat_ge(s: Seq<Student>, sc: i64, i: int)
    requires
        0 <= i < s.len(),
        s[i].subcourse_id == sc,
    ensures
        max_seat(s, sc) >= s[i].seat,
    decreases s.len(),
{
    if i < s.len() - 1 {
        lemma_max_seat_ge(s.drop_last(), sc, i);
    }
}

/// When the first match of `id` stands at index `k`, the lookup
/// returns exactly that entry.
pub proof fn lemma_find_subcourse_present(s: Seq<SubCourse>, id: i64, k: int)
    requires
        0 <= k < s.len(),
        s[k].id == id,
        forall|j: int| 0 <= j < k ==> (#[trigger] s[j]).id != id,
    ensures
        find_subcourse(s, id) == Some(s[k]),
    decreases s.len(),
{
    if s[0].id == id {
        assert(k == 0);
    } else {
        lemma_find_subcourse_present(s.subrange(1, s.len() as int), id, k - 1);
    }
}

/// When no entry carries `id`, the lookup returns nothing.
pub proof fn lemma_find_subcourse_absent(s: Seq<SubCourse>, id: i64)
    requires
        forall|j: int| 0 <= j < s.len() ==> (#[trigger] s[j]).id != id,
    ensures
        find_subcourse(s, id) is None,
    decreases s.len(),
{
    if s.len() > 0 {
        lemma_find_subcourse_absent(s.subrange(1, s.len() as int), id);
    }
}

/// An exact copy of a membership record.
pub fn clone_student(s: &Student) -> (r: Student)
    ensures
        r == *s,
{
    Student {
        id: s.id,
        stu_id: s.stu_id.clone(),
        stu_name: s.stu_name.clone(),
        seat: s.seat,
        subcourse_id: s.subcourse_id,
    }
}

/// An exact copy of a subcourse record.
pub fn clone_subcourse(s: &SubCourse) -> (r: SubCourse)
    ensures
        r == *s,
{
    SubCourse {
        id: s.id,
        weekday: s.weekday,
        room_id: s.room_id,
        tea_name: s.tea_name.clone(),
        tea_id: s.tea_id.clone(),
        year_id: s.year_id,
        stu_limit: s.stu_limit,
        course_id: s.course_id,
        lag_week: s.lag_week,
    }
}

/// The subcourse registry and the group memberships.
pub struct GroupStore {
    pub subcourses: Vec<SubCourse>,
    pub members: Vec<Student>,
    pub next_subcourse_id: i64,
    pub next_member_id: i64,
}

/// The outcome the allocator owes for a join request against a given
/// starting state: an existing membership is a silent success, an
/// unknown subcourse is `NotFound`, a full subcourse is
/// `CapacityExceeded`, an exhausted counter is `Invalid`, and
/// otherwise the join succeeds.
pub open spec fn join_outcome(pre: GroupStore, sc: i64, stu: Seq<char>) -> Result<(), OpError> {
    if has_member(pre.members@, sc, stu) {
        Ok(())
    } else {
        match find_subcourse(pre.subcourses@, sc) {
            None => Err(OpError::NotFound),
            Some(sub) => if count_members(pre.members@, sc) >= sub.stu_limit {
                Err(OpError::CapacityExceeded)
            } else if max_seat(pre.members@, sc) >= i64::MAX || pre.next_member_id >= i64::MAX {
                Err(OpError::Invalid)
            } else {
                Ok(())
            },
        }
    }
}

impl GroupStore {
    /// Well-formedness: unique subcourse ids below the id counter with
    /// positive seat limits; memberships with positive seats and
    /// unique ids below the member-id counter; at most one membership
    /// per (subcourse, student); unique seats within a subcourse; and
    /// the member count of every subcourse within its seat limit.
    pub open spec fn wf(&self) -> bool {
        &&& self.next_subcourse_id >= 1
        &&& self.next_member_id >= 1
        &&& forall|i: int, j: int|
            0 <= i < j < self.subcourses@.len() ==> (#[trigger] self.subcourses@[i]).id != (
            #[trigger] self.subcourses@[j]).id
        &&& forall|i: int|
            0 <= i < self.subcourses@.len() ==> 1 <= (#[trigger] self.subcourses@[i]).id
                < self.next_subcourse_id
        &&& forall|i: int|
            0 <= i < self.subcourses@.len() ==> (#[trigger] self.subcourses@[i]).stu_limit >= 1
        &&& forall|i: int|
            0 <= i < self.members@.len() ==> (#[trigger] self.members@[i]).seat >= 1
        &&& forall|i: int|
            0 <= i < self.members@.len() ==> 1 <= (#[trigger] self.members@[i]).id
                < self.next_member_id
        &&& forall|i: int|
            0 <= i < self.members@.len() ==> (#[trigger] self.members@[i]).subcourse_id
                < self.next_subcourse_id
        &&& forall|i: int, j: int|
            0 <= i < j < self.members@.len() ==> (#[trigger] self.members@[i]).id != (
            #[trigger] self.members@[j]).id
        &&& forall|i: int, j: int|
            0 <= i < j < self.members@.len() ==> !((#[trigger] self.members@[i]).subcourse_id == (
            #[trigger] self.members@[j]).subcourse_id && self.members@[i].stu_id@
                == self.members@[j].stu_id@)
        &&& forall|i: int, j: int|
            0 <= i < j < self.members@.len() ==> !((#[trigger] self.members@[i]).subcourse_id == (
            #[trigger] self.members@[j]).subcourse_id && self.members@[i].seat
                == self.members@[j].seat)
        &&& forall|k: int|
            0 <= k < self.subcourses@.len() ==> count_members(
                self.members@,
                (#[trigger] self.subcourses@[k]).id,
            ) <= self.subcourses@[k].stu_limit
    }

    /// An empty store.
    pub fn new() -> (r: Self)
        ensures
            r.wf(),
            r.subcourses@.len() == 0,
            r.members@.len() == 0,
            r.next_subcourse_id == 1,
            r.next_member_id == 1,
    {
        GroupStore {
            subcourses: Vec::new(),
            members: Vec::new(),
            next_subcourse_id: 1,
            next_member_id: 1,
        }
    }

    /// The index of the subcourse with the given id, if any.
    fn find_subcourse_index(&self, id: i64) -> (r: Option<usize>)
        ensures
            match r {
                Some(k) => k < self.subcourses@.len() && self.subcourses@[k as int].id == id
                    && find_subcourse(self.subcourses@, id) == Some(self.subcourses@[k as int]),
                None => find_subcourse(self.subcourses@, id) is None,
            },
    {
        let n = self.subcourses.len();
        let mut k: usize = 0;
        while k < n
            invariant
                n == self.subcourses@.len(),
                0 <= k <= n,
                forall|j: int| 0 <= j < k ==> (#[trigger] self.subcourses@[j]).id != id,
            decreases n - k,
        {
            if self.subcourses[k].id == id {
                proof {
                    lemma_find_subcourse_present(self.subcourses@, id, k as int);
                }
                return Some(k);
            }
            k += 1;
        }
        proof {
            lemma_find_subcourse_absent(self.subcourses@, id);
        }
        None
    }

    /// The index of the membership of (`sc`, `stu_id`), if one exists.
    fn find_member_index(&self, sc: i64, stu_id: &String) -> (r: Option<usize>)
        ensures
            match r {
                Some(i) => i < self.members@.len() && self.members@[i as int].subcourse_id == sc
                    && self.members@[i as int].stu_id@ == stu_id@,
                None => !has_member(self.members@, sc, stu_id@),
            },
    {
        let n = self.members.len();
        let mut i: usize = 0;
        while i < n
            invariant
                n == self.members@.len(),
                0 <= i <= n,
                forall|j: int|
                    0 <= j < i ==> !((#[trigger] self.members@[j]).subcourse_id == sc
                        && self.members@[j].stu_id@ == stu_id@),
            decreases n - i,
        {
            if self.members[i].subcourse_id == sc && self.members[i].stu_id == *stu_id {
                return Some(i);
            }
            i += 1;
        }
        None
    }

    /// The number of memberships of subcourse `sc`.
    pub fn count_members_of(&self, sc: i64) -> (r: usize)
        ensures
            r == count_members(self.members@, sc),
    {
        let n = self.members.len();
        let mut count: usize = 0;
        let mut i: usize = 0;
        proof {
            assert(self.members@.subrange(0, 0) =~= Seq::<Student>::empty());
        }
        while i < n
            invariant
                n == self.members@.len(),
                0 <= i <= n,
                count == count_members(self.members@.subrange(0, i as int), sc),
                0 <= count <= i,
            decreases n - i,
        {
            proof {
                assert(self.members@.subrange(0, i + 1).drop_last() =~= self.members@.subrange(
                    0,
                    i as int,
                ));
                assert(self.members@.subrange(0, i + 1).last() == self.members@[i as int]);
            }
            if self.members[i].subcourse_id == sc {
                count += 1;
            }
            i += 1;
        }
        proof {
            assert(self.members@.subrange(0, n as int) =~= self.members@);
        }
        count
    }

    /// The highest seat currently held in subcourse `sc`; 0 when the
    /// subcourse has no members.
    pub fn max_seat_of(&self, sc: i64) -> (r: i64)
        requires
            forall|i: int| 0 <= i < self.members@.len() ==> (#[trigger] self.members@[i]).seat >= 1,
        ensures
            r == max_seat(self.members@, sc),
    {
        let n = self.members.len();
        let mut maxs: i64 = 0;
        let mut i: usize = 0;
        proof {
            assert(self.members@.subrange(0, 0) =~= Seq::<Student>::empty());
        }
        while i < n
            invariant
                n == self.members@.len(),
                0 <= i <= n,
                forall|q: int|
                    0 <= q < self.members@.len() ==> (#[trigger] self.members@[q]).seat >= 1,
                maxs == max_seat(self.members@.subrange(0, i as int), sc),
                maxs >= 0,
            decreases n - i,
        {
            proof {
                assert(self.members@.subrange(0, i + 1).drop_last() =~= self.members@.subrange(
                    0,
                    i as int,
                ));
                assert(self.members@.subrange(0, i + 1).last() == self.members@[i as int]);
            }
            if self.members[i].subcourse_id == sc && self.members[i].seat > maxs {
                maxs = self.members[i].seat;
            }
            i += 1;
        }
        proof {
            assert(self.members@.subrange(0, n as int) =~= self.members@);
        }
        maxs
    }

    /// Registers a subcourse under a fresh id, which is returned.  A
    /// non-positive seat limit is rejected as `Invalid`, as is an
    /// exhausted id counter.
    pub fn add_subcourse(&mut self, req: SubCourse) -> (r: Result<i64, OpError>)
        requires
            old(self).wf(),
        ensures
            final(self).wf(),
            final(self).members@ == old(self).members@,
            final(self).next_member_id == old(self).next_member_id,
            req.stu_limit < 1 ==> r == Err::<i64, OpError>(OpError::Invalid) && *final(self)
                == *old(self),
            r matches Ok(id) ==> {
                &&& id == old(self).next_subcourse_id
                &&& final(self).subcourses@ == old(self).subcourses@.push(SubCourse { id, ..req })
                &&& final(self).next_subcourse_id == old(self).next_subcourse_id + 1
            },
            req.stu_limit >= 1 && old(self).next_subcourse_id < i64::MAX ==> r is Ok,
            r is Err ==> *final(self) == *old(self),
    {
        if req.stu_limit < 1 {
            return Err(OpError::Invalid);
        }
        if self.next_subcourse_id == i64::MAX {
            return Err(OpError::Invalid);
        }
        let id = self.next_subcourse_id;
        let sub = SubCourse { id, ..req };
        self.subcourses.push(sub);
        self.next_subcourse_id = id + 1;
        proof {
            assert forall|k: int| 0 <= k < self.subcourses@.len() implies count_members(
                self.members@,
                (#[trigger] self.subcourses@[k]).id,
            ) <= self.subcourses@[k].stu_limit by {
                if k == self.subcourses@.len() - 1 {
                    lemma_count_zero_when_absent(self.members@, id);
                } else {
                    assert(self.subcourses@[k] == old(self).subcourses@[k]);
                }
            }
        }
        Ok(id)
    }

    /// Replaces the fields of the subcourse with the given id.  The
    /// new seat limit must be positive and must not fall below the
    /// current member count, so that the capacity law keeps holding.
    pub fn update_subcourse(&mut self, id: i64, req: SubCourse) -> (r: Result<(), OpError>)
        requires
            old(self).wf(),
        ensures
            final(self).wf(),
            final(self).members@ == old(self).members@,
            final(self).next_subcourse_id == old(self).next_subcourse_id,
            final(self).next_member_id == old(self).next_member_id,
            r is Err ==> *final(self) == *old(self),
            req.stu_limit < 1 ==> r == Err::<(), OpError>(OpError::Invalid),
            req.stu_limit >= 1 && find_subcourse(old(self).subcourses@, id) is None ==> r == Err::<
                (),
                OpError,
            >(OpError::NotFound),
            req.stu_limit >= 1 && find_subcourse(old(self).subcourses@, id) is Some ==> if
                count_members(old(self).members@, id) <= req.stu_limit {
                r is Ok
            } else {
                r == Err::<(), OpError>(OpError::CapacityExceeded)
            },
            r is Ok ==> exists|k: int|
                {
                    &&& 0 <= k < old(self).subcourses@.len()
                    &&& (#[trigger] old(self).subcourses@[k]).id == id
                    &&& final(self).subcourses@ == old(self).subcourses@.update(
                        k,
                        SubCourse { id, ..req },
                    )
                },
    {
        if req.stu_limit < 1 {
            return Err(OpError::Invalid);
        }
        let k = match self.find_subcourse_index(id) {
            None => {
                return Err(OpError::NotFound);
            },
            Some(k) => k,
        };
        // the member count must still fit the new limit
        let count = self.count_members_of(id);
        proof {
            lemma_count_bounds(self.members@, id);
        }
        if (count as u64) > (req.stu_limit as u64) {
            return Err(OpError::CapacityExceeded);
        }
        let updated = SubCourse { id, ..req };
        self.subcourses.set(k, updated);
        proof {
            assert forall|q: int| 0 <= q < self.subcourses@.len() implies count_members(
                self.members@,
                (#[trigger] self.subcourses@[q]).id,
            ) <= self.subcourses@[q].stu_limit by {
                if q != k {
                    assert(self.subcourses@[q] == old(self).subcourses@[q]);
                }
            }
        }
        Ok(())
    }

    /// Removes the subcourse with the given id; reports whether one
    /// was removed.  Memberships are left as they are, matching the
    /// storage behaviour this models.
    pub fn delete_subcourse(&mut self, id: i64) -> (r: bool)
        requires
            old(self).wf(),
        ensures
            final(self).wf(),
            final(self).members@ == old(self).members@,
            final(self).next_subcourse_id == old(self).next_subcourse_id,
            final(self).next_member_id == old(self).next_member_id,
            !r ==> *final(self) == *old(self) && find_subcourse(old(self).subcourses@, id) is None,
            r ==> exists|k: int|
                {
                    &&& 0 <= k < old(self).subcourses@.len()
                    &&& (#[trigger] old(self).subcourses@[k]).id == id
                    &&& final(self).subcourses@ == old(self).subcourses@.remove(k)
                },
    {
        let k = match self.find_subcourse_index(id) {
            None => {
                return false;
            },
            Some(k) => k,
        };
        self.subcourses.remove(k);
        proof {
            let pre = old(self).subcourses@;
            assert forall|q: int| 0 <= q < self.subcourses@.len() implies (
            #[trigger] self.subcourses@[q]) == (if q < k {
                pre[q]
            } else {
                pre[q + 1]
            }) by {}
        }
        true
    }

    /// A copy of the subcourse with the given id.
    pub fn get_subcourse_by_id(&self, id: i64) -> (r: Result<SubCourse, OpError>)
        ensures
            r == match find_subcourse(self.subcourses@, id) {
                Some(sub) => Ok::<SubCourse, OpError>(sub),
                None => Err::<SubCourse, OpError>(OpError::NotFound),
            },
    {
        match self.find_subcourse_index(id) {
            Some(k) => Ok(clone_subcourse(&self.subcourses[k])),
            None => Err(OpError::NotFound),
        }
    }

    /// Adds the student to the subcourse's group.
    ///
    /// An existing membership makes the call a silent success and
    /// changes nothing (idempotent join).  Otherwise the subcourse
    /// must exist (`NotFound`), its member count must still be below
    /// its seat limit (`CapacityExceeded`), and the new membership is
    /// appended with seat one above the current maximum of the group,
    /// so the seat is strictly higher than every seat ever freed while
    /// the group keeps its later members.
    pub fn join(&mut self, subcourse_id: i64, stu_id: &String, stu_name: &String) -> (r: Result<
        (),
        OpError,
    >)
        requires
            old(self).wf(),
        ensures
            final(self).wf(),
            final(self).subcourses@ == old(self).subcourses@,
            final(self).next_subcourse_id == old(self).next_subcourse_id,
            r == join_outcome(*old(self), subcourse_id, stu_id@),
            r is Err ==> *final(self) == *old(self),
            r is Ok && has_member(old(self).members@, subcourse_id, stu_id@) ==> *final(self)
                == *old(self),
            r is Ok && !has_member(old(self).members@, subcourse_id, stu_id@) ==> {
                &&& final(self).members@.len() == old(self).members@.len() + 1
                &&& final(self).members@.subrange(0, old(self).members@.len() as int) == old(
                    self,
                ).members@
                &&& final(self).members@.last().subcourse_id == subcourse_id
                &&& final(self).members@.last().stu_id@ == stu_id@
                &&& final(self).members@.last().stu_name@ == stu_name@
                &&& final(self).members@.last().seat == max_seat(old(self).members@, subcourse_id)
                    + 1
                &&& final(self).members@.last().id == old(self).next_member_id
                &&& final(self).next_member_id == old(self).next_member_id + 1
                &&& max_seat(final(self).members@, subcourse_id) == max_seat(
                    old(self).members@,
                    subcourse_id,
                ) + 1
                &&& count_members(final(self).members@, subcourse_id) == count_members(
                    old(self).members@,
                    subcourse_id,
                ) + 1
            },
            r is Ok ==> has_member(final(self).members@, subcourse_id, stu_id@),
    {
        // an existing membership is accepted silently
        if let Some(_i) = self.find_member_index(subcourse_id, stu_id) {
            return Ok(());
        }
        // the subcourse must exist; fetch its seat limit
        let k = match self.find_subcourse_index(subcourse_id) {
            None => {
                return Err(OpError::NotFound);
            },
            Some(k) => k,
        };
        let limit = self.subcourses[k].stu_limit;
        // the count-read, limit-read and insert below form the critical
        // section; exclusive access is given by `&mut self`
        let count = self.count_members_of(subcourse_id);
        proof {
            lemma_count_bounds(self.members@, subcourse_id);
        }
        if (count as u64) >= (limit as u64) {
            return Err(OpError::CapacityExceeded);
        }
        let maxs = self.max_seat_of(subcourse_id);
        if maxs == i64::MAX || self.next_member_id == i64::MAX {
            return Err(OpError::Invalid);
        }
        let member = Student {
            id: self.next_member_id,
            stu_id: stu_id.clone(),
            stu_name: stu_name.clone(),
            seat: maxs + 1,
            subcourse_id,
        };
        self.members.push(member);
        self.next_member_id = self.next_member_id + 1;
        proof {
            let pre = old(self).members@;
            let post = self.members@;
            assert(post.drop_last() =~= pre);
            assert(post.subrange(0, pre.len() as int) =~= pre);
            assert forall|i: int|
                0 <= i < pre.len() && (#[trigger] pre[i]).subcourse_id
                    == subcourse_id implies pre[i].seat <= maxs by {
                lemma_max_seat_ge(pre, subcourse_id, i);
            }
            assert forall|q: int| 0 <= q < self.subcourses@.len() implies count_members(
                post,
                (#[trigger] self.subcourses@[q]).id,
            ) <= self.subcourses@[q].stu_limit by {
                if self.subcourses@[q].id == subcourse_id {
                    assert(self.subcourses@[q] == self.subcourses@[k as int]);
                }
            }
        }
        Ok(())
    }

    /// Removes the student's membership in the subcourse if present;
    /// reports whether one was removed.  Idempotent; no other seat is
    /// renumbered.
    pub fn leave(&mut self, subcourse_id: i64, stu_id: &String) -> (r: bool)
        requires
            old(self).wf(),
        ensures
            final(self).wf(),
            final(self).subcourses@ == old(self).subcourses@,
            final(self).next_subcourse_id == old(self).next_subcourse_id,
            final(self).next_member_id == old(self).next_member_id,
            r == has_member(old(self).members@, subcourse_id, stu_id@),
            !r ==> *final(self) == *old(self),
            r ==> exists|i: int|
                {
                    &&& 0 <= i < old(self).members@.len()
                    &&& (#[trigger] old(self).members@[i]).subcourse_id == subcourse_id
                    &&& old(self).members@[i].stu_id@ == stu_id@
                    &&& final(self).members@ == old(self).members@.remove(i)
                },
            !has_member(final(self).members@, subcourse_id, stu_id@),
    {
        match self.find_member_index(subcourse_id, stu_id) {
            None => false,
            Some(i) => {
                self.members.remove(i);
                proof {
                    let pre = old(self).members@;
                    assert forall|q: int| 0 <= q < self.members@.len() implies (
                    #[trigger] self.members@[q]) == (if q < i {
                        pre[q]
                    } else {
                        pre[q + 1]
                    }) by {}
                    assert forall|q: int| 0 <= q < self.subcourses@.len() implies count_members(
                        self.members@,
                        (#[trigger] self.subcourses@[q]).id,
                    ) <= self.subcourses@[q].stu_limit by {
                        lemma_count_remove(pre, i as int, self.subcourses@[q].id);
                        lemma_count_bounds(pre, self.subcourses@[q].id);
                    }
                    assert forall|j: int|
                        0 <= j < self.members@.len() implies !((
                    #[trigger] self.members@[j]).subcourse_id == subcourse_id
                        && self.members@[j].stu_id@ == stu_id@) by {}
                }
                true
            },
        }
    }

    /// Administrative seat override for the membership with the given
    /// id.  The seat must be positive (`Invalid`), and must not be
    /// held by another member of the same subcourse — that would break
    /// the seat-uniqueness law, and is reported as `Conflict` carrying
    /// the index of the member already holding the seat.
    pub fn set_seat(&mut self, member_id: i64, new_seat: i64) -> (r: Result<(), OpError>)
        requires
            old(self).wf(),
        ensures
            final(self).wf(),
            final(self).subcourses@ == old(self).subcourses@,
            final(self).next_subcourse_id == old(self).next_subcourse_id,
            final(self).next_member_id == old(self).next_member_id,
            r is Err ==> *final(self) == *old(self),
            r matches Err(e) ==> e is Invalid || e is NotFound || e is Conflict,
            r == Err::<(), OpError>(OpError::Invalid) <==> new_seat < 1,
            r == Err::<(), OpError>(OpError::NotFound) <==> new_seat >= 1 && (forall|i: int|
                0 <= i < old(self).members@.len() ==> (#[trigger] old(self).members@[i]).id
                    != member_id),
            new_seat >= 1 && (exists|i: int|
                0 <= i < old(self).members@.len() && (#[trigger] old(self).members@[i]).id
                    == member_id && !seat_held_by_other(old(self).members@, i, new_seat)) ==> r
                is Ok,
            r matches Err(OpError::Conflict(j)) ==> exists|i: int|
                {
                    &&& 0 <= i < old(self).members@.len()
                    &&& (#[trigger] old(self).members@[i]).id == member_id
                    &&& 0 <= j < old(self).members@.len()
                    &&& j != i
                    &&& old(self).members@[j as int].subcourse_id == old(
                        self,
                    ).members@[i].subcourse_id
                    &&& old(self).members@[j as int].seat == new_seat
                },
            r is Ok ==> exists|i: int|
                {
                    &&& 0 <= i < old(self).members@.len()
                    &&& (#[trigger] old(self).members@[i]).id == member_id
                    &&& !seat_held_by_other(old(self).members@, i, new_seat)
                    &&& final(self).members@ == old(self).members@.update(
                        i,
                        Student { seat: new_seat, ..old(self).members@[i] },
                    )
                },
    {
        if new_seat < 1 {
            return Err(OpError::Invalid);
        }
        let n = self.members.len();
        let mut i: usize = 0;
        while i < n
            invariant
                *self == *old(self),
                old(self).wf(),
                new_seat >= 1,
                n == self.members@.len(),
                0 <= i <= n,
                forall|j: int| 0 <= j < i ==> (#[trigger] self.members@[j]).id != member_id,
            decreases n - i,
        {
            if self.members[i].id == member_id {
                let sc = self.members[i].subcourse_id;
                // the seat must stay unique within the subcourse
                let mut j: usize = 0;
                while j < n
                    invariant
                        *self == *old(self),
                        old(self).wf(),
                        new_seat >= 1,
                        n == self.members@.len(),
                        i < n,
                        self.members@[i as int].id == member_id,
                        sc == self.members@[i as int].subcourse_id,
                        0 <= j <= n,
                        forall|q: int|
                            0 <= q < j && q != i ==> !((#[trigger] self.members@[q]).subcourse_id
                                == sc && self.members@[q].seat == new_seat),
                    decreases n - j,
                {
                    if j != i && self.members[j].subcourse_id == sc && self.members[j].seat
                        == new_seat {
                        proof {
                            assert(seat_held_by_other(self.members@, i as int, new_seat));
                            assert forall|q: int|
                                0 <= q < self.members@.len() && (#[trigger] self.members@[q]).id
                                    == member_id implies q == i as int by {}
                        }
                        return Err(OpError::Conflict(j));
                    }
                    j += 1;
                }
                let m = Student {
                    id: self.members[i].id,
                    stu_id: self.members[i].stu_id.clone(),
                    stu_name: self.members[i].stu_name.clone(),
                    seat: new_seat,
                    subcourse_id: sc,
                };
                proof {
                    assert(m == Student { seat: new_seat, ..old(self).members@[i as int] });
                    assert(!seat_held_by_other(self.members@, i as int, new_seat));
                }
                self.members.set(i, m);
                proof {
                    let pre = old(self).members@;
                    assert forall|q: int| 0 <= q < self.subcourses@.len() implies count_members(
                        self.members@,
                        (#[trigger] self.subcourses@[q]).id,
                    ) <= self.subcourses@[q].stu_limit by {
                        lemma_count_update_same_sub(pre, i as int, m, self.subcourses@[q].id);
                    }
                }
                return Ok(());
            }
            i += 1;
        }
        Err(OpError::NotFound)
    }

    /// The seat the student holds in the subcourse, `NotFound` when
    /// the student has no membership there.
    pub fn get_student_seat(&self, stu_id: &String, subcourse_id: i64) -> (r: Result<i64, OpError>)
        ensures
            r is Ok <==> has_member(self.members@, subcourse_id, stu_id@),
            r matches Ok(seat) ==> exists|i: int|
                {
                    &&& 0 <= i < self.members@.len()
                    &&& (#[trigger] self.members@[i]).subcourse_id == subcourse_id
                    &&& self.members@[i].stu_id@ == stu_id@
                    &&& self.members@[i].seat == seat
                },
            r is Err ==> r == Err::<i64, OpError>(OpError::NotFound),
    {
        match self.find_member_index(subcourse_id, stu_id) {
            Some(i) => Ok(self.members[i].seat),
            None => Err(OpError::NotFound),
        }
    }
}

/// The first membership with the given row id, if any.
pub open spec fn find_member_by_id(s: Seq<Student>, id: i64) -> Option<Student>
    decreases s.len(),
{
    if s.len() == 0 {
        None
    } else if s[0].id == id {
        Some(s[0])
    } else {
        find_member_by_id(s.subrange(1, s.len() as int), id)
    }
}

/// When the first match of `id` stands at index `k`, the lookup
/// returns exactly that entry.
pub proof fn lemma_find_member_by_id_present(s: Seq<Student>, id: i64, k: int)
    requires
        0 <= k < s.len(),
        s[k].id == id,
        forall|j: int| 0 <= j < k ==> (#[trigger] s[j]).id != id,
    ensures
        find_member_by_id(s, id) == Some(s[k]),
    decreases s.len(),
{
    if s[0].id == id {
        assert(k == 0);
    } else {
        lemma_find_member_by_id_present(s.subrange(1, s.len() as int), id, k - 1);
    }
}

/// When no entry carries `id`, the lookup returns nothing.
pub proof fn lemma_find_member_by_id_absent(s: Seq<Student>, id: i64)
    requires
        forall|j: int| 0 <= j < s.len() ==> (#[trigger] s[j]).id != id,
    ensures
        find_member_by_id(s, id) is None,
    decreases s.len(),
{
    if s.len() > 0 {
        lemma_find_member_by_id_absent(s.subrange(1, s.len() as int), id);
    }
}

/// Whether some other membership of the same subcourse as the one at
/// index `i` already holds `seat`.
pub open spec fn seat_held_by_other(members: Seq<Student>, i: int, seat: i64) -> bool {
    exists|j: int|
        0 <= j < members.len() && j != i && (#[trigger] members[j]).subcourse_id
            == members[i].subcourse_id && members[j].seat == seat
}

/// The memberships of one subcourse, in join order.
pub open spec fn members_of_subcourse(s: Seq<Student>, sc: i64) -> Seq<Student>
    decreases s.len(),
{
    if s.len() == 0 {
        Seq::empty()
    } else {
        let rest = members_of_subcourse(s.drop_last(), sc);
        if s.last().subcourse_id == sc {
            rest.push(s.last())
        } else {
            rest
        }
    }
}

/// The subcourses of one semester in which the student holds a
/// membership, in stored order.
pub open spec fn student_subcourses(
    subs: Seq<SubCourse>,
    members: Seq<Student>,
    stu: Seq<char>,
    year_id: i64,
) -> Seq<SubCourse>
    decreases subs.len(),
{
    if subs.len() == 0 {
        Seq::empty()
    } else {
        let rest = student_subcourses(subs.drop_last(), members, stu, year_id);
        if subs.last().year_id == year_id && has_member(members, subs.last().id, stu) {
            rest.push(subs.last())
        } else {
            rest
        }
    }
}

impl GroupStore {
    /// Copies of the memberships of one subcourse — exactly its rows,
    /// nothing else — sorted by seat in ascending order.
    pub fn get_group_by_subcourse_id(&self, subcourse_id: i64) -> (r: Vec<Student>)
        ensures
            r@.to_multiset() == members_of_subcourse(self.members@, subcourse_id).to_multiset(),
            forall|a: int, b: int| 0 <= a < b < r@.len() ==> r@[a].seat <= r@[b].seat,
    {
        let n = self.members.len();
        let mut out: Vec<Student> = Vec::new();
        let mut i: usize = 0;
        proof {
            assert(self.members@.subrange(0, 0) =~= Seq::<Student>::empty());
            assert(out@.to_multiset() =~= Seq::<Student>::empty().to_multiset());
        }
        while i < n
            invariant
                n == self.members@.len(),
                0 <= i <= n,
                out@.to_multiset() == members_of_subcourse(
                    self.members@.subrange(0, i as int),
                    subcourse_id,
                ).to_multiset(),
                forall|a: int, b: int| 0 <= a < b < out@.len() ==> out@[a].seat <= out@[b].seat,
            decreases n - i,
        {
            proof {
                assert(self.members@.subrange(0, i + 1).drop_last() =~= self.members@.subrange(
                    0,
                    i as int,
                ));
                assert(self.members@.subrange(0, i + 1).last() == self.members@[i as int]);
            }
            if self.members[i].subcourse_id == subcourse_id {
                let m = clone_student(&self.members[i]);
                let len = out.len();
                let mut p: usize = 0;
                while p < len && out[p].seat <= m.seat
                    invariant
                        len == out@.len(),
                        0 <= p <= len,
                        forall|q: int| 0 <= q < p ==> (#[trigger] out@[q]).seat <= m.seat,
                    decreases len - p,
                {
                    p += 1;
                }
                let ghost pre = out@;
                proof {
                    vstd::seq_lib::to_multiset_insert(pre, p as int, m);
                    vstd::seq_lib::to_multiset_build(
                        members_of_subcourse(self.members@.subrange(0, i as int), subcourse_id),
                        self.members@[i as int],
                    );
                }
                out.insert(p, m);
                proof {
                    assert forall|a: int, b: int|
                        0 <= a < b < out@.len() implies out@[a].seat <= out@[b].seat by {
                        if b < p as int {
                            assert(out@[a] == pre[a] && out@[b] == pre[b]);
                        } else if a < p as int && b == p as int {
                            assert(out@[a] == pre[a] && out@[b] == m);
                        } else if a < p as int && b > p as int {
                            assert(out@[a] == pre[a] && out@[b] == pre[b - 1]);
                        } else if a == p as int && b > p as int {
                            assert(out@[b] == pre[b - 1]);
                            assert(pre[p as int].seat > m.seat);
                        } else {
                            assert(out@[a] == pre[a - 1] && out@[b] == pre[b - 1]);
                        }
                    }
                }
            }
            i += 1;
        }
        proof {
            assert(self.members@.subrange(0, n as int) =~= self.members@);
        }
        out
    }

    /// A copy of the membership with the given row id.
    pub fn get_student_by_group_id(&self, group_id: i64) -> (r: Result<Student, OpError>)
        ensures
            r == match find_member_by_id(self.members@, group_id) {
                Some(m) => Ok::<Student, OpError>(m),
                None => Err::<Student, OpError>(OpError::NotFound),
            },
    {
        let n = self.members.len();
        let mut i: usize = 0;
        while i < n
            invariant
                n == self.members@.len(),
                0 <= i <= n,
                forall|j: int| 0 <= j < i ==> (#[trigger] self.members@[j]).id != group_id,
            decreases n - i,
        {
            if self.members[i].id == group_id {
                proof {
                    lemma_find_member_by_id_present(self.members@, group_id, i as int);
                }
                return Ok(clone_student(&self.members[i]));
            }
            i += 1;
        }
        proof {
            lemma_find_member_by_id_absent(self.members@, group_id);
        }
        Err(OpError::NotFound)
    }

    /// Copies of the subcourses of one semester in which the student
    /// holds a membership, in stored order.
    pub fn list_student_subcourses(&self, stu_id: &String, year_id: i64) -> (r: Vec<SubCourse>)
        ensures
            r@ == student_subcourses(self.subcourses@, self.members@, stu_id@, year_id),
    {
        let n = self.subcourses.len();
        let mut out: Vec<SubCourse> = Vec::new();
        let mut i: usize = 0;
        proof {
            assert(self.subcourses@.subrange(0, 0) =~= Seq::<SubCourse>::empty());
        }
        while i < n
            invariant
                n == self.subcourses@.len(),
                0 <= i <= n,
                out@ == student_subcourses(
                    self.subcourses@.subrange(0, i as int),
                    self.members@,
                    stu_id@,
                    year_id,
                ),
            decreases n - i,
        {
            proof {
                assert(self.subcourses@.subrange(0, i + 1).drop_last() =~= self.subcourses@
                    .subrange(0, i as int));
                assert(self.subcourses@.subrange(0, i + 1).last() == self.subcourses@[i as int]);
            }
            if self.subcourses[i].year_id == year_id && self.find_member_index(
                self.subcourses[i].id,
                stu_id,
            ).is_some() {
                out.push(clone_subcourse(&self.subcourses[i]));
            }
            i += 1;
        }
        proof {
            assert(self.subcourses@.subrange(0, n as int) =~= self.subcourses@);
        }
        out
    }
}

/// The subcourses a listing query selects: without a course filter
/// nothing is listed; with one, the course's subcourses, narrowed to
/// one semester when that filter is present too.
pub open spec fn subcourses_of_query(
    subs: Seq<SubCourse>,
    course_id: Option<i64>,
    semester_id: Option<i64>,
) -> Seq<SubCourse>
    decreases subs.len(),
{
    match course_id {
        None => Seq::empty(),
        Some(c) => if subs.len() == 0 {
            Seq::empty()
        } else {
            let rest = subcourses_of_query(subs.drop_last(), course_id, semester_id);
            let keep = subs.last().course_id == c && match semester_id {
                None => true,
                Some(y) => subs.last().year_id == y,
            };
            if keep {
                rest.push(subs.last())
            } else {
                rest
            }
        },
    }
}

impl GroupStore {
    /// Copies of the subcourses a listing query selects, in stored
    /// order.
    pub fn list_subcourses(&self, query: &SubcourseQuery) -> (r: Vec<SubCourse>)
        ensures
            r@ == subcourses_of_query(self.subcourses@, query.course_id, query.semester_id),
    {
        let mut out: Vec<SubCourse> = Vec::new();
        let c = match query.course_id {
            Some(c) => c,
            None => {
                return out;
            },
        };
        let n = self.subcourses.len();
        let mut i: usize = 0;
        proof {
            assert(self.subcourses@.subrange(0, 0) =~= Seq::<SubCourse>::empty());
        }
        while i < n
            invariant
                query.course_id == Some(c),
                n == self.subcourses@.len(),
                0 <= i <= n,
                out@ == subcourses_of_query(
                    self.subcourses@.subrange(0, i as int),
                    query.course_id,
                    query.semester_id,
                ),
            decreases n - i,
        {
            proof {
                assert(self.subcourses@.subrange(0, i + 1).drop_last() =~= self.subcourses@
                    .subrange(0, i as int));
                assert(self.subcourses@.subrange(0, i + 1).last() == self.subcourses@[i as int]);
            }
            let keep = self.subcourses[i].course_id == c && match query.semester_id {
                None => true,
                Some(y) => self.subcourses[i].year_id == y,
            };
            if keep {
                out.push(clone_subcourse(&self.subcourses[i]));
            }
            i += 1;
        }
        proof {
            assert(self.subcourses@.subrange(0, n as int) =~= self.subcourses@);
        }
        out
    }

    /// The recorded name of the student's membership in the
    /// subcourse, `NotFound` when there is none.
    pub fn get_student_name(&self, stu_id: &String, subcourse_id: i64) -> (r: Result<
        String,
        OpError,
    >)
        ensures
            r is Ok <==> has_member(self.members@, subcourse_id, stu_id@),
            r matches Ok(name) ==> exists|i: int|
                {
                    &&& 0 <= i < self.members@.len()
                    &&& (#[trigger] self.members@[i]).subcourse_id == subcourse_id
                    &&& self.members@[i].stu_id@ == stu_id@
                    &&& name@ == self.members@[i].stu_name@
                },
            r is Err ==> r == Err::<String, OpError>(OpError::NotFound),
    {
        match self.find_member_index(subcourse_id, stu_id) {
            Some(i) => Ok(self.members[i].stu_name.clone()),
            None => Err(OpError::NotFound),
        }
    }
}

/// The subcourses of one semester taught by one teacher, in stored
/// order.
pub open spec fn teacher_subcourses(
    subs: Seq<SubCourse>,
    tea: Seq<char>,
    year_id: i64,
) -> Seq<SubCourse>
    decreases subs.len(),
{
    if subs.len() == 0 {
        Seq::empty()
    } else {
        let rest = teacher_subcourses(subs.drop_last(), tea, year_id);
        if subs.last().year_id == year_id && subs.last().tea_id@ == tea {
            rest.push(subs.last())
        } else {
            rest
        }
    }
}

impl GroupStore {
    /// Copies of the subcourses of one semester taught by the given
    /// teacher, in stored order.
    pub fn list_teacher_subcourses(&self, tea_id: &String, year_id: i64) -> (r: Vec<SubCourse>)
        ensures
            r@ == teacher_subcourses(self.subcourses@, tea_id@, year_id),
    {
        let n = self.subcourses.len();
        let mut out: Vec<SubCourse> = Vec::new();
        let mut i: usize = 0;
        proof {
            assert(self.subcourses@.subrange(0, 0) =~= Seq::<SubCourse>::empty());
        }
        while i < n
            invariant
                n == self.subcourses@.len(),
                0 <= i <= n,
                out@ == teacher_subcourses(
                    self.subcourses@.subrange(0, i as int),
                    tea_id@,
                    year_id,
                ),
            decreases n - i,
        {
            proof {
                assert(self.subcourses@.subrange(0, i + 1).drop_last() =~= self.subcourses@
                    .subrange(0, i as int));
                assert(self.subcourses@.subrange(0, i + 1).last() == self.subcourses@[i as int]);
            }
            if self.subcourses[i].year_id == year_id && self.subcourses[i].tea_id == *tea_id {
                out.push(clone_subcourse(&self.subcourses[i]));
            }
            i += 1;
        }
        proof {
            assert(self.subcourses@.subrange(0, n as int) =~= self.subcourses@);
        }
        out
    }
}

/// An exact copy of a decorated subcourse record.
pub fn clone_subcourse_with_name(s: &SubCourseWithName) -> (r: SubCourseWithName)
    ensures
        r == *s,
{
    SubCourseWithName {
        id: s.id,
        weekday: s.weekday,
        room_name: s.room_name.clone(),
        tea_name: s.tea_name.clone(),
        tea_id: s.tea_id.clone(),
        year_id: s.year_id,
        stu_limit: s.stu_limit,
        course_id: s.course_id,
        lag_week: s.lag_week,
        course_name: s.course_name.clone(),
    }
}

/// Blanks the teacher identity of every listed decorated subcourse
/// unless the caller holds the teacher role.
pub fn redact_tea_ids_with_name(subs: &mut Vec<SubCourseWithName>, permission: i64)
    ensures
        passes_mask(permission, PERMISSION_TEACHER) ==> final(subs)@ == old(subs)@,
        !passes_mask(permission, PERMISSION_TEACHER) ==> {
            &&& final(subs)@.len() == old(subs)@.len()
            &&& forall|i: int|
                0 <= i < old(subs)@.len() ==> {
                    &&& (#[trigger] final(subs)@[i]).tea_id@ == Seq::<char>::empty()
                    &&& final(subs)@[i].id == old(subs)@[i].id
                    &&& final(subs)@[i].weekday == old(subs)@[i].weekday
                    &&& final(subs)@[i].room_name == old(subs)@[i].room_name
                    &&& final(subs)@[i].tea_name == old(subs)@[i].tea_name
                    &&& final(subs)@[i].year_id == old(subs)@[i].year_id
                    &&& final(subs)@[i].stu_limit == old(subs)@[i].stu_limit
                    &&& final(subs)@[i].course_id == old(subs)@[i].course_id
                    &&& final(subs)@[i].lag_week == old(subs)@[i].lag_week
                    &&& final(subs)@[i].course_name == old(subs)@[i].course_name
                }
        },
{
    if permission & PERMISSION_TEACHER != 0 {
        return ;
    }
    let n = subs.len();
    let mut i: usize = 0;
    while i < n
        invariant
            n == subs@.len(),
            subs@.len() == old(subs)@.len(),
            0 <= i <= n,
            forall|j: int| i <= j < n ==> subs@[j] == (#[trigger] old(subs)@[j]),
            forall|j: int|
                0 <= j < i ==> {
                    &&& (#[trigger] subs@[j]).tea_id@ == Seq::<char>::empty()
                    &&& subs@[j].id == old(subs)@[j].id
                    &&& subs@[j].weekday == old(subs)@[j].weekday
                    &&& subs@[j].room_name == old(subs)@[j].room_name
                    &&& subs@[j].tea_name == old(subs)@[j].tea_name
                    &&& subs@[j].year_id == old(subs)@[j].year_id
                    &&& subs@[j].stu_limit == old(subs)@[j].stu_limit
                    &&& subs@[j].course_id == old(subs)@[j].course_id
                    &&& subs@[j].lag_week == old(subs)@[j].lag_week
                    &&& subs@[j].course_name == old(subs)@[j].course_name
                },
        decreases n - i,
    {
        let mut s = clone_subcourse_with_name(&subs[i]);
        s.tea_id = String::new();
        subs.set(i, s);
        i += 1;
    }
}

/// Blanks the teacher identity of every listed subcourse unless the
/// caller holds the teacher role, so that listings do not leak it.
pub fn redact_tea_ids(subs: &mut Vec<SubCourse>, permission: i64)
    ensures
        passes_mask(permission, PERMISSION_TEACHER) ==> final(subs)@ == old(subs)@,
        !passes_mask(permission, PERMISSION_TEACHER) ==> {
            &&& final(subs)@.len() == old(subs)@.len()
            &&& forall|i: int|
                0 <= i < old(subs)@.len() ==> {
                    &&& (#[trigger] final(subs)@[i]).tea_id@ == Seq::<char>::empty()
                    &&& final(subs)@[i].id == old(subs)@[i].id
                    &&& final(subs)@[i].weekday == old(subs)@[i].weekday
                    &&& final(subs)@[i].room_id == old(subs)@[i].room_id
                    &&& final(subs)@[i].tea_name == old(subs)@[i].tea_name
                    &&& final(subs)@[i].year_id == old(subs)@[i].year_id
                    &&& final(subs)@[i].stu_limit == old(subs)@[i].stu_limit
                    &&& final(subs)@[i].course_id == old(subs)@[i].course_id
                    &&& final(subs)@[i].lag_week == old(subs)@[i].lag_week
                }
        },
{
    if permission & PERMISSION_TEACHER != 0 {
        return ;
    }
    let n = subs.len();
    let mut i: usize = 0;
    while i < n
        invariant
            n == subs@.len(),
            subs@.len() == old(subs)@.len(),
            0 <= i <= n,
            forall|j: int| i <= j < n ==> subs@[j] == (#[trigger] old(subs)@[j]),
            forall|j: int|
                0 <= j < i ==> {
                    &&& (#[trigger] subs@[j]).tea_id@ == Seq::<char>::empty()
                    &&& subs@[j].id == old(subs)@[j].id
                    &&& subs@[j].weekday == old(subs)@[j].weekday
                    &&& subs@[j].room_id == old(subs)@[j].room_id
                    &&& subs@[j].tea_name == old(subs)@[j].tea_name
                    &&& subs@[j].year_id == old(subs)@[j].year_id
                    &&& subs@[j].stu_limit == old(subs)@[j].stu_limit
                    &&& subs@[j].course_id == old(subs)@[j].course_id
                    &&& subs@[j].lag_week == old(subs)@[j].lag_week
                },
        decreases n - i,
    {
        let mut s = clone_subcourse(&subs[i]);
        s.tea_id = String::new();
        subs.set(i, s);
        i += 1;
    }
}

/// Law: in a well-formed store, the member count of every subcourse
/// never exceeds that subcourse's seat limit.
pub proof fn lemma_capacity_invariant(store: GroupStore, k: int)
    requires
        store.wf(),
        0 <= k < store.subcourses@.len(),
    ensures
        count_members(store.members@, store.subcourses@[k].id) <= store.subcourses@[k].stu_limit,
{
}

/// Law: in a well-formed store, no two memberships of one subcourse
/// share a seat number.
pub proof fn lemma_seat_uniqueness(store: GroupStore, i: int, j: int)
    requires
        store.wf(),
        0 <= i < store.members@.len(),
        0 <= j < store.members@.len(),
        i != j,
        store.members@[i].subcourse_id == store.members@[j].subcourse_id,
    ensures
        store.members@[i].seat != store.members@[j].seat,
{
}

/// Law: in a well-formed store, a student holds at most one
/// membership per subcourse.
pub proof fn lemma_membership_uniqueness(store: GroupStore, i: int, j: int)
    requires
        store.wf(),
        0 <= i < store.members@.len(),
        0 <= j < store.members@.len(),
        i != j,
        store.members@[i].subcourse_id == store.members@[j].subcourse_id,
    ensures
        store.members@[i].stu_id@ != store.members@[j].stu_id@,
{
}

} // verus!
