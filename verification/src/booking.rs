//! The booking conflict checker and the agenda store.
//!
//! Two agendas conflict iff they target the same room, are not the
//! same agenda, their time-of-day intervals overlap, and they occupy a
//! common date: two one-off agendas occupy the same date iff their
//! dates are equal, while any pairing that involves a recurring agenda
//! occupies a common date iff the weekdays match (a recurring agenda's
//! own date only anchors its weekday).
//!
//! The check runs before every insert and before every update; a
//! benign race between two near-simultaneous checks is an accepted
//! limitation of the modelled design, unlike seat allocation.

use vstd::prelude::*;
use crate::OpError;
use crate::calendar::{day_number_of, resolve_ymd, valid_ymd, weekday_index_of};
use crate::models::MeetingAgenda;
use crate::perm::{passes_mask, PERMISSION_MEETING_MANAGER};

verus! {

/// Whether the half-open intervals `[start, end)` of the two agendas
/// overlap.
pub open spec fn times_overlap(a: MeetingAgenda, b: MeetingAgenda) -> bool {
    a.start_time < b.end_time && a.end_time > b.start_time
}

/// Whether the two agendas occupy a common date: equal dates when both
/// are one-off, equal weekdays as soon as either recurs.
pub open spec fn same_occupied_date(a: MeetingAgenda, b: MeetingAgenda) -> bool {
    if !a.repeat && !b.repeat {
        a.date == b.date
    } else {
        a.weekday == b.weekday
    }
}

/// The conflict relation between two agendas.
pub open spec fn conflicts(a: MeetingAgenda, b: MeetingAgenda) -> bool {
    &&& a.room_id == b.room_id
    &&& a.id != b.id
    &&& same_occupied_date(a, b)
    &&& times_overlap(a, b)
}

/// Law: the conflict relation is symmetric — whichever of the two
/// agendas is taken as the candidate, the verdict is the same.
pub proof fn lemma_conflict_symmetric(a: MeetingAgenda, b: MeetingAgenda)
    ensures
        conflicts(a, b) == conflicts(b, a),
{
}

/// The first agenda with the given id, if any.
pub open spec fn find_agenda(s: Seq<MeetingAgenda>, id: i64) -> Option<MeetingAgenda>
    decreases s.len(),
{
    if s.len() == 0 {
        None
    } else if s[0].id == id {
        Some(s[0])
    } else {
        find_agenda(s.subrange(1, s.len() as int), id)
    }
}

/// When the first match of `id` stands at index `k`, the lookup
/// returns exactly that entry.
pub proof fn lemma_find_agenda_present(s: Seq<MeetingAgenda>, id: i64, k: int)
    requires
        0 <= k < s.len(),
        s[k].id == id,
        forall|j: int| 0 <= j < k ==> (#[trigger] s[j]).id != id,
    ensures
        find_agenda(s, id) == Some(s[k]),
    decreases s.len(),
{
    if s[0].id == id {
        assert(k == 0);
    } else {
        lemma_find_agenda_present(s.subrange(1, s.len() as int), id, k - 1);
    }
}

/// When no entry carries `id`, the lookup returns nothing.
pub proof fn lemma_find_agenda_absent(s: Seq<MeetingAgenda>, id: i64)
    requires
        forall|j: int| 0 <= j < s.len() ==> (#[trigger] s[j]).id != id,
    ensures
        find_agenda(s, id) is None,
    decreases s.len(),
{
    if s.len() > 0 {
        lemma_find_agenda_absent(s.subrange(1, s.len() as int), id);
    }
}

/// The agendas of one room, in stored order.
pub open spec fn agendas_of_room(s: Seq<MeetingAgenda>, room_id: i64) -> Seq<MeetingAgenda>
    decreases s.len(),
{
    if s.len() == 0 {
        Seq::empty()
    } else {
        let rest = agendas_of_room(s.drop_last(), room_id);
        if s.last().room_id == room_id {
            rest.push(s.last())
        } else {
            rest
        }
    }
}

/// An exact copy of an agenda record.
pub fn clone_agenda(a: &MeetingAgenda) -> (r: MeetingAgenda)
    ensures
        r == *a,
{
    MeetingAgenda {
        id: a.id,
        title: a.title.clone(),
        userid: a.userid.clone(),
        username: a.username.clone(),
        repeat: a.repeat,
        date: a.date,
        weekday: a.weekday,
        start_time: a.start_time,
        end_time: a.end_time,
        room_id: a.room_id,
        confirm: a.confirm,
    }
}

/// Scans the agendas for the first one that conflicts with the
/// candidate, and returns its index.
pub fn check_meeting_conflict(agendas: &Vec<MeetingAgenda>, candidate: &MeetingAgenda) -> (r:
    Option<usize>)
    ensures
        match r {
            Some(i) => {
                &&& i < agendas@.len()
                &&& conflicts(*candidate, agendas@[i as int])
                &&& forall|j: int| 0 <= j < i ==> !conflicts(*candidate, #[trigger] agendas@[j])
            },
            None => forall|j: int|
                0 <= j < agendas@.len() ==> !conflicts(*candidate, #[trigger] agendas@[j]),
        },
{
    let n = agendas.len();
    let mut i: usize = 0;
    while i < n
        invariant
            n == agendas@.len(),
            0 <= i <= n,
            forall|j: int| 0 <= j < i ==> !conflicts(*candidate, #[trigger] agendas@[j]),
        decreases n - i,
    {
        let a = &agendas[i];
        if a.room_id == candidate.room_id && a.id != candidate.id {
            let same_date = if !candidate.repeat && !a.repeat {
                candidate.date == a.date
            } else {
                candidate.weekday == a.weekday
            };
            if same_date && candidate.start_time < a.end_time && candidate.end_time > a.start_time {
                return Some(i);
            }
        }
        i += 1;
    }
    None
}

/// Builds an agenda request from a calendar date, resolving the day
/// number and the weekday.  A date that does not exist on the
/// calendar is rejected as `Invalid`.  The id is left at 0 (the store
/// assigns one on booking) and the record starts unconfirmed.
pub fn agenda_from_ymd(
    title: &String,
    userid: &String,
    username: &String,
    repeat: bool,
    year: i32,
    month: u32,
    day: u32,
    start_time: i64,
    end_time: i64,
    room_id: i64,
) -> (r: Result<MeetingAgenda, OpError>)
    ensures
        r is Ok <==> valid_ymd(year as int, month as int, day as int),
        r is Err ==> r == Err::<MeetingAgenda, OpError>(OpError::Invalid),
        r matches Ok(a) ==> {
            &&& a.id == 0
            &&& a.title@ == title@
            &&& a.userid@ == userid@
            &&& a.username@ == username@
            &&& a.repeat == repeat
            &&& a.date == day_number_of(year as int, month as int, day as int)
            &&& a.weekday == weekday_index_of(year as int, month as int, day as int)
            &&& a.weekday < 7
            &&& a.start_time == start_time
            &&& a.end_time == end_time
            &&& a.room_id == room_id
            &&& !a.confirm
        },
{
    match resolve_ymd(year, month, day) {
        None => Err(OpError::Invalid),
        Some((date, weekday)) => Ok(
            MeetingAgenda {
                id: 0,
                title: title.clone(),
                userid: userid.clone(),
                username: username.clone(),
                repeat,
                date,
                weekday,
                start_time,
                end_time,
                room_id,
                confirm: false,
            },
        ),
    }
}

/// A new agenda is confirmed from the start iff its creator holds the
/// meeting-manager role; anyone else waits for approval.
pub fn initial_confirm(permission: i64) -> (r: bool)
    ensures
        r == passes_mask(permission, PERMISSION_MEETING_MANAGER),
{
    permission & PERMISSION_MEETING_MANAGER != 0
}

/// The agenda book of all rooms.
pub struct BookingBook {
    pub agendas: Vec<MeetingAgenda>,
    pub next_id: i64,
}

impl BookingBook {
    /// Well-formedness: unique agenda ids below the id counter, and
    /// every weekday a valid index.
    pub open spec fn wf(&self) -> bool {
        &&& self.next_id >= 1
        &&& forall|i: int|
            0 <= i < self.agendas@.len() ==> 1 <= (#[trigger] self.agendas@[i]).id < self.next_id
        &&& forall|i: int, j: int|
            0 <= i < j < self.agendas@.len() ==> (#[trigger] self.agendas@[i]).id != (
            #[trigger] self.agendas@[j]).id
        &&& forall|i: int| 0 <= i < self.agendas@.len() ==> (#[trigger] self.agendas@[i]).weekday < 7
    }

    /// An empty book.
    pub fn new() -> (r: Self)
        ensures
            r.wf(),
            r.agendas@.len() == 0,
            r.next_id == 1,
    {
        BookingBook { agendas: Vec::new(), next_id: 1 }
    }

    /// Books an agenda under a fresh id, which is returned.  The
    /// record is stored as requested except that the id is assigned
    /// here and the confirmation flag is derived from the creator's
    /// permission value.  The first conflicting existing agenda, if
    /// any, rejects the booking as `Conflict` carrying its index.
    pub fn add_meeting_agenda(&mut self, req: MeetingAgenda, permission: i64) -> (r: Result<
        i64,
        OpError,
    >)
        requires
            old(self).wf(),
            req.weekday < 7,
        ensures
            final(self).wf(),
            r is Err ==> *final(self) == *old(self),
            ({
                let candidate = MeetingAgenda {
                    id: old(self).next_id,
                    confirm: passes_mask(permission, PERMISSION_MEETING_MANAGER),
                    ..req
                };
                match r {
                    Ok(id) => {
                        &&& id == old(self).next_id
                        &&& final(self).agendas@ == old(self).agendas@.push(candidate)
                        &&& final(self).next_id == old(self).next_id + 1
                        &&& forall|j: int|
                            0 <= j < old(self).agendas@.len() ==> !conflicts(
                                candidate,
                                #[trigger] old(self).agendas@[j],
                            )
                    },
                    Err(OpError::Conflict(i)) => {
                        &&& i < old(self).agendas@.len()
                        &&& conflicts(candidate, old(self).agendas@[i as int])
                        &&& forall|j: int|
                            0 <= j < i ==> !conflicts(candidate, #[trigger] old(self).agendas@[j])
                    },
                    Err(OpError::Invalid) => old(self).next_id == i64::MAX,
                    _ => false,
                }
            }),
    {
        if self.next_id == i64::MAX {
            return Err(OpError::Invalid);
        }
        let confirm = initial_confirm(permission);
        let candidate = MeetingAgenda { id: self.next_id, confirm, ..req };
        if let Some(i) = check_meeting_conflict(&self.agendas, &candidate) {
            return Err(OpError::Conflict(i));
        }
        self.agendas.push(candidate);
        self.next_id = self.next_id + 1;
        Ok(self.next_id - 1)
    }

    /// Replaces the agenda with the given id by the requested record
    /// (the id is kept), after re-checking conflicts against every
    /// other agenda — the stored entry itself is excluded from the
    /// check by its id.
    pub fn update_meeting_agenda(&mut self, id: i64, req: MeetingAgenda) -> (r: Result<
        (),
        OpError,
    >)
        requires
            old(self).wf(),
            req.weekday < 7,
        ensures
            final(self).wf(),
            r is Err ==> *final(self) == *old(self),
            ({
                let candidate = MeetingAgenda { id, ..req };
                match r {
                    Ok(()) => exists|k: int|
                        {
                            &&& 0 <= k < old(self).agendas@.len()
                            &&& (#[trigger] old(self).agendas@[k]).id == id
                            &&& final(self).agendas@ == old(self).agendas@.update(k, candidate)
                            &&& forall|j: int|
                                0 <= j < old(self).agendas@.len() ==> !conflicts(
                                    candidate,
                                    #[trigger] old(self).agendas@[j],
                                )
                        },
                    Err(OpError::NotFound) => find_agenda(old(self).agendas@, id) is None,
                    Err(OpError::Conflict(i)) => {
                        &&& i < old(self).agendas@.len()
                        &&& conflicts(candidate, old(self).agendas@[i as int])
                        &&& forall|j: int|
                            0 <= j < i ==> !conflicts(candidate, #[trigger] old(self).agendas@[j])
                    },
                    _ => false,
                }
            }),
            final(self).next_id == old(self).next_id,
    {
        let n = self.agendas.len();
        let mut k: usize = 0;
        while k < n
            invariant
                *self == *old(self),
                old(self).wf(),
                req.weekday < 7,
                n == self.agendas@.len(),
                0 <= k <= n,
                forall|j: int| 0 <= j < k ==> (#[trigger] self.agendas@[j]).id != id,
            decreases n - k,
        {
            if self.agendas[k].id == id {
                let candidate = MeetingAgenda { id, ..req };
                if let Some(i) = check_meeting_conflict(&self.agendas, &candidate) {
                    return Err(OpError::Conflict(i));
                }
                self.agendas.set(k, candidate);
                return Ok(());
            }
            k += 1;
        }
        proof {
            lemma_find_agenda_absent(self.agendas@, id);
        }
        Err(OpError::NotFound)
    }

    /// Marks the agenda with the given id as confirmed; only its
    /// confirmation flag changes.
    pub fn confirm_meeting_agenda(&mut self, id: i64) -> (r: Result<(), OpError>)
        requires
            old(self).wf(),
        ensures
            final(self).wf(),
            final(self).next_id == old(self).next_id,
            r is Err ==> *final(self) == *old(self) && r == Err::<(), OpError>(OpError::NotFound)
                && find_agenda(old(self).agendas@, id) is None,
            r is Ok ==> exists|k: int|
                {
                    &&& 0 <= k < old(self).agendas@.len()
                    &&& (#[trigger] old(self).agendas@[k]).id == id
                    &&& final(self).agendas@ == old(self).agendas@.update(
                        k,
                        MeetingAgenda { confirm: true, ..old(self).agendas@[k] },
                    )
                },
    {
        let n = self.agendas.len();
        let mut k: usize = 0;
        while k < n
            invariant
                *self == *old(self),
                old(self).wf(),
                n == self.agendas@.len(),
                0 <= k <= n,
                forall|j: int| 0 <= j < k ==> (#[trigger] self.agendas@[j]).id != id,
            decreases n - k,
        {
            if self.agendas[k].id == id {
                let mut a = clone_agenda(&self.agendas[k]);
                a.confirm = true;
                self.agendas.set(k, a);
                return Ok(());
            }
            k += 1;
        }
        proof {
            lemma_find_agenda_absent(self.agendas@, id);
        }
        Err(OpError::NotFound)
    }

    /// Removes the agenda with the given id; reports whether one was
    /// removed.
    pub fn delete_meeting_agenda(&mut self, id: i64) -> (r: bool)
        requires
            old(self).wf(),
        ensures
            final(self).wf(),
            final(self).next_id == old(self).next_id,
            !r ==> *final(self) == *old(self) && find_agenda(old(self).agendas@, id) is None,
            r ==> exists|k: int|
                {
                    &&& 0 <= k < old(self).agendas@.len()
                    &&& (#[trigger] old(self).agendas@[k]).id == id
                    &&& final(self).agendas@ == old(self).agendas@.remove(k)
                },
    {
        let n = self.agendas.len();
        let mut k: usize = 0;
        while k < n
            invariant
                *self == *old(self),
                old(self).wf(),
                n == self.agendas@.len(),
                0 <= k <= n,
                forall|j: int| 0 <= j < k ==> (#[trigger] self.agendas@[j]).id != id,
            decreases n - k,
        {
            if self.agendas[k].id == id {
                self.agendas.remove(k);
                proof {
                    let pre = old(self).agendas@;
                    assert forall|q: int| 0 <= q < self.agendas@.len() implies (
                    #[trigger] self.agendas@[q]) == (if q < k {
                        pre[q]
                    } else {
                        pre[q + 1]
                    }) by {}
                }
                return true;
            }
            k += 1;
        }
        proof {
            lemma_find_agenda_absent(self.agendas@, id);
        }
        false
    }

    /// A copy of the agenda with the given id.
    pub fn get_meeting_agenda_by_id(&self, id: i64) -> (r: Result<MeetingAgenda, OpError>)
        ensures
            r == match find_agenda(self.agendas@, id) {
                Some(a) => Ok::<MeetingAgenda, OpError>(a),
                None => Err::<MeetingAgenda, OpError>(OpError::NotFound),
            },
    {
        let n = self.agendas.len();
        let mut k: usize = 0;
        while k < n
            invariant
                n == self.agendas@.len(),
                0 <= k <= n,
                forall|j: int| 0 <= j < k ==> (#[trigger] self.agendas@[j]).id != id,
            decreases n - k,
        {
            if self.agendas[k].id == id {
                proof {
                    lemma_find_agenda_present(self.agendas@, id, k as int);
                }
                return Ok(clone_agenda(&self.agendas[k]));
            }
            k += 1;
        }
        proof {
            lemma_find_agenda_absent(self.agendas@, id);
        }
        Err(OpError::NotFound)
    }

    /// Copies of all agendas of one room, in stored order.
    pub fn list_meeting_agendas(&self, room_id: i64) -> (r: Vec<MeetingAgenda>)
        ensures
            r@ == agendas_of_room(self.agendas@, room_id),
    {
        let n = self.agendas.len();
        let mut out: Vec<MeetingAgenda> = Vec::new();
        let mut i: usize = 0;
        proof {
            assert(self.agendas@.subrange(0, 0) =~= Seq::<MeetingAgenda>::empty());
        }
        while i < n
            invariant
                n == self.agendas@.len(),
                0 <= i <= n,
                out@ == agendas_of_room(self.agendas@.subrange(0, i as int), room_id),
            decreases n - i,
        {
            proof {
                assert(self.agendas@.subrange(0, i + 1).drop_last() =~= self.agendas@.subrange(
                    0,
                    i as int,
                ));
                assert(self.agendas@.subrange(0, i + 1).last() == self.agendas@[i as int]);
            }
            if self.agendas[i].room_id == room_id {
                out.push(clone_agenda(&self.agendas[i]));
            }
            i += 1;
        }
        proof {
            assert(self.agendas@.subrange(0, n as int) =~= self.agendas@);
        }
        out
    }
}

} // verus!
