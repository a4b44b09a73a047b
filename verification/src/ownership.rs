//! Resource-ownership checks: the finer-grained authorization layer
//! that runs inside specific operations once the coarse role gate of
//! [`crate::perm`] has passed.
//!
//! Each check is a pure decision over the caller's principal (identity
//! and permission value) and the already-fetched target record; a
//! missing target is reported as `NotFound` before any ownership
//! comparison.  None of these functions mutates anything.

use vstd::prelude::*;
use crate::OpError;
use crate::models::{Course, Equipment, MeetingAgenda, StudentTimeline, SubCourse};
use crate::perm::{passes_mask, PERMISSION_ADMIN, PERMISSION_MEETING_MANAGER, PERMISSION_TEACHER};

verus! {

/// Decision for course-scoped mutations: pass iff Admin, or a Teacher
/// whose identity is the course's recorded teacher.
pub open spec fn course_perm_outcome(
    permission: i64,
    user_id: Seq<char>,
    course: Option<Course>,
) -> Result<(), OpError> {
    if passes_mask(permission, PERMISSION_ADMIN) {
        Ok(())
    } else {
        match course {
            None => Err(OpError::NotFound),
            Some(c) => if passes_mask(permission, PERMISSION_TEACHER) && user_id == c.tea_id@ {
                Ok(())
            } else {
                Err(OpError::Forbidden)
            },
        }
    }
}

/// Course-scoped ownership check; see [`course_perm_outcome`].
pub fn check_course_perm(permission: i64, user_id: &String, course: Option<&Course>) -> (r: Result<
    (),
    OpError,
>)
    ensures
        r == course_perm_outcome(
            permission,
            user_id@,
            match course {
                Some(c) => Some(*c),
                None => None,
            },
        ),
{
    if permission & PERMISSION_ADMIN != 0 {
        return Ok(());
    }
    match course {
        None => Err(OpError::NotFound),
        Some(c) => {
            if permission & PERMISSION_TEACHER != 0 && *user_id == c.tea_id {
                Ok(())
            } else {
                Err(OpError::Forbidden)
            }
        },
    }
}

/// Decision for subcourse-scoped mutations (roster edits, seat
/// reassignment): as the course rule, with the subcourse's teacher.
pub open spec fn subcourse_perm_outcome(
    permission: i64,
    user_id: Seq<char>,
    subcourse: Option<SubCourse>,
) -> Result<(), OpError> {
    if passes_mask(permission, PERMISSION_ADMIN) {
        Ok(())
    } else {
        match subcourse {
            None => Err(OpError::NotFound),
            Some(s) => if passes_mask(permission, PERMISSION_TEACHER) && user_id == s.tea_id@ {
                Ok(())
            } else {
                Err(OpError::Forbidden)
            },
        }
    }
}

/// Subcourse-scoped ownership check; see [`subcourse_perm_outcome`].
pub fn check_subcourse_perm(
    permission: i64,
    user_id: &String,
    subcourse: Option<&SubCourse>,
) -> (r: Result<(), OpError>)
    ensures
        r == subcourse_perm_outcome(
            permission,
            user_id@,
            match subcourse {
                Some(s) => Some(*s),
                None => None,
            },
        ),
{
    if permission & PERMISSION_ADMIN != 0 {
        return Ok(());
    }
    match subcourse {
        None => Err(OpError::NotFound),
        Some(s) => {
            if permission & PERMISSION_TEACHER != 0 && *user_id == s.tea_id {
                Ok(())
            } else {
                Err(OpError::Forbidden)
            }
        },
    }
}

/// Decision for equipment edits: strictly the recorded owner — no
/// teacher or admin exception.
pub open spec fn equip_perm_outcome(user_id: Seq<char>, equipment: Option<Equipment>) -> Result<
    (),
    OpError,
> {
    match equipment {
        None => Err(OpError::NotFound),
        Some(e) => if user_id == e.owner_id@ {
            Ok(())
        } else {
            Err(OpError::Forbidden)
        },
    }
}

/// Equipment ownership check; see [`equip_perm_outcome`].
pub fn check_equip_perm(user_id: &String, equipment: Option<&Equipment>) -> (r: Result<
    (),
    OpError,
>)
    ensures
        r == equip_perm_outcome(
            user_id@,
            match equipment {
                Some(e) => Some(*e),
                None => None,
            },
        ),
{
    match equipment {
        None => Err(OpError::NotFound),
        Some(e) => {
            if *user_id == e.owner_id {
                Ok(())
            } else {
                Err(OpError::Forbidden)
            }
        },
    }
}

/// Decision for meeting-agenda edits: Admin or MeetingManager always
/// pass; otherwise only the creator, and only while the agenda is not
/// yet confirmed — confirmation moves the agenda into a protected
/// state that the creator can no longer edit.
pub open spec fn meeting_perm_outcome(
    permission: i64,
    user_id: Seq<char>,
    agenda: Option<MeetingAgenda>,
) -> Result<(), OpError> {
    if passes_mask(permission, PERMISSION_MEETING_MANAGER | PERMISSION_ADMIN) {
        Ok(())
    } else {
        match agenda {
            None => Err(OpError::NotFound),
            Some(a) => if !a.confirm && user_id == a.userid@ {
                Ok(())
            } else {
                Err(OpError::Forbidden)
            },
        }
    }
}

/// Meeting-agenda ownership check; see [`meeting_perm_outcome`].
pub fn check_meeting_perm(
    permission: i64,
    user_id: &String,
    agenda: Option<&MeetingAgenda>,
) -> (r: Result<(), OpError>)
    ensures
        r == meeting_perm_outcome(
            permission,
            user_id@,
            match agenda {
                Some(a) => Some(*a),
                None => None,
            },
        ),
{
    if permission & (PERMISSION_MEETING_MANAGER | PERMISSION_ADMIN) != 0 {
        return Ok(());
    }
    match agenda {
        None => Err(OpError::NotFound),
        Some(a) => {
            if !a.confirm && *user_id == a.userid {
                Ok(())
            } else {
                Err(OpError::Forbidden)
            }
        },
    }
}

/// A caller may act on a student's own records only under that
/// student's identity.
pub fn check_stu_id(user_id: &String, stu_id: &String) -> (r: Result<(), OpError>)
    ensures
        r == if user_id@ == stu_id@ {
            Ok::<(), OpError>(())
        } else {
            Err::<(), OpError>(OpError::Forbidden)
        },
{
    if *user_id == *stu_id {
        Ok(())
    } else {
        Err(OpError::Forbidden)
    }
}

/// Decision for creating a timeline entry: a non-teacher may only
/// write under their own identity, and a student/schedule pair is
/// capped at 100 entries.
pub open spec fn timeline_create_outcome(
    permission: i64,
    user_id: Seq<char>,
    stu_id: Seq<char>,
    entry_count: i64,
) -> Result<(), OpError> {
    if !passes_mask(permission, PERMISSION_TEACHER) && stu_id != user_id {
        Err(OpError::Forbidden)
    } else if entry_count > 100 {
        Err(OpError::CapacityExceeded)
    } else {
        Ok(())
    }
}

/// Gate for creating a timeline entry; see [`timeline_create_outcome`].
pub fn check_timeline_create(
    permission: i64,
    user_id: &String,
    stu_id: &String,
    entry_count: i64,
) -> (r: Result<(), OpError>)
    ensures
        r == timeline_create_outcome(permission, user_id@, stu_id@, entry_count),
{
    if permission & PERMISSION_TEACHER == 0 && !(*stu_id == *user_id) {
        Err(OpError::Forbidden)
    } else if entry_count > 100 {
        Err(OpError::CapacityExceeded)
    } else {
        Ok(())
    }
}

/// Decision for deleting a timeline entry: the student it belongs to,
/// the teacher it belongs to, or an Admin — except that the student
/// loses the right once the matching lab log has been confirmed.
/// `confirmed_log` reports whether a confirmed log was found for the
/// entry's student and schedule, `None` when no log was found.
pub open spec fn timeline_perm_outcome(
    permission: i64,
    user_id: Option<Seq<char>>,
    timeline: StudentTimeline,
    confirmed_log: Option<bool>,
) -> Result<(), OpError> {
    let is_student = user_id == Some(timeline.stu_id@);
    let is_teacher = user_id == Some(timeline.tea_id@);
    let is_admin = passes_mask(permission, PERMISSION_ADMIN);
    if is_student && confirmed_log == Some(true) {
        Err(OpError::Forbidden)
    } else if !(is_student || is_teacher || is_admin) {
        Err(OpError::Forbidden)
    } else {
        Ok(())
    }
}

/// Gate for deleting a timeline entry; see [`timeline_perm_outcome`].
pub fn check_timeline_permission(
    permission: i64,
    user_id: Option<&String>,
    timeline: &StudentTimeline,
    confirmed_log: Option<bool>,
) -> (r: Result<(), OpError>)
    ensures
        r == timeline_perm_outcome(
            permission,
            match user_id {
                Some(u) => Some(u@),
                None => None,
            },
            *timeline,
            confirmed_log,
        ),
{
    let is_student = match user_id {
        Some(u) => *u == timeline.stu_id,
        None => false,
    };
    let is_teacher = match user_id {
        Some(u) => *u == timeline.tea_id,
        None => false,
    };
    let is_admin = permission & PERMISSION_ADMIN != 0;
    if is_student && confirmed_log == Some(true) {
        Err(OpError::Forbidden)
    } else if !(is_student || is_teacher || is_admin) {
        Err(OpError::Forbidden)
    } else {
        Ok(())
    }
}

} // verus!
