//! The permission model and the authorization gate.
//!
//! A principal's permission value is a single integer holding the
//! bitwise OR of the role flags it was granted; roles are not
//! exclusive.  An operation declares a required mask, and a caller is
//! admitted iff the permission value and the mask share at least one
//! bit (`p & m != 0`).

use vstd::prelude::*;
use crate::OpError;
use crate::models::SubCourseWithName;

verus! {

/// Admin role flag.
pub const PERMISSION_ADMIN: i64 = 0b1;

/// Teacher role flag.
pub const PERMISSION_TEACHER: i64 = 0b10;

/// Lab-manager role flag.
pub const PERMISSION_LAB_MANAGER: i64 = 0b100;

/// Student role flag.
pub const PERMISSION_STUDENT: i64 = 0b1000;

/// Meeting-room-manager role flag.
pub const PERMISSION_MEETING_MANAGER: i64 = 0b10000;

/// Linux-course-student role flag.
pub const PERMISSION_LINUX: i64 = 0b100000;

/// A permission value passes a mask iff they share at least one bit.
pub open spec fn passes_mask(p: i64, m: i64) -> bool {
    p & m != 0
}

/// The authorization gate: admits a caller iff a principal was
/// resolved at all and its permission value shares a bit with the
/// required mask.  A missing principal is `Unauthorized`, a present
/// but insufficient one is `Forbidden` — the two are distinct so that
/// the caller can tell "log in first" from "you may not".
pub fn authorize(principal: Option<i64>, mask: i64) -> (r: Result<i64, OpError>)
    ensures
        r == match principal {
            None => Err::<i64, OpError>(OpError::Unauthorized),
            Some(p) => if passes_mask(p, mask) {
                Ok::<i64, OpError>(p)
            } else {
                Err::<i64, OpError>(OpError::Forbidden)
            },
        },
{
    match principal {
        None => Err(OpError::Unauthorized),
        Some(p) => {
            if p & mask != 0 {
                Ok(p)
            } else {
                Err(OpError::Forbidden)
            }
        },
    }
}

/// The permission value a freshly logged-in principal receives: the
/// base role follows the identity class (staff teach, everyone else
/// studies), joined with whatever extra roles the account already
/// holds on record.
pub fn derive_login_permission(identity_is_staff: bool, recorded: Option<i64>) -> (r: i64)
    ensures
        ({
            let base = if identity_is_staff {
                PERMISSION_TEACHER
            } else {
                PERMISSION_STUDENT
            };
            r == match recorded {
                Some(p) => base | p,
                None => base,
            }
        }),
{
    let base: i64 = if identity_is_staff {
        PERMISSION_TEACHER
    } else {
        PERMISSION_STUDENT
    };
    match recorded {
        Some(p) => base | p,
        None => base,
    }
}

/// Whether a course name marks the Linux course: it starts with
/// "Linux".
pub open spec fn is_linux_course_name(s: Seq<char>) -> bool {
    s.len() >= 5 && s.subrange(0, 5) == "Linux"@
}

/// Whether any of the listed subcourses belongs to the Linux course.
pub open spec fn lists_linux_course(subs: Seq<SubCourseWithName>) -> bool {
    exists|i: int| 0 <= i < subs.len() && is_linux_course_name((#[trigger] subs[i]).course_name@)
}

/// Whether the course name starts with "Linux".
pub fn course_grants_linux(name: &String) -> (r: bool)
    ensures
        r == is_linux_course_name(name@),
{
    proof {
        reveal_strlit("Linux");
    }
    let s = name.as_str();
    if s.unicode_len() < 5 {
        return false;
    }
    let r = s.get_char(0) == 'L' && s.get_char(1) == 'i' && s.get_char(2) == 'n' && s.get_char(3)
        == 'u' && s.get_char(4) == 'x';
    proof {
        if r {
            assert(name@.subrange(0, 5) =~= "Linux"@);
        } else {
            assert(name@.subrange(0, 5) != "Linux"@) by {
                if name@.subrange(0, 5) == "Linux"@ {
                    assert(name@[0] == name@.subrange(0, 5)[0]);
                    assert(name@[1] == name@.subrange(0, 5)[1]);
                    assert(name@[2] == name@.subrange(0, 5)[2]);
                    assert(name@[3] == name@.subrange(0, 5)[3]);
                    assert(name@[4] == name@.subrange(0, 5)[4]);
                }
            }
        }
    }
    r
}

/// A student enrolled in a subcourse of the Linux course is granted
/// the Linux role on the fly; teachers keep their permission value
/// unchanged.
pub fn upgrade_linux_permission(permission: i64, subs: &Vec<SubCourseWithName>) -> (r: i64)
    ensures
        r == if !passes_mask(permission, PERMISSION_TEACHER) && lists_linux_course(subs@) {
            permission | PERMISSION_LINUX
        } else {
            permission
        },
{
    if permission & PERMISSION_TEACHER != 0 {
        return permission;
    }
    let n = subs.len();
    let mut i: usize = 0;
    while i < n
        invariant
            !passes_mask(permission, PERMISSION_TEACHER),
            n == subs@.len(),
            0 <= i <= n,
            forall|j: int|
                0 <= j < i ==> !is_linux_course_name((#[trigger] subs@[j]).course_name@),
        decreases n - i,
    {
        if course_grants_linux(&subs[i].course_name) {
            return permission | PERMISSION_LINUX;
        }
        i += 1;
    }
    permission
}

/// A reusable gate configured with the mask an operation requires.
pub struct CheckPermission {
    pub perm: i64,
}

impl CheckPermission {
    /// Configures a gate that requires the given mask.
    pub fn new(required: i64) -> (r: Self)
        ensures
            r.perm == required,
    {
        CheckPermission { perm: required }
    }

    /// Applies the configured mask to the caller's resolved permission
    /// value, if any.
    pub fn check(&self, principal: Option<i64>) -> (r: Result<i64, OpError>)
        ensures
            r == match principal {
                None => Err::<i64, OpError>(OpError::Unauthorized),
                Some(p) => if passes_mask(p, self.perm) {
                    Ok::<i64, OpError>(p)
                } else {
                    Err::<i64, OpError>(OpError::Forbidden)
                },
            },
    {
        authorize(principal, self.perm)
    }
}

} // verus!
