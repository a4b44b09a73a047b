//! Lookups over the catalog records — users, courses and lab rooms —
//! and the join that decorates a subcourse with its course and room
//! names for listings.

use vstd::prelude::*;
use crate::OpError;
use crate::models::{Course, Labroom, SubCourse, SubCourseWithName, User};

verus! {

/// The first user with the given identity, if any.
pub open spec fn find_user(s: Seq<User>, user_id: Seq<char>) -> Option<User>
    decreases s.len(),
{
    if s.len() == 0 {
        None
    } else if s[0].user_id@ == user_id {
        Some(s[0])
    } else {
        find_user(s.subrange(1, s.len() as int), user_id)
    }
}

/// When the first match stands at index `k`, the lookup returns
/// exactly that entry.
pub proof fn lemma_find_user_present(s: Seq<User>, user_id: Seq<char>, k: int)
    requires
        0 <= k < s.len(),
        s[k].user_id@ == user_id,
        forall|j: int| 0 <= j < k ==> (#[trigger] s[j]).user_id@ != user_id,
    ensures
        find_user(s, user_id) == Some(s[k]),
    decreases s.len(),
{
    if s[0].user_id@ == user_id {
        assert(k == 0);
    } else {
        lemma_find_user_present(s.subrange(1, s.len() as int), user_id, k - 1);
    }
}

/// When no entry matches, the lookup returns nothing.
pub proof fn lemma_find_user_absent(s: Seq<User>, user_id: Seq<char>)
    requires
        forall|j: int| 0 <= j < s.len() ==> (#[trigger] s[j]).user_id@ != user_id,
    ensures
        find_user(s, user_id) is None,
    decreases s.len(),
{
    if s.len() > 0 {
        lemma_find_user_absent(s.subrange(1, s.len() as int), user_id);
    }
}

/// The first course with the given id, if any.
pub open spec fn find_course(s: Seq<Course>, id: i64) -> Option<Course>
    decreases s.len(),
{
    if s.len() == 0 {
        None
    } else if s[0].id == id {
        Some(s[0])
    } else {
        find_course(s.subrange(1, s.len() as int), id)
    }
}

/// When the first match of `id` stands at index `k`, the lookup
/// returns exactly that entry.
pub proof fn lemma_find_course_present(s: Seq<Course>, id: i64, k: int)
    requires
        0 <= k < s.len(),
        s[k].id == id,
        forall|j: int| 0 <= j < k ==> (#[trigger] s[j]).id != id,
    ensures
        find_course(s, id) == Some(s[k]),
    decreases s.len(),
{
    if s[0].id == id {
        assert(k == 0);
    } else {
        lemma_find_course_present(s.subrange(1, s.len() as int), id, k - 1);
    }
}

/// When no entry carries `id`, the lookup returns nothing.
pub proof fn lemma_find_course_absent(s: Seq<Course>, id: i64)
    requires
        forall|j: int| 0 <= j < s.len() ==> (#[trigger] s[j]).id != id,
    ensures
        find_course(s, id) is None,
    decreases s.len(),
{
    if s.len() > 0 {
        lemma_find_course_absent(s.subrange(1, s.len() as int), id);
    }
}

/// The first lab room with the given id, if any.
pub open spec fn find_labroom(s: Seq<Labroom>, id: i64) -> Option<Labroom>
    decreases s.len(),
{
    if s.len() == 0 {
        None
    } else if s[0].id == id {
        Some(s[0])
    } else {
        find_labroom(s.subrange(1, s.len() as int), id)
    }
}

/// When the first match of `id` stands at index `k`, the lookup
/// returns exactly that entry.
pub proof fn lemma_find_labroom_present(s: Seq<Labroom>, id: i64, k: int)
    requires
        0 <= k < s.len(),
        s[k].id == id,
        forall|j: int| 0 <= j < k ==> (#[trigger] s[j]).id != id,
    ensures
        find_labroom(s, id) == Some(s[k]),
    decreases s.len(),
{
    if s[0].id == id {
        assert(k == 0);
    } else {
        lemma_find_labroom_present(s.subrange(1, s.len() as int), id, k - 1);
    }
}

/// When no entry carries `id`, the lookup returns nothing.
pub proof fn lemma_find_labroom_absent(s: Seq<Labroom>, id: i64)
    requires
        forall|j: int| 0 <= j < s.len() ==> (#[trigger] s[j]).id != id,
    ensures
        find_labroom(s, id) is None,
    decreases s.len(),
{
    if s.len() > 0 {
        lemma_find_labroom_absent(s.subrange(1, s.len() as int), id);
    }
}

/// An exact copy of a user record.
pub fn clone_user(u: &User) -> (r: User)
    ensures
        r == *u,
{
    User { user_id: u.user_id.clone(), username: u.username.clone(), permission: u.permission }
}

/// An exact copy of a course record.
pub fn clone_course(c: &Course) -> (r: Course)
    ensures
        r == *c,
{
    Course {
        id: c.id,
        name: c.name.clone(),
        ename: c.ename.clone(),
        code: c.code.clone(),
        tea_id: c.tea_id.clone(),
        tea_name: c.tea_name.clone(),
        intro: c.intro.clone(),
        mailbox: c.mailbox.clone(),
        term: c.term,
    }
}

/// An exact copy of a lab-room record.
pub fn clone_labroom(l: &Labroom) -> (r: Labroom)
    ensures
        r == *l,
{
    Labroom {
        id: l.id,
        room: l.room.clone(),
        name: l.name.clone(),
        manager: l.manager.clone(),
        tea_id: l.tea_id.clone(),
    }
}

/// A copy of the user with the given identity.
pub fn get_user_by_id(users: &Vec<User>, user_id: &String) -> (r: Result<User, OpError>)
    ensures
        r == match find_user(users@, user_id@) {
            Some(u) => Ok::<User, OpError>(u),
            None => Err::<User, OpError>(OpError::NotFound),
        },
{
    let n = users.len();
    let mut k: usize = 0;
    while k < n
        invariant
            n == users@.len(),
            0 <= k <= n,
            forall|j: int| 0 <= j < k ==> (#[trigger] users@[j]).user_id@ != user_id@,
        decreases n - k,
    {
        if users[k].user_id == *user_id {
            proof {
                lemma_find_user_present(users@, user_id@, k as int);
            }
            return Ok(clone_user(&users[k]));
        }
        k += 1;
    }
    proof {
        lemma_find_user_absent(users@, user_id@);
    }
    Err(OpError::NotFound)
}

/// A copy of the course with the given id.
pub fn get_course_by_id(courses: &Vec<Course>, id: i64) -> (r: Result<Course, OpError>)
    ensures
        r == match find_course(courses@, id) {
            Some(c) => Ok::<Course, OpError>(c),
            None => Err::<Course, OpError>(OpError::NotFound),
        },
{
    let n = courses.len();
    let mut k: usize = 0;
    while k < n
        invariant
            n == courses@.len(),
            0 <= k <= n,
            forall|j: int| 0 <= j < k ==> (#[trigger] courses@[j]).id != id,
        decreases n - k,
    {
        if courses[k].id == id {
            proof {
                lemma_find_course_present(courses@, id, k as int);
            }
            return Ok(clone_course(&courses[k]));
        }
        k += 1;
    }
    proof {
        lemma_find_course_absent(courses@, id);
    }
    Err(OpError::NotFound)
}

/// A copy of the lab room with the given id.
pub fn get_labroom_by_id(labrooms: &Vec<Labroom>, id: i64) -> (r: Result<Labroom, OpError>)
    ensures
        r == match find_labroom(labrooms@, id) {
            Some(l) => Ok::<Labroom, OpError>(l),
            None => Err::<Labroom, OpError>(OpError::NotFound),
        },
{
    let n = labrooms.len();
    let mut k: usize = 0;
    while k < n
        invariant
            n == labrooms@.len(),
            0 <= k <= n,
            forall|j: int| 0 <= j < k ==> (#[trigger] labrooms@[j]).id != id,
        decreases n - k,
    {
        if labrooms[k].id == id {
            proof {
                lemma_find_labroom_present(labrooms@, id, k as int);
            }
            return Ok(clone_labroom(&labrooms[k]));
        }
        k += 1;
    }
    proof {
        lemma_find_labroom_absent(labrooms@, id);
    }
    Err(OpError::NotFound)
}

/// Decorates a subcourse with its course and room names; the course
/// and the room must both exist.
pub fn get_subcourse_with_name(
    sub: &SubCourse,
    courses: &Vec<Course>,
    labrooms: &Vec<Labroom>,
) -> (r: Result<SubCourseWithName, OpError>)
    ensures
        r is Ok <==> find_course(courses@, sub.course_id) is Some && find_labroom(
            labrooms@,
            sub.room_id,
        ) is Some,
        r is Err ==> r == Err::<SubCourseWithName, OpError>(OpError::NotFound),
        r matches Ok(w) ==> {
            &&& w.id == sub.id
            &&& w.weekday == sub.weekday
            &&& w.room_name@ == find_labroom(labrooms@, sub.room_id).unwrap().room@
            &&& w.tea_name@ == sub.tea_name@
            &&& w.tea_id@ == sub.tea_id@
            &&& w.year_id == sub.year_id
            &&& w.stu_limit == sub.stu_limit
            &&& w.course_id == sub.course_id
            &&& w.lag_week == sub.lag_week
            &&& w.course_name@ == find_course(courses@, sub.course_id).unwrap().name@
        },
{
    let course = match get_course_by_id(courses, sub.course_id) {
        Ok(c) => c,
        Err(_) => {
            return Err(OpError::NotFound);
        },
    };
    let labroom = match get_labroom_by_id(labrooms, sub.room_id) {
        Ok(l) => l,
        Err(_) => {
            return Err(OpError::NotFound);
        },
    };
    Ok(
        SubCourseWithName {
            id: sub.id,
            weekday: sub.weekday,
            room_name: labroom.room,
            tea_name: sub.tea_name.clone(),
            tea_id: sub.tea_id.clone(),
            year_id: sub.year_id,
            stu_limit: sub.stu_limit,
            course_id: sub.course_id,
            lag_week: sub.lag_week,
            course_name: course.name,
        },
    )
}

} // verus!
