//! Plain data records of the platform.
//!
//! Calendar dates are held as proleptic-Gregorian day numbers (day 1 =
//! January 1 of year 1), weekdays as indices counted from Sunday = 0,
//! times of day as minutes since midnight, and instants as absolute
//! minutes (day number * 1440 + minute of day).  The conversions from
//! calendar form live in [`crate::calendar`].

use vstd::prelude::*;

verus! {

/// A platform account: identity plus its permission bitmask.
#[derive(Debug, Clone)]
pub struct User {
    pub user_id: String,
    pub username: String,
    pub permission: i64,
}

/// A semester: a named date range, held as day numbers.
#[derive(Debug, Clone)]
pub struct Semester {
    pub id: i64,
    pub name: String,
    /// First day of the semester, as a day number.
    pub start: i64,
    /// Last day of the semester, as a day number.
    pub end: i64,
}

/// A course, owned by the teacher recorded in `tea_id`.
#[derive(Debug, Clone)]
pub struct Course {
    pub id: i64,
    pub name: String,
    pub ename: String,
    pub code: String,
    pub tea_id: String,
    pub tea_name: String,
    pub intro: String,
    pub mailbox: String,
    pub term: i64,
}

/// A physical lab room.
#[derive(Debug, Clone)]
pub struct Labroom {
    pub id: i64,
    pub room: String,
    pub name: String,
    pub manager: String,
    pub tea_id: String,
}

/// One scheduled section of a course, with its seat limit.
#[derive(Debug, Clone)]
pub struct SubCourse {
    pub id: i64,
    pub weekday: i64,
    pub room_id: i64,
    pub tea_name: String,
    pub tea_id: String,
    pub year_id: i64,
    pub stu_limit: i64,
    pub course_id: i64,
    pub lag_week: i64,
}

/// A subcourse joined with its room and course names, for listings.
#[derive(Debug, Clone)]
pub struct SubCourseWithName {
    pub id: i64,
    pub weekday: i64,
    pub room_name: String,
    pub tea_name: String,
    pub tea_id: String,
    pub year_id: i64,
    pub stu_limit: i64,
    pub course_id: i64,
    pub lag_week: i64,
    pub course_name: String,
}

/// A group membership: a student enrolled in a subcourse, with the
/// seat assigned on joining (positive, unique within the subcourse).
#[derive(Debug, Clone)]
pub struct Student {
    pub id: i64,
    pub stu_id: String,
    pub stu_name: String,
    pub seat: i64,
    pub subcourse_id: i64,
}

/// One weekly curriculum entry of a course.
#[derive(Debug, Clone)]
pub struct CourseSchedule {
    pub id: i64,
    pub week: i64,
    pub name: String,
    pub requirement: String,
    pub course_id: i64,
}

/// Metadata of a stored course material file.
#[derive(Debug, Clone)]
pub struct CourseFile {
    pub id: i64,
    pub fname: String,
    pub finfo: String,
    pub course_id: i64,
}

/// A student's lab-session log entry.  `fin_time` is an instant in
/// absolute minutes; `confirm` is 0 until a teacher confirms it.
#[derive(Debug, Clone)]
pub struct StudentLog {
    pub id: i64,
    pub stu_id: String,
    pub stu_name: String,
    pub subcourse_id: i64,
    pub room_id: i64,
    pub seat: i64,
    pub lab_name: String,
    pub note: String,
    pub tea_note: String,
    pub tea_name: String,
    pub fin_time: i64,
    pub confirm: i64,
}

/// One step of a curriculum entry.
#[derive(Debug, Clone)]
pub struct SubSchedule {
    pub id: i64,
    pub schedule_id: i64,
    pub step: i64,
    pub title: String,
}

/// One entry of a student's work timeline.  `note` holds a file path
/// when `notetype` is 1, plain text when it is 0.  `timestamp` is an
/// instant in absolute minutes.
#[derive(Debug, Clone)]
pub struct StudentTimeline {
    pub id: i64,
    pub stu_id: String,
    pub tea_id: String,
    pub schedule_id: i64,
    pub subschedule: String,
    pub subcourse_id: i64,
    pub note: String,
    pub notetype: i64,
    pub timestamp: i64,
}

/// A piece of lab equipment in someone's custody.
#[derive(Debug, Clone)]
pub struct Equipment {
    pub id: i64,
    pub name: String,
    pub serial: String,
    pub value: i64,
    pub position: String,
    pub status: i64,
    pub note: String,
    pub owner_id: String,
}

/// One borrow/return record of an equipment item.  Dates are instants
/// in absolute minutes; `returned_date` is `None` while borrowed.
#[derive(Debug, Clone)]
pub struct EquipmentHistory {
    pub id: i64,
    pub user: String,
    pub borrowed_date: i64,
    pub telephone: String,
    pub note: String,
    pub returned_date: Option<i64>,
    pub item_id: i64,
}

/// A bookable meeting room.
#[derive(Debug, Clone)]
pub struct MeetingRoom {
    pub id: i64,
    pub room: String,
    pub info: String,
}

/// A meeting-room booking, one-off or weekly-recurring.
///
/// `date` is the day number of the booked day; for a recurring agenda
/// it only anchors the weekday.  `weekday` is the weekday index of
/// `date` (from Sunday = 0), recorded at construction so that the
/// conflict rules can compare weekdays without recomputing them.
/// `start_time` and `end_time` are minutes since midnight; the booking
/// occupies the half-open interval `[start_time, end_time)`.
#[derive(Debug, Clone)]
pub struct MeetingAgenda {
    pub id: i64,
    pub title: String,
    pub userid: String,
    pub username: String,
    pub repeat: bool,
    pub date: i64,
    pub weekday: u8,
    pub start_time: i64,
    pub end_time: i64,
    pub room_id: i64,
    pub confirm: bool,
}

/// A borrow request for an equipment item, as a caller submits it.
#[derive(Debug, Clone)]
pub struct NewEquipmentHistory {
    pub user: String,
    pub telephone: String,
    pub note: String,
    pub item_id: i64,
}

/// A stored course file with its modification time, as listings
/// report it; the time is a preformatted text, absent when unknown.
#[derive(Debug, Clone)]
pub struct CourseFileResponse {
    pub id: i64,
    pub fname: String,
    pub finfo: String,
    pub course_id: i64,
    pub modified_time: Option<String>,
}

/// Page selection for listings; both fields default when absent.
#[derive(Debug, Clone, Copy)]
pub struct PaginationParams {
    pub page: Option<usize>,
    pub page_size: Option<usize>,
}

/// A teacher's confirmation note for a student log.
#[derive(Debug, Clone)]
pub struct TeacherConfirmRequest {
    pub tea_note: String,
}

/// Selector for a student's log in a subcourse.
#[derive(Debug, Clone)]
pub struct GetLogParams {
    pub subcourse_id: i64,
    pub stu_id: String,
}

/// Filter for subcourse listings.
#[derive(Debug, Clone, Copy)]
pub struct SubcourseQuery {
    pub course_id: Option<i64>,
    pub semester_id: Option<i64>,
}

impl PaginationParams {
    /// The number of records a listing skips: pages are counted from
    /// 1, and a missing page or page size falls back to 1 and 10.
    /// The multiplication saturates at `usize::MAX` instead of
    /// wrapping.
    pub fn offset(&self) -> (r: usize)
        ensures
            ({
                let page = match self.page {
                    Some(p) => p as int,
                    None => 1,
                };
                let size = match self.page_size {
                    Some(s) => s as int,
                    None => 10,
                };
                let skip = if page >= 1 {
                    (page - 1) * size
                } else {
                    0
                };
                r == if skip <= usize::MAX {
                    skip
                } else {
                    usize::MAX as int
                }
            }),
    {
        let page: usize = match self.page {
            Some(p) => p,
            None => 1,
        };
        let size: usize = match self.page_size {
            Some(s) => s,
            None => 10,
        };
        if page < 1 {
            0
        } else {
            match (page - 1).checked_mul(size) {
                Some(v) => v,
                None => usize::MAX,
            }
        }
    }
}

} // verus!
