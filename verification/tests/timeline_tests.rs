use labcourse::enroll::GroupStore;
use labcourse::logsynth::{force_student_log, LogBook};
use labcourse::models::{Semester, StudentTimeline, SubCourse, SubcourseQuery};
use labcourse::timeline::TimelineStore;
use labcourse::OpError;

fn entry(stu: &str, tea: &str, schedule_id: i64, subcourse_id: i64, note: &str) -> StudentTimeline {
    StudentTimeline {
        id: 0,
        stu_id: stu.to_string(),
        tea_id: tea.to_string(),
        schedule_id,
        subschedule: "step 1".to_string(),
        subcourse_id,
        note: note.to_string(),
        notetype: 0,
        timestamp: 0,
    }
}

#[test]
fn timeline_entries_get_ids_and_timestamps() {
    let mut t = TimelineStore::new();
    let id1 = t.add_student_timeline(entry("stu1", "tea1", 1, 1, "n1"), 500).unwrap();
    let id2 = t.add_student_timeline(entry("stu1", "tea1", 1, 1, "n2"), 600).unwrap();
    assert_ne!(id1, id2);
    let rec = t.get_timeline_by_id(id2).unwrap();
    assert_eq!(rec.note, "n2");
    assert_eq!(rec.timestamp, 600);
    assert!(matches!(t.get_timeline_by_id(99), Err(OpError::NotFound)));
}

#[test]
fn timeline_counts_per_student_and_schedule() {
    let mut t = TimelineStore::new();
    t.add_student_timeline(entry("stu1", "tea1", 1, 1, "a"), 0).unwrap();
    t.add_student_timeline(entry("stu1", "tea1", 1, 1, "b"), 0).unwrap();
    t.add_student_timeline(entry("stu1", "tea1", 2, 1, "c"), 0).unwrap();
    t.add_student_timeline(entry("stu2", "tea1", 1, 1, "d"), 0).unwrap();
    assert_eq!(t.count_student_timeline_entries(&"stu1".to_string(), 1), 2);
    assert_eq!(t.count_student_timeline_entries(&"stu1".to_string(), 2), 1);
    assert_eq!(t.count_student_timeline_entries(&"stu3".to_string(), 1), 0);
}

#[test]
fn timeline_delete_is_by_id() {
    let mut t = TimelineStore::new();
    let id = t.add_student_timeline(entry("stu1", "tea1", 1, 1, "a"), 0).unwrap();
    assert!(t.delete_student_timeline(id));
    assert!(!t.delete_student_timeline(id));
    assert_eq!(t.count_student_timeline_entries(&"stu1".to_string(), 1), 0);
}

#[test]
fn timeline_listing_by_schedule_filters_both_keys() {
    let mut t = TimelineStore::new();
    t.add_student_timeline(entry("stu1", "tea1", 1, 1, "a"), 0).unwrap();
    t.add_student_timeline(entry("stu2", "tea1", 1, 1, "b"), 0).unwrap();
    t.add_student_timeline(entry("stu1", "tea1", 2, 1, "c"), 0).unwrap();
    t.add_student_timeline(entry("stu1", "tea1", 1, 2, "d"), 0).unwrap();
    let l = t.list_timelines_by_schedule(1, 1);
    assert_eq!(l.len(), 2);
    assert_eq!(l[0].note, "a");
    assert_eq!(l[1].note, "b");
}

#[test]
fn the_subcourse_teacher_sees_all_entries_others_their_own() {
    let mut t = TimelineStore::new();
    t.add_student_timeline(entry("stu1", "tea1", 1, 1, "by tea1"), 0).unwrap();
    t.add_student_timeline(entry("stu1", "tea2", 1, 1, "by tea2"), 0).unwrap();
    t.add_student_timeline(entry("stu1", "-", 1, 1, "by stu"), 0).unwrap();

    // the subcourse's own teacher sees everything
    let all = t.list_timelines_by_student(1, &"stu1".to_string(), &"tea1".to_string(), true);
    assert_eq!(all.len(), 3);
    // another teacher sees only what they wrote
    let own = t.list_timelines_by_student(1, &"stu1".to_string(), &"tea2".to_string(), false);
    assert_eq!(own.len(), 1);
    assert_eq!(own[0].note, "by tea2");
}

#[test]
fn subcourse_query_needs_a_course_filter() {
    let mut g = GroupStore::new();
    let mk = |course_id: i64, year_id: i64| SubCourse {
        id: 0,
        weekday: 1,
        room_id: 1,
        tea_name: "T".to_string(),
        tea_id: "tea1".to_string(),
        year_id,
        stu_limit: 5,
        course_id,
        lag_week: 0,
    };
    g.add_subcourse(mk(1, 1)).unwrap();
    g.add_subcourse(mk(1, 2)).unwrap();
    g.add_subcourse(mk(2, 1)).unwrap();

    let none = g.list_subcourses(&SubcourseQuery { course_id: None, semester_id: Some(1) });
    assert!(none.is_empty());
    let by_course = g.list_subcourses(&SubcourseQuery { course_id: Some(1), semester_id: None });
    assert_eq!(by_course.len(), 2);
    let both = g.list_subcourses(&SubcourseQuery { course_id: Some(1), semester_id: Some(2) });
    assert_eq!(both.len(), 1);
    assert_eq!(both[0].year_id, 2);
}

#[test]
fn forced_logs_are_confirmed_and_stamped() {
    let mut g = GroupStore::new();
    let sc = g
        .add_subcourse(SubCourse {
            id: 0,
            weekday: 1,
            room_id: 4,
            tea_name: "T".to_string(),
            tea_id: "tea1".to_string(),
            year_id: 1,
            stu_limit: 5,
            course_id: 1,
            lag_week: 0,
        })
        .unwrap();
    g.join(sc, &"stu1".to_string(), &"Ann".to_string()).unwrap();
    let mut logs = LogBook::new();
    let semesters = vec![Semester {
        id: 1,
        name: "term".to_string(),
        start: 738000,
        end: 738180,
    }];
    let today = 738010;
    let now = today * 1440;
    let id = force_student_log(
        &mut logs,
        &g,
        &semesters,
        &vec![],
        &"stu1".to_string(),
        sc,
        &"Prof".to_string(),
        today,
        now,
    )
    .unwrap();
    let rec = &logs.logs[0];
    assert_eq!(rec.id, id);
    assert_eq!(rec.confirm, 1);
    assert_eq!(rec.tea_name, "Prof");
    assert_eq!(rec.tea_note, "Log by T");
    assert_eq!(rec.stu_name, "Ann");
    assert_eq!(rec.room_id, 4);
    assert_eq!(rec.seat, 1);

    // the session is now logged: forcing again conflicts
    assert!(matches!(
        force_student_log(
            &mut logs,
            &g,
            &semesters,
            &vec![],
            &"stu1".to_string(),
            sc,
            &"Prof".to_string(),
            today,
            now + 60,
        ),
        Err(OpError::Conflict(0))
    ));

    // a student without a membership cannot be forced
    assert!(matches!(
        force_student_log(
            &mut logs,
            &g,
            &semesters,
            &vec![],
            &"ghost".to_string(),
            sc,
            &"Prof".to_string(),
            today,
            now,
        ),
        Err(OpError::NotFound)
    ));
}

#[test]
fn student_names_come_from_the_membership() {
    let mut g = GroupStore::new();
    let sc = g
        .add_subcourse(SubCourse {
            id: 0,
            weekday: 1,
            room_id: 1,
            tea_name: "T".to_string(),
            tea_id: "tea1".to_string(),
            year_id: 1,
            stu_limit: 5,
            course_id: 1,
            lag_week: 0,
        })
        .unwrap();
    g.join(sc, &"stu1".to_string(), &"Ann".to_string()).unwrap();
    assert_eq!(
        g.get_student_name(&"stu1".to_string(), sc),
        Ok("Ann".to_string())
    );
    assert!(matches!(
        g.get_student_name(&"stu2".to_string(), sc),
        Err(OpError::NotFound)
    ));
}
