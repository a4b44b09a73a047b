use labcourse::calendar::{now_instant, week_number};
use labcourse::enroll::GroupStore;
use labcourse::logsynth::{
    current_semester_index, get_default_log, get_schedule_by_id, get_semester_by_id, LogBook,
};

#[test]
fn subschedule_steps_list_per_entry() {
    let steps = vec![
        labcourse::models::SubSchedule {
            id: 1,
            schedule_id: 4,
            step: 1,
            title: "setup".to_string(),
        },
        labcourse::models::SubSchedule {
            id: 2,
            schedule_id: 5,
            step: 1,
            title: "other".to_string(),
        },
        labcourse::models::SubSchedule {
            id: 3,
            schedule_id: 4,
            step: 2,
            title: "measure".to_string(),
        },
    ];
    let of4 = labcourse::logsynth::list_subschedules(&steps, 4);
    assert_eq!(of4.len(), 2);
    assert_eq!(of4[0].title, "setup");
    assert_eq!(of4[1].title, "measure");
    assert!(labcourse::logsynth::list_subschedules(&steps, 9).is_empty());
}

#[test]
fn logs_are_found_by_id() {
    let mut logs = LogBook::new();
    let id = logs.add_student_log(log_req("stu1", 1, 7), 1000).unwrap();
    let rec = logs.get_student_log_by_id(id).unwrap();
    assert_eq!(rec.stu_id, "stu1");
    assert_eq!(rec.fin_time, 1000);
    assert!(matches!(
        logs.get_student_log_by_id(id + 1),
        Err(OpError::NotFound)
    ));
}
use labcourse::models::{CourseSchedule, PaginationParams, Semester, StudentLog, SubCourse};
use labcourse::OpError;

fn log_req(stu: &str, sc: i64, room: i64) -> StudentLog {
    StudentLog {
        id: 0,
        stu_id: stu.to_string(),
        stu_name: "S".to_string(),
        subcourse_id: sc,
        room_id: room,
        seat: 1,
        lab_name: "Lab".to_string(),
        note: "did things".to_string(),
        tea_note: String::new(),
        tea_name: String::new(),
        fin_time: 0,
        confirm: 0,
    }
}

fn semester(id: i64, start: i64, end: i64) -> Semester {
    Semester {
        id,
        name: format!("term{}", id),
        start,
        end,
    }
}

fn schedule(course_id: i64, week: i64, name: &str) -> CourseSchedule {
    CourseSchedule {
        id: week,
        week,
        name: name.to_string(),
        requirement: String::new(),
        course_id,
    }
}

const DAY0: i64 = 738000;

fn group_with_membership() -> (GroupStore, i64) {
    let mut g = GroupStore::new();
    let sc = g
        .add_subcourse(SubCourse {
            id: 0,
            weekday: 3,
            room_id: 7,
            tea_name: "T".to_string(),
            tea_id: "tea1".to_string(),
            year_id: 5,
            stu_limit: 10,
            course_id: 9,
            lag_week: 1,
        })
        .unwrap();
    g.join(sc, &"stu1".to_string(), &"Ann".to_string()).unwrap();
    (g, sc)
}

#[test]
fn default_log_synthesizes_the_expected_session() {
    let (g, sc) = group_with_membership();
    let logs = LogBook::new();
    let semesters = vec![semester(5, DAY0, DAY0 + 180)];
    let schedules = vec![
        schedule(9, 3, "Optics"),
        schedule(9, 4, "Circuits"),
        schedule(8, 4, "Wrong course"),
    ];
    // 15 days into the semester: floor(15 / 7) + 1 + lag 1 = week 4
    let today = DAY0 + 15;
    let now = today * 1440 + 600;
    let log = get_default_log(
        &logs,
        &g,
        &semesters,
        &schedules,
        &"stu1".to_string(),
        sc,
        today,
        now,
    )
    .unwrap();
    assert_eq!(log.id, 0);
    assert_eq!(log.stu_id, "stu1");
    assert_eq!(log.stu_name, "");
    assert_eq!(log.subcourse_id, sc);
    assert_eq!(log.room_id, 7);
    assert_eq!(log.seat, 1);
    assert_eq!(log.lab_name, "Circuits");
    assert_eq!(log.fin_time, now);
    assert_eq!(log.confirm, 0);
}

#[test]
fn default_log_has_empty_lab_name_without_a_schedule() {
    let (g, sc) = group_with_membership();
    let logs = LogBook::new();
    let semesters = vec![semester(5, DAY0, DAY0 + 180)];
    let schedules = vec![schedule(9, 30, "Far future")];
    let today = DAY0;
    let log = get_default_log(
        &logs,
        &g,
        &semesters,
        &schedules,
        &"stu1".to_string(),
        sc,
        today,
        today * 1440,
    )
    .unwrap();
    assert_eq!(log.lab_name, "");
}

#[test]
fn default_log_needs_a_membership() {
    let (g, sc) = group_with_membership();
    let logs = LogBook::new();
    let semesters = vec![semester(5, DAY0, DAY0 + 180)];
    let r = get_default_log(
        &logs,
        &g,
        &semesters,
        &vec![],
        &"nobody".to_string(),
        sc,
        DAY0,
        DAY0 * 1440,
    );
    assert!(matches!(r, Err(OpError::NotFound)));
}

#[test]
fn default_log_reports_missing_subcourse_and_semester() {
    let (g, sc) = group_with_membership();
    let logs = LogBook::new();
    let r = get_default_log(
        &logs,
        &g,
        &vec![semester(4, DAY0, DAY0 + 10)],
        &vec![],
        &"stu1".to_string(),
        sc,
        DAY0,
        DAY0 * 1440,
    );
    // the subcourse's semester (id 5) is absent
    assert!(matches!(r, Err(OpError::NotFound)));

    let r2 = get_default_log(
        &logs,
        &g,
        &vec![semester(5, DAY0, DAY0 + 10)],
        &vec![],
        &"stu1".to_string(),
        sc + 100,
        DAY0,
        DAY0 * 1440,
    );
    assert!(matches!(r2, Err(OpError::NotFound)));
}

#[test]
fn default_log_returns_a_recent_log_unchanged() {
    let (g, sc) = group_with_membership();
    let mut logs = LogBook::new();
    let now = DAY0 * 1440 + 600;
    let id = logs
        .add_student_log(log_req("stu1", sc, 7), now - 120)
        .unwrap();
    let semesters = vec![semester(5, DAY0, DAY0 + 180)];
    let log = get_default_log(
        &logs,
        &g,
        &semesters,
        &vec![],
        &"stu1".to_string(),
        sc,
        DAY0,
        now,
    )
    .unwrap();
    assert_eq!(log.id, id);
    assert_eq!(log.note, "did things");
    assert_eq!(log.fin_time, now - 120);
}

#[test]
fn a_second_log_within_the_window_is_refused() {
    let mut logs = LogBook::new();
    let now = 1_000_000;
    logs.add_student_log(log_req("stu1", 1, 7), now).unwrap();
    // five hours have not passed
    assert!(matches!(
        logs.add_student_log(log_req("stu1", 1, 7), now + 300),
        Err(OpError::Conflict(0))
    ));
    // another student is unaffected
    assert!(logs.add_student_log(log_req("stu2", 1, 7), now + 300).is_ok());
    // after the window the same student may log again
    assert!(logs.add_student_log(log_req("stu1", 1, 7), now + 301).is_ok());
}

#[test]
fn find_recent_picks_the_latest_log() {
    let mut logs = LogBook::new();
    logs.add_student_log(log_req("stu1", 1, 7), 10_000).unwrap();
    logs.add_student_log(log_req("stu1", 1, 7), 10_400).unwrap();
    // both fall in the window: the later one wins
    let i = logs
        .find_recent_student_log(&"stu1".to_string(), 1, 10_250)
        .unwrap();
    assert_eq!(logs.logs[i].fin_time, 10_400);
    // only the later one falls in the window
    let j = logs
        .find_recent_student_log(&"stu1".to_string(), 1, 10_450)
        .unwrap();
    assert_eq!(logs.logs[j].fin_time, 10_400);
    // nothing recent far in the future
    assert!(logs
        .find_recent_student_log(&"stu1".to_string(), 1, 20_000)
        .is_none());
}

#[test]
fn update_touches_only_unconfirmed_logs() {
    let mut logs = LogBook::new();
    let id = logs.add_student_log(log_req("stu1", 1, 7), 1000).unwrap();
    let mut newer = log_req("stu1", 1, 7);
    newer.seat = 4;
    newer.note = "revised".to_string();
    newer.lab_name = "Optics".to_string();
    assert!(logs.update_student_log(id, &newer, 1200));
    assert_eq!(logs.logs[0].seat, 4);
    assert_eq!(logs.logs[0].note, "revised");
    assert_eq!(logs.logs[0].lab_name, "Optics");
    assert_eq!(logs.logs[0].fin_time, 1200);
    assert_eq!(logs.logs[0].confirm, 0);

    assert!(logs.confirm_student_log(id, &"good".to_string(), &"Prof".to_string(), 1300));
    assert_eq!(logs.logs[0].confirm, 1);
    assert_eq!(logs.logs[0].tea_note, "good");
    assert_eq!(logs.logs[0].tea_name, "Prof");
    assert_eq!(logs.logs[0].fin_time, 1300);

    // a confirmed log is no longer student-editable
    assert!(!logs.update_student_log(id, &newer, 1400));
    assert_eq!(logs.logs[0].fin_time, 1300);
    // unknown ids update nothing
    assert!(!logs.update_student_log(id + 7, &newer, 1400));
    assert!(!logs.confirm_student_log(id + 7, &"n".to_string(), &"P".to_string(), 1400));
}

#[test]
fn listings_filter_by_subcourse_window_and_room() {
    let mut logs = LogBook::new();
    logs.add_student_log(log_req("a", 1, 7), 1000).unwrap();
    logs.add_student_log(log_req("b", 1, 7), 1100).unwrap();
    logs.add_student_log(log_req("c", 2, 8), 1100).unwrap();
    logs.add_student_log(log_req("d", 1, 7), 1500).unwrap();

    let recent = logs.list_recent_logs(1, 1450);
    // cutoff 1150: only the log finished at 1500
    assert_eq!(recent.len(), 1);
    assert_eq!(recent[0].stu_id, "d");

    // at 1400 the cutoff is 1100: the logs finished at 1100 and 1500
    let recent2 = logs.list_recent_logs(1, 1400);
    assert_eq!(recent2.len(), 2);
    assert_eq!(recent2[0].stu_id, "b");
    assert_eq!(recent2[1].stu_id, "d");

    // room listings come most recent finish first
    let by_room = logs.find_student_logs_by_room(7, 1000, 1100);
    assert_eq!(by_room.len(), 2);
    assert!(by_room.iter().all(|l| l.room_id == 7));
    assert_eq!(by_room[0].fin_time, 1100);
    assert_eq!(by_room[1].fin_time, 1000);
    assert!(logs.find_student_logs_by_room(8, 0, 999).is_empty());
}

#[test]
fn log_lookup_by_schedule_name() {
    let mut logs = LogBook::new();
    let mut l1 = log_req("stu1", 1, 7);
    l1.lab_name = "Optics".to_string();
    logs.add_student_log(l1, 1000).unwrap();
    let mut l2 = log_req("stu1", 1, 7);
    l2.lab_name = "Circuits".to_string();
    logs.add_student_log(l2, 2000).unwrap();

    let i = logs
        .get_student_log_by_schedule(&"stu1".to_string(), &"Circuits".to_string())
        .unwrap();
    assert_eq!(logs.logs[i].lab_name, "Circuits");
    assert!(logs
        .get_student_log_by_schedule(&"stu2".to_string(), &"Circuits".to_string())
        .is_none());
}

#[test]
fn week_number_floors_toward_minus_infinity() {
    assert_eq!(week_number(DAY0 + 13, DAY0, 0), Some(2));
    assert_eq!(week_number(DAY0 + 14, DAY0, 0), Some(3));
    assert_eq!(week_number(DAY0, DAY0, 0), Some(1));
    // a day before the semester starts counts as week 0
    assert_eq!(week_number(DAY0 - 1, DAY0, 0), Some(0));
    assert_eq!(week_number(DAY0 - 7, DAY0, 0), Some(0));
    assert_eq!(week_number(DAY0 - 8, DAY0, 0), Some(-1));
    // the lag shifts the count
    assert_eq!(week_number(DAY0 + 13, DAY0, 2), Some(4));
    // an absurd lag overflows to None
    assert_eq!(week_number(DAY0, DAY0, i64::MAX), None);
}

#[test]
fn the_current_semester_is_the_covering_one() {
    let semesters = vec![
        semester(1, DAY0, DAY0 + 100),
        semester(2, DAY0 + 200, DAY0 + 300),
    ];
    assert_eq!(current_semester_index(&semesters, DAY0 + 50), Some(0));
    assert_eq!(current_semester_index(&semesters, DAY0 + 250), Some(1));
    assert_eq!(current_semester_index(&semesters, DAY0 + 150), None);
    // boundaries are inclusive
    assert_eq!(current_semester_index(&semesters, DAY0), Some(0));
    assert_eq!(current_semester_index(&semesters, DAY0 + 100), Some(0));
}

#[test]
fn semesters_and_schedules_are_found_by_id() {
    let semesters = vec![semester(1, DAY0, DAY0 + 100), semester(2, DAY0 + 200, DAY0 + 300)];
    assert_eq!(get_semester_by_id(&semesters, 2).unwrap().start, DAY0 + 200);
    assert!(matches!(
        get_semester_by_id(&semesters, 3),
        Err(OpError::NotFound)
    ));
    let schedules = vec![schedule(9, 3, "Optics"), schedule(9, 4, "Circuits")];
    assert_eq!(get_schedule_by_id(&schedules, 4).unwrap().name, "Circuits");
    assert!(matches!(
        get_schedule_by_id(&schedules, 7),
        Err(OpError::NotFound)
    ));
}

#[test]
fn pagination_offset_counts_from_page_one() {
    let p = PaginationParams {
        page: Some(3),
        page_size: Some(10),
    };
    assert_eq!(p.offset(), 20);
    let defaults = PaginationParams {
        page: None,
        page_size: None,
    };
    assert_eq!(defaults.offset(), 0);
    let zero = PaginationParams {
        page: Some(0),
        page_size: Some(10),
    };
    assert_eq!(zero.offset(), 0);
    let big = PaginationParams {
        page: Some(usize::MAX),
        page_size: Some(usize::MAX),
    };
    assert_eq!(big.offset(), usize::MAX);
}

#[test]
fn the_clock_is_internally_consistent() {
    let (day, now) = now_instant();
    let minute = now - day * 1440;
    assert!((0..1440).contains(&minute));
}
