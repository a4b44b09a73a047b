use labcourse::catalog::{
    get_course_by_id, get_labroom_by_id, get_subcourse_with_name, get_user_by_id,
};
use labcourse::enroll::{redact_tea_ids_with_name, GroupStore};
use labcourse::models::{Course, Labroom, SubCourse, SubCourseWithName, User};
use labcourse::perm::{
    course_grants_linux, upgrade_linux_permission, PERMISSION_LINUX, PERMISSION_STUDENT,
    PERMISSION_TEACHER,
};
use labcourse::OpError;

fn a_course(id: i64, name: &str) -> Course {
    Course {
        id,
        name: name.to_string(),
        ename: "e".to_string(),
        code: "C1".to_string(),
        tea_id: "tea1".to_string(),
        tea_name: "T".to_string(),
        intro: String::new(),
        mailbox: String::new(),
        term: 1,
    }
}

fn a_labroom(id: i64, room: &str) -> Labroom {
    Labroom {
        id,
        room: room.to_string(),
        name: "lab".to_string(),
        manager: "M".to_string(),
        tea_id: "tea1".to_string(),
    }
}

fn named_sub(id: i64, course_name: &str) -> SubCourseWithName {
    SubCourseWithName {
        id,
        weekday: 1,
        room_name: "R".to_string(),
        tea_name: "T".to_string(),
        tea_id: "tea1".to_string(),
        year_id: 1,
        stu_limit: 5,
        course_id: 1,
        lag_week: 0,
        course_name: course_name.to_string(),
    }
}

#[test]
fn users_are_found_by_identity() {
    let users = vec![
        User {
            user_id: "u1".to_string(),
            username: "One".to_string(),
            permission: 1,
        },
        User {
            user_id: "u2".to_string(),
            username: "Two".to_string(),
            permission: 2,
        },
    ];
    let u = get_user_by_id(&users, &"u2".to_string()).unwrap();
    assert_eq!(u.username, "Two");
    assert_eq!(u.permission, 2);
    assert!(matches!(
        get_user_by_id(&users, &"u3".to_string()),
        Err(OpError::NotFound)
    ));
}

#[test]
fn courses_and_labrooms_are_found_by_id() {
    let courses = vec![a_course(1, "Physics"), a_course(2, "Linux Basics")];
    let rooms = vec![a_labroom(7, "B101")];
    assert_eq!(get_course_by_id(&courses, 2).unwrap().name, "Linux Basics");
    assert!(matches!(get_course_by_id(&courses, 3), Err(OpError::NotFound)));
    assert_eq!(get_labroom_by_id(&rooms, 7).unwrap().room, "B101");
    assert!(matches!(get_labroom_by_id(&rooms, 8), Err(OpError::NotFound)));
}

#[test]
fn subcourse_decoration_joins_names() {
    let courses = vec![a_course(9, "Physics")];
    let rooms = vec![a_labroom(7, "B101")];
    let sub = SubCourse {
        id: 3,
        weekday: 2,
        room_id: 7,
        tea_name: "T".to_string(),
        tea_id: "tea1".to_string(),
        year_id: 1,
        stu_limit: 5,
        course_id: 9,
        lag_week: 0,
    };
    let w = get_subcourse_with_name(&sub, &courses, &rooms).unwrap();
    assert_eq!(w.id, 3);
    assert_eq!(w.room_name, "B101");
    assert_eq!(w.course_name, "Physics");

    let orphan = SubCourse { room_id: 99, ..sub.clone() };
    assert!(matches!(
        get_subcourse_with_name(&orphan, &courses, &rooms),
        Err(OpError::NotFound)
    ));
}

#[test]
fn linux_course_names_are_recognised_by_prefix() {
    assert!(course_grants_linux(&"Linux Basics".to_string()));
    assert!(course_grants_linux(&"Linux".to_string()));
    assert!(!course_grants_linux(&"Linu".to_string()));
    assert!(!course_grants_linux(&"Advanced Linux".to_string()));
    assert!(!course_grants_linux(&"".to_string()));
}

#[test]
fn linux_enrollment_upgrades_students_only() {
    let with_linux = vec![named_sub(1, "Physics"), named_sub(2, "Linux Basics")];
    let without = vec![named_sub(1, "Physics")];
    assert_eq!(
        upgrade_linux_permission(PERMISSION_STUDENT, &with_linux),
        PERMISSION_STUDENT | PERMISSION_LINUX
    );
    assert_eq!(
        upgrade_linux_permission(PERMISSION_STUDENT, &without),
        PERMISSION_STUDENT
    );
    // teachers keep their permission value
    assert_eq!(
        upgrade_linux_permission(PERMISSION_TEACHER, &with_linux),
        PERMISSION_TEACHER
    );
}

#[test]
fn decorated_listings_are_redacted_for_non_teachers() {
    let mut subs = vec![named_sub(1, "Physics"), named_sub(2, "Linux Basics")];
    redact_tea_ids_with_name(&mut subs, PERMISSION_STUDENT);
    assert!(subs.iter().all(|s| s.tea_id.is_empty()));
    assert_eq!(subs[1].course_name, "Linux Basics");
}

#[test]
fn teachers_list_their_own_semester_subcourses() {
    let mut g = GroupStore::new();
    let mk = |tea: &str, year: i64| SubCourse {
        id: 0,
        weekday: 1,
        room_id: 1,
        tea_name: "T".to_string(),
        tea_id: tea.to_string(),
        year_id: year,
        stu_limit: 5,
        course_id: 1,
        lag_week: 0,
    };
    g.add_subcourse(mk("tea1", 1)).unwrap();
    g.add_subcourse(mk("tea2", 1)).unwrap();
    g.add_subcourse(mk("tea1", 2)).unwrap();
    let own = g.list_teacher_subcourses(&"tea1".to_string(), 1);
    assert_eq!(own.len(), 1);
    assert_eq!(own[0].tea_id, "tea1");
    assert_eq!(own[0].year_id, 1);
}
