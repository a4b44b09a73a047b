use labcourse::enroll::redact_tea_ids;
use labcourse::models::{Course, Equipment, MeetingAgenda, StudentTimeline, SubCourse};
use labcourse::ownership::{
    check_course_perm, check_equip_perm, check_meeting_perm, check_stu_id, check_subcourse_perm,
    check_timeline_create, check_timeline_permission,
};
use labcourse::perm::{
    authorize, derive_login_permission, CheckPermission, PERMISSION_ADMIN, PERMISSION_LAB_MANAGER,
    PERMISSION_MEETING_MANAGER, PERMISSION_STUDENT, PERMISSION_TEACHER,
};
use labcourse::OpError;

fn course(tea_id: &str) -> Course {
    Course {
        id: 1,
        name: "Physics Lab".to_string(),
        ename: "physlab".to_string(),
        code: "PHY101".to_string(),
        tea_id: tea_id.to_string(),
        tea_name: "T".to_string(),
        intro: String::new(),
        mailbox: String::new(),
        term: 1,
    }
}

fn subcourse(tea_id: &str) -> SubCourse {
    SubCourse {
        id: 1,
        weekday: 1,
        room_id: 1,
        tea_name: "T".to_string(),
        tea_id: tea_id.to_string(),
        year_id: 1,
        stu_limit: 10,
        course_id: 1,
        lag_week: 0,
    }
}

fn equipment(owner_id: &str) -> Equipment {
    Equipment {
        id: 1,
        name: "scope".to_string(),
        serial: "SN1".to_string(),
        value: 100,
        position: "shelf".to_string(),
        status: 0,
        note: String::new(),
        owner_id: owner_id.to_string(),
    }
}

fn meeting(userid: &str, confirm: bool) -> MeetingAgenda {
    MeetingAgenda {
        id: 1,
        title: "m".to_string(),
        userid: userid.to_string(),
        username: "U".to_string(),
        repeat: false,
        date: 700000,
        weekday: 1,
        start_time: 540,
        end_time: 600,
        room_id: 1,
        confirm,
    }
}

fn timeline(stu_id: &str, tea_id: &str) -> StudentTimeline {
    StudentTimeline {
        id: 1,
        stu_id: stu_id.to_string(),
        tea_id: tea_id.to_string(),
        schedule_id: 1,
        subschedule: String::new(),
        subcourse_id: 1,
        note: "text".to_string(),
        notetype: 0,
        timestamp: 0,
    }
}

#[test]
fn bitmask_gate_accepts_any_shared_bit() {
    // Teacher | LabManager passes a gate requiring Teacher | Admin
    let p = PERMISSION_TEACHER | PERMISSION_LAB_MANAGER;
    assert_eq!(authorize(Some(p), PERMISSION_TEACHER | PERMISSION_ADMIN), Ok(p));
    // ... and a gate requiring LabManager alone
    assert_eq!(authorize(Some(p), PERMISSION_LAB_MANAGER), Ok(p));
    // a pure Student fails both
    let s = PERMISSION_STUDENT;
    assert_eq!(
        authorize(Some(s), PERMISSION_TEACHER | PERMISSION_ADMIN),
        Err(OpError::Forbidden)
    );
    assert_eq!(
        authorize(Some(s), PERMISSION_LAB_MANAGER),
        Err(OpError::Forbidden)
    );
}

#[test]
fn missing_principal_is_unauthorized_not_forbidden() {
    assert_eq!(
        authorize(None, PERMISSION_ADMIN),
        Err(OpError::Unauthorized)
    );
    let gate = CheckPermission::new(PERMISSION_ADMIN);
    assert_eq!(gate.check(None), Err(OpError::Unauthorized));
    assert_eq!(gate.check(Some(PERMISSION_STUDENT)), Err(OpError::Forbidden));
    assert_eq!(
        gate.check(Some(PERMISSION_ADMIN | PERMISSION_STUDENT)),
        Ok(PERMISSION_ADMIN | PERMISSION_STUDENT)
    );
}

#[test]
fn login_permission_joins_identity_class_and_record() {
    assert_eq!(derive_login_permission(true, None), PERMISSION_TEACHER);
    assert_eq!(derive_login_permission(false, None), PERMISSION_STUDENT);
    assert_eq!(
        derive_login_permission(false, Some(PERMISSION_ADMIN)),
        PERMISSION_STUDENT | PERMISSION_ADMIN
    );
    assert_eq!(
        derive_login_permission(true, Some(PERMISSION_MEETING_MANAGER | PERMISSION_TEACHER)),
        PERMISSION_TEACHER | PERMISSION_MEETING_MANAGER
    );
}

#[test]
fn course_ownership_requires_admin_or_the_teacher() {
    let c = course("tea1");
    let me = "tea1".to_string();
    let other = "tea2".to_string();
    // an admin passes without the resource even being fetched
    assert_eq!(check_course_perm(PERMISSION_ADMIN, &other, None), Ok(()));
    // the recorded teacher passes only with the teacher role
    assert_eq!(
        check_course_perm(PERMISSION_TEACHER, &me, Some(&c)),
        Ok(())
    );
    assert_eq!(
        check_course_perm(PERMISSION_STUDENT, &me, Some(&c)),
        Err(OpError::Forbidden)
    );
    // a teacher who does not own the course fails
    assert_eq!(
        check_course_perm(PERMISSION_TEACHER, &other, Some(&c)),
        Err(OpError::Forbidden)
    );
    // a missing course is NotFound, checked before ownership
    assert_eq!(
        check_course_perm(PERMISSION_TEACHER, &me, None),
        Err(OpError::NotFound)
    );
}

#[test]
fn subcourse_ownership_mirrors_the_course_rule() {
    let s = subcourse("tea1");
    let me = "tea1".to_string();
    let other = "stu9".to_string();
    assert_eq!(check_subcourse_perm(PERMISSION_ADMIN, &other, Some(&s)), Ok(()));
    assert_eq!(check_subcourse_perm(PERMISSION_TEACHER, &me, Some(&s)), Ok(()));
    assert_eq!(
        check_subcourse_perm(PERMISSION_TEACHER, &other, Some(&s)),
        Err(OpError::Forbidden)
    );
    assert_eq!(
        check_subcourse_perm(PERMISSION_TEACHER, &me, None),
        Err(OpError::NotFound)
    );
}

#[test]
fn equipment_is_strictly_owner_only() {
    let e = equipment("owner1");
    let owner = "owner1".to_string();
    let admin = "admin1".to_string();
    assert_eq!(check_equip_perm(&owner, Some(&e)), Ok(()));
    // no admin or teacher exception
    assert_eq!(check_equip_perm(&admin, Some(&e)), Err(OpError::Forbidden));
    assert_eq!(check_equip_perm(&owner, None), Err(OpError::NotFound));
}

#[test]
fn meeting_edit_rights_shift_on_confirmation() {
    let creator = "user1".to_string();
    let other = "user2".to_string();
    let unconfirmed = meeting("user1", false);
    let confirmed = meeting("user1", true);

    // managers and admins always pass
    assert_eq!(
        check_meeting_perm(PERMISSION_MEETING_MANAGER, &other, Some(&confirmed)),
        Ok(())
    );
    assert_eq!(
        check_meeting_perm(PERMISSION_ADMIN, &other, Some(&confirmed)),
        Ok(())
    );
    // the creator may edit only while unconfirmed
    assert_eq!(
        check_meeting_perm(PERMISSION_STUDENT, &creator, Some(&unconfirmed)),
        Ok(())
    );
    assert_eq!(
        check_meeting_perm(PERMISSION_STUDENT, &creator, Some(&confirmed)),
        Err(OpError::Forbidden)
    );
    // strangers never pass
    assert_eq!(
        check_meeting_perm(PERMISSION_STUDENT, &other, Some(&unconfirmed)),
        Err(OpError::Forbidden)
    );
    assert_eq!(
        check_meeting_perm(PERMISSION_STUDENT, &creator, None),
        Err(OpError::NotFound)
    );
}

#[test]
fn stu_id_must_match_the_caller() {
    let me = "stu1".to_string();
    assert_eq!(check_stu_id(&me, &"stu1".to_string()), Ok(()));
    assert_eq!(
        check_stu_id(&me, &"stu2".to_string()),
        Err(OpError::Forbidden)
    );
}

#[test]
fn timeline_create_rules() {
    let me = "stu1".to_string();
    let other = "stu2".to_string();
    // a student may write under their own identity
    assert_eq!(
        check_timeline_create(PERMISSION_STUDENT, &me, &me, 5),
        Ok(())
    );
    // ... but not under another's
    assert_eq!(
        check_timeline_create(PERMISSION_STUDENT, &me, &other, 5),
        Err(OpError::Forbidden)
    );
    // a teacher may write for any student
    assert_eq!(
        check_timeline_create(PERMISSION_TEACHER, &me, &other, 5),
        Ok(())
    );
    // the per-schedule entry cap
    assert_eq!(
        check_timeline_create(PERMISSION_TEACHER, &me, &other, 101),
        Err(OpError::CapacityExceeded)
    );
    assert_eq!(
        check_timeline_create(PERMISSION_TEACHER, &me, &other, 100),
        Ok(())
    );
}

#[test]
fn timeline_delete_rules() {
    let t = timeline("stu1", "tea1");
    let stu = "stu1".to_string();
    let tea = "tea1".to_string();
    let other = "x".to_string();
    // the student may delete while no confirmed log exists
    assert_eq!(
        check_timeline_permission(PERMISSION_STUDENT, Some(&stu), &t, None),
        Ok(())
    );
    assert_eq!(
        check_timeline_permission(PERMISSION_STUDENT, Some(&stu), &t, Some(false)),
        Ok(())
    );
    // ... but not after confirmation
    assert_eq!(
        check_timeline_permission(PERMISSION_STUDENT, Some(&stu), &t, Some(true)),
        Err(OpError::Forbidden)
    );
    // the teacher and an admin still may
    assert_eq!(
        check_timeline_permission(0, Some(&tea), &t, Some(true)),
        Ok(())
    );
    assert_eq!(
        check_timeline_permission(PERMISSION_ADMIN, Some(&other), &t, Some(true)),
        Ok(())
    );
    // strangers may not, nor may an anonymous caller
    assert_eq!(
        check_timeline_permission(0, Some(&other), &t, None),
        Err(OpError::Forbidden)
    );
    assert_eq!(
        check_timeline_permission(0, None, &t, None),
        Err(OpError::Forbidden)
    );
}

#[test]
fn tea_ids_are_blanked_for_non_teachers() {
    let mut subs = vec![subcourse("tea1"), subcourse("tea2")];
    redact_tea_ids(&mut subs, PERMISSION_STUDENT);
    assert!(subs.iter().all(|s| s.tea_id.is_empty()));
    assert_eq!(subs[0].tea_name, "T");

    let mut subs2 = vec![subcourse("tea1")];
    redact_tea_ids(&mut subs2, PERMISSION_TEACHER | PERMISSION_STUDENT);
    assert_eq!(subs2[0].tea_id, "tea1");
}
