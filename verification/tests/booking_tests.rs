use chrono::Datelike;
use labcourse::booking::{agenda_from_ymd, check_meeting_conflict, initial_confirm, BookingBook};
use labcourse::models::MeetingAgenda;
use labcourse::perm::{PERMISSION_MEETING_MANAGER, PERMISSION_STUDENT};
use labcourse::OpError;

fn agenda(
    repeat: bool,
    year: i32,
    month: u32,
    day: u32,
    start: i64,
    end: i64,
    room: i64,
) -> MeetingAgenda {
    agenda_from_ymd(
        &"meeting".to_string(),
        &"user1".to_string(),
        &"User One".to_string(),
        repeat,
        year,
        month,
        day,
        start,
        end,
        room,
    )
    .unwrap()
}

const H9: i64 = 9 * 60;
const H10: i64 = 10 * 60;
const H11: i64 = 11 * 60;

#[test]
fn weekday_matches_the_calendar() {
    // 2024-10-09 is a Wednesday, 2024-10-07 a Monday
    let wed = agenda(false, 2024, 10, 9, H9, H10, 1);
    let mon = agenda(false, 2024, 10, 7, H9, H10, 1);
    let expected_wed = chrono::NaiveDate::from_ymd_opt(2024, 10, 9)
        .unwrap()
        .weekday()
        .num_days_from_sunday();
    assert_eq!(wed.weekday as u32, expected_wed);
    assert_eq!(wed.weekday, 3);
    assert_eq!(mon.weekday, 1);
    // day numbers come from the calendar, not from the raw arguments
    let wed_days = chrono::Datelike::num_days_from_ce(
        &chrono::NaiveDate::from_ymd_opt(2024, 10, 9).unwrap(),
    ) as i64;
    assert_eq!(wed.date, wed_days);
    assert_eq!(mon.date, wed_days - 2);
}

#[test]
fn nonexistent_dates_are_invalid() {
    let r = agenda_from_ymd(
        &"m".to_string(),
        &"u".to_string(),
        &"U".to_string(),
        false,
        2023,
        2,
        29,
        H9,
        H10,
        1,
    );
    assert!(matches!(r, Err(OpError::Invalid)));
    let r2 = agenda_from_ymd(
        &"m".to_string(),
        &"u".to_string(),
        &"U".to_string(),
        false,
        2023,
        0,
        10,
        H9,
        H10,
        1,
    );
    assert!(matches!(r2, Err(OpError::Invalid)));
}

#[test]
fn recurring_wednesday_blocks_a_oneoff_wednesday() {
    let mut book = BookingBook::new();
    // X: room 1, recurring, anchored on a Wednesday, 09:00-10:00,
    // created by a meeting manager, so confirmed at once
    let x = agenda(true, 2024, 10, 9, H9, H10, 1);
    let x_id = book
        .add_meeting_agenda(x, PERMISSION_MEETING_MANAGER)
        .unwrap();
    assert!(book.get_meeting_agenda_by_id(x_id).unwrap().confirm);

    // Y: room 1, one-off, dated on another Wednesday, 09:30-09:45
    let y = agenda(false, 2024, 11, 13, H9 + 30, H9 + 45, 1);
    match book.add_meeting_agenda(y, PERMISSION_STUDENT) {
        Err(OpError::Conflict(i)) => {
            assert_eq!(book.agendas[i].id, x_id);
        }
        other => panic!("expected a conflict, got {:?}", other),
    }
}

#[test]
fn recurring_monday_vs_oneoff_monday_and_tuesday() {
    let mut book = BookingBook::new();
    // recurring Monday 10:00-11:00
    let x = agenda(true, 2024, 10, 7, H10, H11, 1);
    book.add_meeting_agenda(x, PERMISSION_MEETING_MANAGER).unwrap();

    // a one-off booking dated on some Monday at 10:30-10:45 conflicts
    let monday = agenda(false, 2024, 12, 2, H10 + 30, H10 + 45, 1);
    assert!(matches!(
        book.add_meeting_agenda(monday, PERMISSION_STUDENT),
        Err(OpError::Conflict(_))
    ));

    // the same slot on a Tuesday does not
    let tuesday = agenda(false, 2024, 12, 3, H10 + 30, H10 + 45, 1);
    assert!(book.add_meeting_agenda(tuesday, PERMISSION_STUDENT).is_ok());
}

#[test]
fn conflict_check_is_symmetric() {
    let pairs = [
        // one-off vs recurring on the same weekday
        (agenda(false, 2024, 10, 9, H9, H10, 1), agenda(true, 2024, 10, 16, H9 + 30, H10 + 30, 1)),
        // two one-offs on the same date
        (agenda(false, 2024, 10, 9, H9, H10, 1), agenda(false, 2024, 10, 9, H9 + 15, H9 + 20, 1)),
        // two one-offs on different dates, same weekday... recurring absent
        (agenda(false, 2024, 10, 9, H9, H10, 1), agenda(false, 2024, 10, 16, H9, H10, 1)),
        // different rooms never conflict
        (agenda(false, 2024, 10, 9, H9, H10, 1), agenda(false, 2024, 10, 9, H9, H10, 2)),
        // touching intervals do not overlap
        (agenda(true, 2024, 10, 9, H9, H10, 1), agenda(true, 2024, 10, 16, H10, H11, 1)),
    ];
    for (mut a, mut b) in pairs {
        a.id = 1;
        b.id = 2;
        let ab = check_meeting_conflict(&vec![b.clone()], &a).is_some();
        let ba = check_meeting_conflict(&vec![a.clone()], &b).is_some();
        assert_eq!(ab, ba);
    }
}

#[test]
fn oneoff_agendas_conflict_only_on_the_same_date() {
    let mut book = BookingBook::new();
    let a = agenda(false, 2024, 10, 9, H9, H10, 1);
    book.add_meeting_agenda(a, PERMISSION_STUDENT).unwrap();

    // same date, overlapping time: refused
    let same_day = agenda(false, 2024, 10, 9, H9 + 30, H10 + 30, 1);
    assert!(matches!(
        book.add_meeting_agenda(same_day, PERMISSION_STUDENT),
        Err(OpError::Conflict(_))
    ));

    // one week later (same weekday), both one-off: allowed
    let next_week = agenda(false, 2024, 10, 16, H9 + 30, H10 + 30, 1);
    assert!(book.add_meeting_agenda(next_week, PERMISSION_STUDENT).is_ok());
}

#[test]
fn update_rechecks_conflicts_but_not_against_itself() {
    let mut book = BookingBook::new();
    let a = agenda(false, 2024, 10, 9, H9, H10, 1);
    let a_id = book.add_meeting_agenda(a, PERMISSION_STUDENT).unwrap();
    let b = agenda(false, 2024, 10, 10, H9, H10, 1);
    let b_id = book.add_meeting_agenda(b, PERMISSION_STUDENT).unwrap();

    // shifting A within its own slot is fine: A is excluded from the check
    let a_shifted = agenda(false, 2024, 10, 9, H9 + 15, H10, 1);
    assert!(book.update_meeting_agenda(a_id, a_shifted).is_ok());

    // moving A onto B's date is refused
    let a_onto_b = agenda(false, 2024, 10, 10, H9 + 30, H10, 1);
    assert!(matches!(
        book.update_meeting_agenda(a_id, a_onto_b),
        Err(OpError::Conflict(_))
    ));
    // the stored record is unchanged after the refusal
    let a_now = book.get_meeting_agenda_by_id(a_id).unwrap();
    assert_eq!(a_now.start_time, H9 + 15);

    // updating an unknown id is NotFound
    let ghost_req = agenda(false, 2024, 10, 11, H9, H10, 1);
    assert!(matches!(
        book.update_meeting_agenda(b_id + 100, ghost_req),
        Err(OpError::NotFound)
    ));
}

#[test]
fn confirm_and_delete_work_by_id() {
    let mut book = BookingBook::new();
    let a = agenda(false, 2024, 10, 9, H9, H10, 1);
    let a_id = book.add_meeting_agenda(a, PERMISSION_STUDENT).unwrap();
    assert!(!book.get_meeting_agenda_by_id(a_id).unwrap().confirm);

    assert!(book.confirm_meeting_agenda(a_id).is_ok());
    assert!(book.get_meeting_agenda_by_id(a_id).unwrap().confirm);
    assert!(matches!(
        book.confirm_meeting_agenda(a_id + 5),
        Err(OpError::NotFound)
    ));

    assert!(book.delete_meeting_agenda(a_id));
    assert!(!book.delete_meeting_agenda(a_id));
    assert!(matches!(
        book.get_meeting_agenda_by_id(a_id),
        Err(OpError::NotFound)
    ));
}

#[test]
fn listing_filters_by_room() {
    let mut book = BookingBook::new();
    let a = agenda(false, 2024, 10, 9, H9, H10, 1);
    let b = agenda(false, 2024, 10, 9, H9, H10, 2);
    let c = agenda(false, 2024, 10, 10, H10, H11, 1);
    book.add_meeting_agenda(a, PERMISSION_STUDENT).unwrap();
    book.add_meeting_agenda(b, PERMISSION_STUDENT).unwrap();
    book.add_meeting_agenda(c, PERMISSION_STUDENT).unwrap();

    let room1 = book.list_meeting_agendas(1);
    assert_eq!(room1.len(), 2);
    assert!(room1.iter().all(|x| x.room_id == 1));
    assert_eq!(book.list_meeting_agendas(3).len(), 0);
}

#[test]
fn initial_confirm_follows_the_manager_bit() {
    assert!(initial_confirm(PERMISSION_MEETING_MANAGER));
    assert!(initial_confirm(
        PERMISSION_MEETING_MANAGER | PERMISSION_STUDENT
    ));
    assert!(!initial_confirm(PERMISSION_STUDENT));
    assert!(!initial_confirm(0));
}
