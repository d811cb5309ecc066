use clinic_booking::auth::{authorize, bearer_span};
use clinic_booking::booking::BookingError;
use clinic_booking::date::CalendarDate;
use clinic_booking::records::{DoctorAppointments, InternalJWT, LoginTable, JWT};
use clinic_booking::rows::{after_insert_conflict, number_after, rows_leave_slot_free, InsertStep, INSERT_ATTEMPTS};
use clinic_booking::status::BookingStatus;

fn row(slot_id: i32, date: &str, status: &str) -> DoctorAppointments {
    DoctorAppointments {
        id: 1,
        patient_id: 7,
        apptype: 1,
        date: date.to_string(),
        phyorvirt: "virtual".to_string(),
        status: status.to_string(),
        slot_id,
        symptom: "none".to_string(),
    }
}

const MARCH_5: CalendarDate = CalendarDate { year: 2024, month: 3, day: 5 };

#[test]
fn stored_rows_decide_whether_a_slot_is_free() {
    assert!(rows_leave_slot_free(&vec![], 3, MARCH_5));
    assert!(!rows_leave_slot_free(&vec![row(3, "2024-03-05", "scheduled")], 3, MARCH_5));
    assert!(!rows_leave_slot_free(&vec![row(3, "2024-03-05", "completed")], 3, MARCH_5));
    assert!(rows_leave_slot_free(&vec![row(3, "2024-03-05", "cancelled")], 3, MARCH_5));
    assert!(rows_leave_slot_free(
        &vec![row(4, "2024-03-05", "scheduled"), row(3, "2024-03-06", "ongoing")],
        3,
        MARCH_5
    ));
}

#[test]
fn an_unreadable_stored_date_fails_closed() {
    assert!(!rows_leave_slot_free(&vec![row(9, "yesterday", "cancelled")], 3, MARCH_5));
}

#[test]
fn the_next_number_follows_the_count() {
    assert_eq!(number_after(0), Some(1));
    assert_eq!(number_after(41), Some(42));
    assert_eq!(number_after(-1), None);
    assert_eq!(number_after(i64::MAX), None);
}

#[test]
fn lost_races_are_retried_a_bounded_number_of_times() {
    assert_eq!(after_insert_conflict(0, BookingError::Duplicate), InsertStep::Retry);
    assert_eq!(after_insert_conflict(INSERT_ATTEMPTS - 1, BookingError::Duplicate), InsertStep::Retry);
    assert_eq!(
        after_insert_conflict(INSERT_ATTEMPTS, BookingError::SlotConflict),
        InsertStep::Finish(BookingError::SlotConflict)
    );
}

#[test]
fn authorization_needs_the_same_identity_and_role() {
    let claim = Some(JWT { isdoctor: false, id: 12 });
    assert!(authorize(&claim, 12, false));
    assert!(!authorize(&claim, 13, false));
    assert!(!authorize(&claim, 12, true));
    assert!(!authorize(&None, 12, false));
}

#[test]
fn claims_carry_the_identity_as_decimal_text() {
    let claims = InternalJWT { isdoctor: true, id: "345".to_string(), exp: 1000000 };
    assert_eq!(claims.identity(), Some(JWT { isdoctor: true, id: 345 }));
    let bad = InternalJWT { isdoctor: false, id: "abc".to_string(), exp: 1000000 };
    assert_eq!(bad.identity(), None);
}

#[test]
fn stored_credentials_accept_only_their_password() {
    let (hash, salt) = argon_hash_password::create_hash_and_salt("correct horse").unwrap();
    let stored = LoginTable { salt, hashedpass: hash, isdoctor: false };
    assert!(stored.accepts(&"correct horse".to_string()));
}

#[test]
fn stored_credentials_refuse_another_password() {
    let (hash, salt) = argon_hash_password::create_hash_and_salt("correct horse").unwrap();
    let stored = LoginTable { salt, hashedpass: hash, isdoctor: false };
    assert!(!stored.accepts(&"wrong horse".to_string()));
}

#[test]
fn unreadable_stored_salt_refuses() {
    let broken = LoginTable { salt: "!".to_string(), hashedpass: "x".to_string(), isdoctor: false };
    assert!(!broken.accepts(&"correct horse".to_string()));
}

#[test]
fn statuses_follow_the_lifecycle() {
    assert!(BookingStatus::Scheduled.can_become(BookingStatus::Ongoing));
    assert!(BookingStatus::Scheduled.can_become(BookingStatus::Cancelled));
    assert!(BookingStatus::Ongoing.can_become(BookingStatus::Completed));
    assert!(BookingStatus::Ongoing.can_become(BookingStatus::Cancelled));
    assert!(!BookingStatus::Scheduled.can_become(BookingStatus::Completed));
    assert!(!BookingStatus::Completed.can_become(BookingStatus::Cancelled));
    assert!(!BookingStatus::Cancelled.can_become(BookingStatus::Scheduled));
    assert!(BookingStatus::Completed.is_terminal() && BookingStatus::Cancelled.is_terminal());
    assert!(!BookingStatus::Scheduled.is_terminal() && !BookingStatus::Ongoing.is_terminal());
}

#[test]
fn status_words_read_back() {
    for s in [BookingStatus::Scheduled, BookingStatus::Ongoing, BookingStatus::Completed, BookingStatus::Cancelled] {
        assert_eq!(BookingStatus::from_label(&s.label()), Some(s));
    }
    assert_eq!(BookingStatus::Cancelled.label(), "cancelled");
    assert_eq!(BookingStatus::from_label(&"done".to_string()), None);
}

#[test]
fn the_credential_follows_the_bearer_word() {
    let h = "Bearer abc.def";
    let (a, b) = bearer_span(h.as_bytes());
    assert_eq!(&h[a..b], " abc.def");
    let h = "abc.def";
    assert_eq!(bearer_span(h.as_bytes()), (0, 7));
    let h = "x Bearer tok Bearer more";
    let (a, b) = bearer_span(h.as_bytes());
    assert_eq!(&h[a..b], " tok ");
    let h = "BearerBearer";
    assert_eq!(bearer_span(h.as_bytes()), (6, 6));
    assert_eq!(bearer_span(b""), (0, 0));
}
