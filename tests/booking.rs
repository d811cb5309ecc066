use clinic_booking::booking::{BookingError, Schedule};
use clinic_booking::date::{parse_date, CalendarDate};
use clinic_booking::records::{Appointment, CancelAppointment, Token, JWT};
use clinic_booking::status::BookingStatus;

fn patient(id: i64) -> Option<JWT> {
    Some(JWT { isdoctor: false, id })
}

fn day(year: i32, month: u32, day: u32) -> CalendarDate {
    CalendarDate { year, month, day }
}

fn appointment(doctor: i64, patient_id: i64, slot: i64, date: &str) -> Appointment {
    Appointment {
        doctor_id: doctor,
        patient_id,
        apptype: 1,
        slot_id: slot,
        date: date.to_string(),
        phyorvirt: "physical".to_string(),
        symptom: "cough".to_string(),
    }
}

fn token(doctor: i64, patient_id: i64, apptype: i64, date: &str) -> Token {
    Token {
        doctor_id: doctor,
        patient_id,
        apptype,
        date: date.to_string(),
        symptom: "fever".to_string(),
    }
}

fn cancel(doctor: i64, patient_id: i64, date: &str) -> CancelAppointment {
    CancelAppointment { doctor_id: doctor, patient_id, date: date.to_string() }
}

#[test]
fn parse_date_reads_iso_dates() {
    assert_eq!(parse_date("2024-03-05"), Some(day(2024, 3, 5)));
    assert_eq!(parse_date("2024-02-30"), None);
    assert_eq!(parse_date("05/03/2024"), None);
    assert_eq!(parse_date(""), None);
}

#[test]
fn booking_a_free_slot_stores_a_scheduled_appointment() {
    let mut s = Schedule::new();
    assert_eq!(s.create_appointment(&patient(7), &appointment(1, 7, 3, "2024-03-05")), Ok(0));
    let a = &s.appointments()[0];
    assert_eq!(a.doctor_id, 1);
    assert_eq!(a.patient_id, 7);
    assert_eq!(a.slot_id, 3);
    assert_eq!(a.date, day(2024, 3, 5));
    assert_eq!(a.status, BookingStatus::Scheduled);
    assert_eq!(a.phyorvirt, "physical");
    assert!(!s.is_slot_free(1, day(2024, 3, 5), 3));
    assert!(s.is_slot_free(1, day(2024, 3, 6), 3));
    assert!(s.is_slot_free(1, day(2024, 3, 5), 4));
    assert!(s.is_slot_free(2, day(2024, 3, 5), 3));
}

#[test]
fn second_booking_of_a_held_slot_is_a_conflict() {
    let mut s = Schedule::new();
    assert_eq!(s.create_appointment(&patient(7), &appointment(1, 7, 3, "2024-03-05")), Ok(0));
    assert_eq!(
        s.create_appointment(&patient(8), &appointment(1, 8, 3, "2024-03-05")),
        Err(BookingError::SlotConflict)
    );
    assert_eq!(s.appointments().len(), 1);
    assert_eq!(s.create_appointment(&patient(8), &appointment(1, 8, 4, "2024-03-05")), Ok(1));
}

#[test]
fn booking_with_a_bad_date_is_refused() {
    let mut s = Schedule::new();
    assert_eq!(
        s.create_appointment(&patient(7), &appointment(1, 7, 3, "2024-13-01")),
        Err(BookingError::InvalidDate)
    );
    assert_eq!(s.appointments().len(), 0);
}

#[test]
fn booking_for_another_patient_is_unauthorized_and_writes_nothing() {
    let mut s = Schedule::new();
    assert_eq!(
        s.create_appointment(&patient(8), &appointment(1, 7, 3, "2024-03-05")),
        Err(BookingError::Unauthorized)
    );
    assert_eq!(
        s.create_appointment(&Some(JWT { isdoctor: true, id: 7 }), &appointment(1, 7, 3, "2024-03-05")),
        Err(BookingError::Unauthorized)
    );
    assert_eq!(
        s.create_appointment(&None, &appointment(1, 7, 3, "2024-03-05")),
        Err(BookingError::Unauthorized)
    );
    assert_eq!(s.appointments().len(), 0);
    assert!(s.is_slot_free(1, day(2024, 3, 5), 3));
}

#[test]
fn cancelling_frees_the_slot_for_another_patient() {
    let mut s = Schedule::new();
    assert_eq!(s.create_appointment(&patient(7), &appointment(1, 7, 3, "2024-03-05")), Ok(0));
    assert_eq!(s.cancel_appointment(&patient(7), &cancel(1, 7, "2024-03-05")), Ok(true));
    assert_eq!(s.appointments()[0].status, BookingStatus::Cancelled);
    assert!(s.is_slot_free(1, day(2024, 3, 5), 3));
    assert_eq!(s.create_appointment(&patient(9), &appointment(1, 9, 3, "2024-03-05")), Ok(1));
    assert_eq!(s.appointments().len(), 2);
}

#[test]
fn cancelling_twice_or_nothing_is_no_error() {
    let mut s = Schedule::new();
    assert_eq!(s.cancel_appointment(&patient(7), &cancel(1, 7, "2024-03-05")), Ok(false));
    assert_eq!(s.create_appointment(&patient(7), &appointment(1, 7, 3, "2024-03-05")), Ok(0));
    assert_eq!(s.cancel_appointment(&patient(7), &cancel(1, 7, "2024-03-05")), Ok(true));
    assert_eq!(s.cancel_appointment(&patient(7), &cancel(1, 7, "2024-03-05")), Ok(false));
    assert_eq!(
        s.cancel_appointment(&patient(8), &cancel(1, 7, "2024-03-05")),
        Err(BookingError::Unauthorized)
    );
    assert_eq!(
        s.cancel_appointment(&patient(7), &cancel(1, 7, "not a date")),
        Err(BookingError::InvalidDate)
    );
}

#[test]
fn cancelling_reaches_only_that_patient_doctor_and_day() {
    let mut s = Schedule::new();
    assert_eq!(s.create_appointment(&patient(7), &appointment(1, 7, 3, "2024-03-05")), Ok(0));
    assert_eq!(s.create_appointment(&patient(7), &appointment(1, 7, 3, "2024-03-06")), Ok(1));
    assert_eq!(s.create_appointment(&patient(8), &appointment(1, 8, 4, "2024-03-05")), Ok(2));
    assert_eq!(s.cancel_appointment(&patient(7), &cancel(1, 7, "2024-03-05")), Ok(true));
    assert_eq!(s.appointments()[0].status, BookingStatus::Cancelled);
    assert_eq!(s.appointments()[1].status, BookingStatus::Scheduled);
    assert_eq!(s.appointments()[2].status, BookingStatus::Scheduled);
}

#[test]
fn completed_appointment_is_not_cancelled_and_keeps_its_slot() {
    let mut s = Schedule::new();
    assert_eq!(s.create_appointment(&patient(7), &appointment(1, 7, 3, "2024-03-05")), Ok(0));
    assert!(s.advance_appointment(0, BookingStatus::Ongoing));
    assert!(s.advance_appointment(0, BookingStatus::Completed));
    assert!(!s.advance_appointment(0, BookingStatus::Cancelled));
    assert_eq!(s.cancel_appointment(&patient(7), &cancel(1, 7, "2024-03-05")), Ok(false));
    assert!(!s.is_slot_free(1, day(2024, 3, 5), 3));
    assert!(!s.advance_appointment(5, BookingStatus::Ongoing));
}

#[test]
fn tokens_are_numbered_from_one_per_doctor_and_day() {
    let mut s = Schedule::new();
    assert_eq!(s.next_token(1, day(2024, 3, 5)), 1);
    assert_eq!(s.create_token(&patient(7), &token(1, 7, 1, "2024-03-05")), Ok(1));
    assert_eq!(s.create_token(&patient(8), &token(1, 8, 1, "2024-03-05")), Ok(2));
    assert_eq!(s.create_token(&patient(9), &token(2, 9, 1, "2024-03-05")), Ok(1));
    assert_eq!(s.create_token(&patient(7), &token(1, 7, 1, "2024-03-06")), Ok(1));
    assert_eq!(s.create_token(&patient(10), &token(1, 10, 1, "2024-03-05")), Ok(3));
    assert_eq!(s.next_token(1, day(2024, 3, 5)), 4);
    assert_eq!(s.tokens()[1].token_number, 2);
    assert_eq!(s.tokens()[1].status, BookingStatus::Scheduled);
}

#[test]
fn repeated_token_request_is_a_duplicate_and_leaves_the_first() {
    let mut s = Schedule::new();
    assert_eq!(s.create_token(&patient(7), &token(1, 7, 1, "2024-03-05")), Ok(1));
    assert_eq!(
        s.create_token(&patient(7), &token(1, 7, 1, "2024-03-05")),
        Err(BookingError::Duplicate)
    );
    assert_eq!(s.tokens().len(), 1);
    assert_eq!(s.tokens()[0].token_number, 1);
    assert_eq!(s.tokens()[0].symptom, "fever");
    // another type is another booking
    assert_eq!(s.create_token(&patient(7), &token(1, 7, 2, "2024-03-05")), Ok(2));
}

#[test]
fn token_requests_are_checked_for_identity_and_date() {
    let mut s = Schedule::new();
    assert_eq!(
        s.create_token(&patient(8), &token(1, 7, 1, "2024-03-05")),
        Err(BookingError::Unauthorized)
    );
    assert_eq!(
        s.create_token(&patient(7), &token(1, 7, 1, "March 5th")),
        Err(BookingError::InvalidDate)
    );
    assert_eq!(s.tokens().len(), 0);
}

#[test]
fn many_patients_in_turn_get_one_to_k() {
    let mut s = Schedule::new();
    let k: i64 = 25;
    for p in 0..k {
        assert_eq!(s.create_token(&patient(100 + p), &token(4, 100 + p, 1, "2024-07-01")), Ok(p + 1));
    }
    let mut numbers: Vec<i64> = s.tokens().iter().map(|t| t.token_number).collect();
    numbers.sort();
    assert_eq!(numbers, (1..=k).collect::<Vec<i64>>());
}

#[test]
fn emergency_numbers_have_their_own_sequence() {
    let mut s = Schedule::new();
    assert_eq!(s.create_token(&patient(7), &token(1, 7, 1, "2024-03-05")), Ok(1));
    assert_eq!(s.create_token(&patient(8), &token(1, 8, 1, "2024-03-05")), Ok(2));
    assert_eq!(s.next_emergency_number(1, day(2024, 3, 5)), 1);
    assert_eq!(s.create_emergency(&patient(9), &token(1, 9, 1, "2024-03-05")), Ok(1));
    assert_eq!(s.create_emergency(&patient(7), &token(1, 7, 1, "2024-03-05")), Ok(2));
    assert_eq!(
        s.create_emergency(&patient(7), &token(1, 7, 1, "2024-03-05")),
        Err(BookingError::Duplicate)
    );
    assert_eq!(
        s.create_emergency(&patient(6), &token(1, 7, 1, "2024-03-05")),
        Err(BookingError::Unauthorized)
    );
    assert_eq!(
        s.create_emergency(&patient(7), &token(1, 7, 1, "2024/03/05")),
        Err(BookingError::InvalidDate)
    );
    assert_eq!(s.emergencies()[1].emergency_no, 2);
    assert_eq!(s.next_emergency_number(1, day(2024, 3, 5)), 3);
    assert_eq!(s.next_token(1, day(2024, 3, 5)), 3);
}

#[test]
fn one_token_is_served_at_a_time() {
    let mut s = Schedule::new();
    assert_eq!(s.current_serving(1, day(2024, 3, 5)), None);
    assert_eq!(s.create_token(&patient(7), &token(1, 7, 1, "2024-03-05")), Ok(1));
    assert_eq!(s.create_token(&patient(8), &token(1, 8, 1, "2024-03-05")), Ok(2));
    assert!(s.advance_token(0, BookingStatus::Ongoing));
    assert_eq!(s.current_serving(1, day(2024, 3, 5)), Some(1));
    assert!(!s.advance_token(1, BookingStatus::Ongoing));
    assert!(s.advance_token(0, BookingStatus::Completed));
    assert_eq!(s.current_serving(1, day(2024, 3, 5)), None);
    assert!(s.advance_token(1, BookingStatus::Ongoing));
    assert_eq!(s.current_serving(1, day(2024, 3, 5)), Some(2));
    assert_eq!(s.current_serving(1, day(2024, 3, 6)), None);
    assert!(!s.advance_token(0, BookingStatus::Ongoing));
    assert!(!s.advance_token(9, BookingStatus::Cancelled));
}
