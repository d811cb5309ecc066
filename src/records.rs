use vstd::prelude::*;

verus! {

/// Credentials offered at sign-in.
pub struct Login {
    pub email: String,
    pub password: String,
}

/// A request that names one patient.
pub struct PatientID {
    pub patient_id: i64,
}

/// A new patient's registration details.
pub struct Patient {
    pub name: String,
    pub email: String,
    pub phone: String,
    pub password: String,
}

/// Demographic fields a patient may update.
pub struct PatientInfoInput {
    pub patient_id: i64,
    pub gender: String,
    pub weight: i32,
    pub age: i32,
    pub blood_group: String,
}

/// A prescription to record for a patient.
pub struct PrescriptionInfoInput {
    pub patient_id: i32,
    pub doctor_id: i32,
    pub prescription: String,
    pub date: String,
}

/// A request scoped to one doctor on one day.
pub struct DoctorDate {
    pub doctor_id: i64,
    pub date: String,
}

/// A request scoped to one doctor, one patient and one day.
pub struct DoctorPatientDate {
    pub doctor_id: i64,
    pub patient_id: i64,
    pub date: String,
}

/// A new doctor's registration details.
pub struct Doctor {
    pub name: String,
    pub speciality: i64,
    pub city: String,
    pub address: String,
    pub email: String,
    pub phone: String,
    pub password: String,
}

/// A city to search in.
pub struct City {
    pub city: String,
}

/// A search by city and appointment type; an empty field matches all.
pub struct CityApptype {
    pub city: String,
    pub apptype: String,
}

/// A request to book a timed appointment.
pub struct Appointment {
    pub doctor_id: i64,
    pub patient_id: i64,
    pub apptype: i64,
    pub slot_id: i64,
    pub date: String,
    pub phyorvirt: String,
    pub symptom: String,
}

/// A request to join a doctor's queue for a day (token or emergency visit).
pub struct Token {
    pub doctor_id: i64,
    pub patient_id: i64,
    pub apptype: i64,
    pub date: String,
    pub symptom: String,
}

/// A request to cancel a patient's appointments with a doctor on a day.
pub struct CancelAppointment {
    pub doctor_id: i64,
    pub patient_id: i64,
    pub date: String,
}

/// A credential to store.
pub struct Registration {
    pub email: String,
    pub password: String,
    pub isdoctor: bool,
}

/// A queue position as stored for a patient.
pub struct TokenNumber {
    pub num: i32,
}

/// A queue position for a doctor and day.
pub struct TokenNumberPrimary {
    pub num: i64,
}

/// One of a doctor's daily slots and whether it is free on a day.
pub struct Timeslots {
    pub time_start: String,
    pub available: bool,
    pub slot_id: i64,
}

/// A prescription as listed to its patient.
pub struct Prescriptions {
    pub docname: String,
    pub date: String,
    pub prescription: String,
}

/// A past appointment as listed to its patient.
pub struct PrevAppointments {
    pub docname: String,
    pub date: String,
    pub phyorvirt: String,
    pub appstatus: String,
    pub prescription_id: i32,
    pub appname: String,
}

/// A doctor as listed in a city.
pub struct DoctorInfo {
    pub docid: i64,
    pub docname: String,
    pub specname: String,
    pub address: String,
}

/// A patient's stored profile.
pub struct PatientInfo {
    pub name: String,
    pub email: String,
    pub phone: String,
    pub gender: String,
    pub weight: i32,
    pub age: i32,
    pub blood_group: String,
}

/// A doctor's price for one appointment type.
pub struct DoctorPrices {
    pub docid: i64,
    pub docname: String,
    pub city: String,
    pub address: String,
    pub apptype: String,
    pub appid: i64,
    pub price: i32,
    pub specname: String,
}

/// An appointment type.
pub struct Apptypes {
    pub id: i64,
    pub name: String,
}

/// A city where some doctor practises.
pub struct Cities {
    pub city: String,
}

/// A stored appointment row as a doctor sees it, date as `YYYY-MM-DD`.
pub struct DoctorAppointments {
    pub id: i64,
    pub patient_id: i32,
    pub apptype: i32,
    pub date: String,
    pub phyorvirt: String,
    pub status: String,
    pub slot_id: i32,
    pub symptom: String,
}

/// A stored emergency visit as a doctor sees it.
pub struct EmergencyAppointments {
    pub id: i32,
    pub patient_id: i32,
    pub apptype: i32,
    pub symptom: String,
}

/// A medical speciality.
pub struct Specialities {
    pub id: i64,
    pub name: String,
    pub desc: String,
}

/// A stored credential row.
pub struct LoginTable {
    pub salt: String,
    pub hashedpass: String,
    pub isdoctor: bool,
}

/// The identity and role that a verified bearer credential carries.
#[derive(Clone, Copy, Debug, PartialEq, Eq, Structural)]
pub struct JWT {
    pub isdoctor: bool,
    pub id: i64,
}

/// The claims inside a bearer credential.
pub struct InternalJWT {
    pub isdoctor: bool,
    pub id: String,
    pub exp: usize,
}

} // verus!
