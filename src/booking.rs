use crate::auth::{authorize, grants};
use crate::date::{parse_date, parsed_date, CalendarDate};
use crate::numbering::{
    count_in_scope, densely_numbered, lemma_count_step, lemma_push_next, NumberedEntry,
};
use crate::records::{Appointment, CancelAppointment, Token, JWT};
use crate::status::{allowed_move, BookingStatus};
use vstd::prelude::*;

verus! {

/// Why a booking operation was refused.
#[derive(Clone, Copy, Debug, PartialEq, Eq, Structural)]
pub enum BookingError {
    /// The date is not a `YYYY-MM-DD` calendar date.
    InvalidDate,
    /// The credential is missing, rejected, or names another identity or role.
    Unauthorized,
    /// A live appointment already holds the doctor's slot on that day.
    SlotConflict,
    /// The same doctor, patient, day and type is already booked.
    Duplicate,
    /// The store cannot take the write.
    StoreUnavailable,
    /// A concurrent writer took the slot or number first; the attempt may be repeated.
    ConflictRetryable,
}

/// A timed appointment as the store holds it.
pub struct AppointmentRecord {
    pub doctor_id: i64,
    pub patient_id: i64,
    pub apptype: i64,
    pub slot_id: i64,
    pub date: CalendarDate,
    pub phyorvirt: String,
    pub symptom: String,
    pub status: BookingStatus,
}

/// A place in a doctor's regular queue for a day.
pub struct TokenRecord {
    pub doctor_id: i64,
    pub patient_id: i64,
    pub apptype: i64,
    pub date: CalendarDate,
    pub token_number: i64,
    pub status: BookingStatus,
    pub symptom: String,
}

/// A place in a doctor's emergency queue for a day.
pub struct EmergencyRecord {
    pub doctor_id: i64,
    pub patient_id: i64,
    pub apptype: i64,
    pub date: CalendarDate,
    pub emergency_no: i64,
    pub symptom: String,
}

// ---- appointments -------------------------------------------------------

/// Appointment `a` holds doctor `d`'s slot `s` on day `t`: any status but
/// cancelled counts.
pub open spec fn occupies(a: AppointmentRecord, d: i64, s: i64, t: CalendarDate) -> bool {
    a.doctor_id == d && a.slot_id == s && a.date == t && a.status != BookingStatus::Cancelled
}

pub open spec fn slot_taken(apps: Seq<AppointmentRecord>, d: i64, s: i64, t: CalendarDate) -> bool {
    exists|i: int| 0 <= i < apps.len() && occupies(#[trigger] apps[i], d, s, t)
}

/// No two appointments hold the same doctor, slot and day.
pub open spec fn exclusive(apps: Seq<AppointmentRecord>) -> bool {
    forall|i: int, j: int|
        0 <= i < apps.len() && 0 <= j < apps.len() && i != j && occupies(
            #[trigger] apps[i],
            apps[j].doctor_id,
            apps[j].slot_id,
            apps[j].date,
        ) ==> !occupies(#[trigger] apps[j], apps[j].doctor_id, apps[j].slot_id, apps[j].date)
}

pub open spec fn new_appointment(req: Appointment, t: CalendarDate) -> AppointmentRecord {
    AppointmentRecord {
        doctor_id: req.doctor_id,
        patient_id: req.patient_id,
        apptype: req.apptype,
        slot_id: req.slot_id,
        date: t,
        phyorvirt: req.phyorvirt,
        symptom: req.symptom,
        status: BookingStatus::Scheduled,
    }
}

/// What booking `req` answers, given the appointments held and the caller's
/// verified identity: the new row's index, or why nothing was written.
pub open spec fn appointment_outcome(
    apps: Seq<AppointmentRecord>,
    caller: Option<JWT>,
    req: Appointment,
) -> Result<usize, BookingError> {
    if !grants(caller, req.patient_id, false) {
        Err(BookingError::Unauthorized)
    } else {
        match parsed_date(req.date@) {
            None => Err(BookingError::InvalidDate),
            Some(t) => if slot_taken(apps, req.doctor_id, req.slot_id, t) {
                Err(BookingError::SlotConflict)
            } else {
                Ok(apps.len() as usize)
            },
        }
    }
}

/// The appointments held after booking `req`.
pub open spec fn appointments_after(
    apps: Seq<AppointmentRecord>,
    caller: Option<JWT>,
    req: Appointment,
) -> Seq<AppointmentRecord> {
    match appointment_outcome(apps, caller, req) {
        Ok(_) => apps.push(new_appointment(req, parsed_date(req.date@).unwrap())),
        Err(_) => apps,
    }
}

/// Cancelling patient `p`'s bookings with doctor `d` on day `t` reaches `a`.
pub open spec fn cancels(a: AppointmentRecord, d: i64, p: i64, t: CalendarDate) -> bool {
    a.doctor_id == d && a.patient_id == p && a.date == t && a.status.is_live()
}

pub open spec fn cancelled(a: AppointmentRecord) -> AppointmentRecord {
    AppointmentRecord { status: BookingStatus::Cancelled, ..a }
}

/// What cancelling answers: whether any live appointment was cancelled.
pub open spec fn cancel_outcome(
    apps: Seq<AppointmentRecord>,
    caller: Option<JWT>,
    req: CancelAppointment,
) -> Result<bool, BookingError> {
    if !grants(caller, req.patient_id, false) {
        Err(BookingError::Unauthorized)
    } else {
        match parsed_date(req.date@) {
            None => Err(BookingError::InvalidDate),
            Some(t) => Ok(
                exists|i: int|
                    0 <= i < apps.len() && cancels(#[trigger] apps[i], req.doctor_id, req.patient_id, t),
            ),
        }
    }
}

/// The appointments held after cancelling: every live appointment of that
/// doctor, patient and day becomes cancelled, nothing else changes.
pub open spec fn cancel_after(
    apps: Seq<AppointmentRecord>,
    caller: Option<JWT>,
    req: CancelAppointment,
) -> Seq<AppointmentRecord> {
    match cancel_outcome(apps, caller, req) {
        Ok(_) => {
            let t = parsed_date(req.date@).unwrap();
            Seq::new(
                apps.len(),
                |i: int|
                    if cancels(apps[i], req.doctor_id, req.patient_id, t) {
                        cancelled(apps[i])
                    } else {
                        apps[i]
                    },
            )
        },
        Err(_) => apps,
    }
}

// ---- tokens and emergency visits ---------------------------------------

pub open spec fn token_entry(r: TokenRecord) -> NumberedEntry {
    (r.doctor_id, r.date, r.token_number)
}

pub open spec fn token_entries(s: Seq<TokenRecord>) -> Seq<NumberedEntry> {
    s.map_values(|r: TokenRecord| token_entry(r))
}

pub open spec fn emergency_entry(r: EmergencyRecord) -> NumberedEntry {
    (r.doctor_id, r.date, r.emergency_no)
}

pub open spec fn emergency_entries(s: Seq<EmergencyRecord>) -> Seq<NumberedEntry> {
    s.map_values(|r: EmergencyRecord| emergency_entry(r))
}

pub open spec fn token_held(s: Seq<TokenRecord>, d: i64, p: i64, t: CalendarDate, ty: i64) -> bool {
    exists|i: int|
        0 <= i < s.len() && (#[trigger] s[i]).doctor_id == d && s[i].patient_id == p && s[i].date
            == t && s[i].apptype == ty
}

pub open spec fn emergency_held(
    s: Seq<EmergencyRecord>,
    d: i64,
    p: i64,
    t: CalendarDate,
    ty: i64,
) -> bool {
    exists|i: int|
        0 <= i < s.len() && (#[trigger] s[i]).doctor_id == d && s[i].patient_id == p && s[i].date
            == t && s[i].apptype == ty
}

/// No two tokens share doctor, patient, day and type.
pub open spec fn token_keys_unique(s: Seq<TokenRecord>) -> bool {
    forall|i: int, j: int|
        0 <= i < j < s.len() ==> !((#[trigger] s[i]).doctor_id == (#[trigger] s[j]).doctor_id
            && s[i].patient_id == s[j].patient_id && s[i].date == s[j].date && s[i].apptype
            == s[j].apptype)
}

pub open spec fn emergency_keys_unique(s: Seq<EmergencyRecord>) -> bool {
    forall|i: int, j: int|
        0 <= i < j < s.len() ==> !((#[trigger] s[i]).doctor_id == (#[trigger] s[j]).doctor_id
            && s[i].patient_id == s[j].patient_id && s[i].date == s[j].date && s[i].apptype
            == s[j].apptype)
}

/// At most one token of a doctor's day is being served.
pub open spec fn one_serving(s: Seq<TokenRecord>) -> bool {
    forall|i: int, j: int|
        0 <= i < j < s.len() && (#[trigger] s[i]).status == BookingStatus::Ongoing && (
        #[trigger] s[j]).status == BookingStatus::Ongoing ==> !(s[i].doctor_id == s[j].doctor_id
            && s[i].date == s[j].date)
}

/// A token of doctor `d`'s day `t` is being served and carries number `n`.
pub open spec fn serving(s: Seq<TokenRecord>, d: i64, t: CalendarDate, n: i64) -> bool {
    exists|i: int|
        0 <= i < s.len() && (#[trigger] s[i]).doctor_id == d && s[i].date == t && s[i].status
            == BookingStatus::Ongoing && s[i].token_number == n
}

pub open spec fn new_token(req: Token, t: CalendarDate, n: i64) -> TokenRecord {
    TokenRecord {
        doctor_id: req.doctor_id,
        patient_id: req.patient_id,
        apptype: req.apptype,
        date: t,
        token_number: n,
        status: BookingStatus::Scheduled,
        symptom: req.symptom,
    }
}

pub open spec fn new_emergency(req: Token, t: CalendarDate, n: i64) -> EmergencyRecord {
    EmergencyRecord {
        doctor_id: req.doctor_id,
        patient_id: req.patient_id,
        apptype: req.apptype,
        date: t,
        emergency_no: n,
        symptom: req.symptom,
    }
}

/// What a token request answers: the number issued, or why nothing was written.
/// A store whose row count would reach `i64::MAX` takes no more rows.
pub open spec fn token_outcome(s: Seq<TokenRecord>, caller: Option<JWT>, req: Token) -> Result<
    i64,
    BookingError,
> {
    if !grants(caller, req.patient_id, false) {
        Err(BookingError::Unauthorized)
    } else {
        match parsed_date(req.date@) {
            None => Err(BookingError::InvalidDate),
            Some(t) => if token_held(s, req.doctor_id, req.patient_id, t, req.apptype) {
                Err(BookingError::Duplicate)
            } else if s.len() + 1 >= i64::MAX {
                Err(BookingError::StoreUnavailable)
            } else {
                Ok((count_in_scope(token_entries(s), req.doctor_id, t) + 1) as i64)
            },
        }
    }
}

pub open spec fn tokens_after(s: Seq<TokenRecord>, caller: Option<JWT>, req: Token) -> Seq<
    TokenRecord,
> {
    match token_outcome(s, caller, req) {
        Ok(n) => s.push(new_token(req, parsed_date(req.date@).unwrap(), n)),
        Err(_) => s,
    }
}

/// What an emergency request answers, as for tokens in the emergency numbering.
pub open spec fn emergency_outcome(
    s: Seq<EmergencyRecord>,
    caller: Option<JWT>,
    req: Token,
) -> Result<i64, BookingError> {
    if !grants(caller, req.patient_id, false) {
        Err(BookingError::Unauthorized)
    } else {
        match parsed_date(req.date@) {
            None => Err(BookingError::InvalidDate),
            Some(t) => if emergency_held(s, req.doctor_id, req.patient_id, t, req.apptype) {
                Err(BookingError::Duplicate)
            } else if s.len() + 1 >= i64::MAX {
                Err(BookingError::StoreUnavailable)
            } else {
                Ok((count_in_scope(emergency_entries(s), req.doctor_id, t) + 1) as i64)
            },
        }
    }
}

pub open spec fn emergencies_after(s: Seq<EmergencyRecord>, caller: Option<JWT>, req: Token) -> Seq<
    EmergencyRecord,
> {
    match emergency_outcome(s, caller, req) {
        Ok(n) => s.push(new_emergency(req, parsed_date(req.date@).unwrap(), n)),
        Err(_) => s,
    }
}

proof fn lemma_single_serving(s: Seq<TokenRecord>, d: i64, t: CalendarDate)
    requires
        one_serving(s),
    ensures
        forall|m: i64, n: i64| serving(s, d, t, m) && serving(s, d, t, n) ==> m == n,
{
    assert forall|m: i64, n: i64| serving(s, d, t, m) && serving(s, d, t, n) implies m == n by {
        let i = choose|i: int|
            0 <= i < s.len() && (#[trigger] s[i]).doctor_id == d && s[i].date == t && s[i].status
                == BookingStatus::Ongoing && s[i].token_number == m;
        let j = choose|j: int|
            0 <= j < s.len() && (#[trigger] s[j]).doctor_id == d && s[j].date == t && s[j].status
                == BookingStatus::Ongoing && s[j].token_number == n;
        if i < j {
            assert(!(s[i].doctor_id == s[j].doctor_id && s[i].date == s[j].date));
        } else if j < i {
            assert(!(s[j].doctor_id == s[i].doctor_id && s[j].date == s[i].date));
        }
    }
}

/// The bookings of a clinic: timed appointments, the regular queue and the
/// emergency queue. Rows are never removed; cancelling changes a status.
pub struct Schedule {
    appointments: Vec<AppointmentRecord>,
    tokens: Vec<TokenRecord>,
    emergencies: Vec<EmergencyRecord>,
}

impl Schedule {
    pub closed spec fn appointments_view(&self) -> Seq<AppointmentRecord> {
        self.appointments@
    }

    pub closed spec fn tokens_view(&self) -> Seq<TokenRecord> {
        self.tokens@
    }

    pub closed spec fn emergencies_view(&self) -> Seq<EmergencyRecord> {
        self.emergencies@
    }

    /// The invariants every operation keeps: slot exclusivity, dense numbering
    /// in both queues, no repeated booking key, one token served at a time.
    pub open spec fn wf(&self) -> bool {
        &&& exclusive(self.appointments_view())
        &&& densely_numbered(token_entries(self.tokens_view()))
        &&& token_keys_unique(self.tokens_view())
        &&& one_serving(self.tokens_view())
        &&& densely_numbered(emergency_entries(self.emergencies_view()))
        &&& emergency_keys_unique(self.emergencies_view())
        &&& self.tokens_view().len() < i64::MAX
        &&& self.emergencies_view().len() < i64::MAX
    }

    pub fn new() -> (r: Schedule)
        ensures
            r.wf(),
            r.appointments_view().len() == 0,
            r.tokens_view().len() == 0,
            r.emergencies_view().len() == 0,
    {
        let r = Schedule { appointments: Vec::new(), tokens: Vec::new(), emergencies: Vec::new() };
        proof {
            assert(token_entries(r.tokens@) =~= Seq::<NumberedEntry>::empty());
            assert(emergency_entries(r.emergencies@) =~= Seq::<NumberedEntry>::empty());
        }
        r
    }

    pub fn appointments(&self) -> (r: &Vec<AppointmentRecord>)
        ensures
            r@ == self.appointments_view(),
    {
        &self.appointments
    }

    pub fn tokens(&self) -> (r: &Vec<TokenRecord>)
        ensures
            r@ == self.tokens_view(),
    {
        &self.tokens
    }

    pub fn emergencies(&self) -> (r: &Vec<EmergencyRecord>)
        ensures
            r@ == self.emergencies_view(),
    {
        &self.emergencies
    }

    /// Whether doctor `doctor_id`'s slot `slot_id` is free on `date`: no
    /// appointment but a cancelled one holds it.
    pub fn is_slot_free(&self, doctor_id: i64, date: CalendarDate, slot_id: i64) -> (r: bool)
        ensures
            r == !slot_taken(self.appointments_view(), doctor_id, slot_id, date),
    {
        let n = self.appointments.len();
        let mut i: usize = 0;
        while i < n
            invariant
                n == self.appointments@.len(),
                0 <= i <= n,
                forall|j: int| 0 <= j < i ==> !occupies(#[trigger] self.appointments@[j], doctor_id, slot_id, date),
            decreases n - i,
        {
            let a = &self.appointments[i];
            if a.doctor_id == doctor_id && a.slot_id == slot_id && a.date.same_day(&date)
                && a.status != BookingStatus::Cancelled {
                assert(occupies(self.appointments@[i as int], doctor_id, slot_id, date));
                return false;
            }
            i = i + 1;
        }
        true
    }
    /// The number the next token of doctor `doctor_id` on `date` will carry:
    /// one more than the tokens already issued for that day.
    pub fn next_token(&self, doctor_id: i64, date: CalendarDate) -> (r: i64)
        requires
            self.wf(),
        ensures
            r == count_in_scope(token_entries(self.tokens_view()), doctor_id, date) + 1,
    {
        let ghost e = token_entries(self.tokens@);
        let n = self.tokens.len();
        let mut count: i64 = 0;
        let mut i: usize = 0;
        while i < n
            invariant
                n == self.tokens@.len(),
                n < i64::MAX,
                e == token_entries(self.tokens@),
                0 <= i <= n,
                0 <= count <= i,
                count == count_in_scope(e.take(i as int), doctor_id, date),
            decreases n - i,
        {
            proof {
                lemma_count_step(e, i as int, doctor_id, date);
            }
            let tk = &self.tokens[i];
            if tk.doctor_id == doctor_id && tk.date.same_day(&date) {
                count = count + 1;
            }
            i = i + 1;
        }
        proof {
            assert(e.take(n as int) =~= e);
        }
        count + 1
    }

    /// The number the next emergency visit of doctor `doctor_id` on `date`
    /// will carry, in the emergency numbering.
    pub fn next_emergency_number(&self, doctor_id: i64, date: CalendarDate) -> (r: i64)
        requires
            self.wf(),
        ensures
            r == count_in_scope(emergency_entries(self.emergencies_view()), doctor_id, date) + 1,
    {
        let ghost e = emergency_entries(self.emergencies@);
        let n = self.emergencies.len();
        let mut count: i64 = 0;
        let mut i: usize = 0;
        while i < n
            invariant
                n == self.emergencies@.len(),
                n < i64::MAX,
                e == emergency_entries(self.emergencies@),
                0 <= i <= n,
                0 <= count <= i,
                count == count_in_scope(e.take(i as int), doctor_id, date),
            decreases n - i,
        {
            proof {
                lemma_count_step(e, i as int, doctor_id, date);
            }
            let em = &self.emergencies[i];
            if em.doctor_id == doctor_id && em.date.same_day(&date) {
                count = count + 1;
            }
            i = i + 1;
        }
        proof {
            assert(e.take(n as int) =~= e);
        }
        count + 1
    }

    /// The number of the token of doctor `doctor_id` on `date` that is being
    /// served, if one is.
    pub fn current_serving(&self, doctor_id: i64, date: CalendarDate) -> (r: Option<i64>)
        requires
            self.wf(),
        ensures
            r is None <==> forall|n: i64| !serving(self.tokens_view(), doctor_id, date, n),
            r matches Some(n) ==> serving(self.tokens_view(), doctor_id, date, n),
            forall|m: i64, n: i64|
                serving(self.tokens_view(), doctor_id, date, m) && serving(
                    self.tokens_view(),
                    doctor_id,
                    date,
                    n,
                ) ==> m == n,
    {
        proof {
            lemma_single_serving(self.tokens@, doctor_id, date);
        }
        let n = self.tokens.len();
        let mut i: usize = 0;
        while i < n
            invariant
                n == self.tokens@.len(),
                0 <= i <= n,
                forall|m: i64, k: i64|
                    serving(self.tokens@, doctor_id, date, m) && serving(
                        self.tokens@,
                        doctor_id,
                        date,
                        k,
                    ) ==> m == k,
                forall|j: int|
                    0 <= j < i ==> !((#[trigger] self.tokens@[j]).doctor_id == doctor_id
                        && self.tokens@[j].date == date && self.tokens@[j].status
                        == BookingStatus::Ongoing),
            decreases n - i,
        {
            let tk = &self.tokens[i];
            if tk.doctor_id == doctor_id && tk.date.same_day(&date)
                && tk.status == BookingStatus::Ongoing {
                assert(serving(self.tokens_view(), doctor_id, date, tk.token_number));
                return Some(tk.token_number);
            }
            i = i + 1;
        }
        None
    }
    fn holds_token(&self, d: i64, p: i64, t: CalendarDate, ty: i64) -> (r: bool)
        ensures
            r == token_held(self.tokens@, d, p, t, ty),
    {
        let n = self.tokens.len();
        let mut i: usize = 0;
        while i < n
            invariant
                n == self.tokens@.len(),
                0 <= i <= n,
                forall|j: int|
                    0 <= j < i ==> !((#[trigger] self.tokens@[j]).doctor_id == d
                        && self.tokens@[j].patient_id == p && self.tokens@[j].date == t
                        && self.tokens@[j].apptype == ty),
            decreases n - i,
        {
            let tk = &self.tokens[i];
            if tk.doctor_id == d && tk.patient_id == p && tk.date.same_day(&t) && tk.apptype == ty {
                assert(self.tokens@[i as int].doctor_id == d);
                return true;
            }
            i = i + 1;
        }
        false
    }

    fn holds_emergency(&self, d: i64, p: i64, t: CalendarDate, ty: i64) -> (r: bool)
        ensures
            r == emergency_held(self.emergencies@, d, p, t, ty),
    {
        let n = self.emergencies.len();
        let mut i: usize = 0;
        while i < n
            invariant
                n == self.emergencies@.len(),
                0 <= i <= n,
                forall|j: int|
                    0 <= j < i ==> !((#[trigger] self.emergencies@[j]).doctor_id == d
                        && self.emergencies@[j].patient_id == p && self.emergencies@[j].date == t
                        && self.emergencies@[j].apptype == ty),
            decreases n - i,
        {
            let em = &self.emergencies[i];
            if em.doctor_id == d && em.patient_id == p && em.date.same_day(&t) && em.apptype == ty {
                assert(self.emergencies@[i as int].doctor_id == d);
                return true;
            }
            i = i + 1;
        }
        false
    }

    /// Books a timed appointment for the authenticated patient: refused as
    /// `Unauthorized` unless the caller is that patient, as `InvalidDate` for a
    /// date that does not parse, as `SlotConflict` where the slot is held that
    /// day; otherwise the appointment is stored as scheduled. A refusal writes
    /// nothing.
    pub fn create_appointment(&mut self, caller: &Option<JWT>, req: &Appointment) -> (r: Result<
        usize,
        BookingError,
    >)
        requires
            old(self).wf(),
        ensures
            final(self).wf(),
            r == appointment_outcome(old(self).appointments_view(), *caller, *req),
            final(self).appointments_view() == appointments_after(
                old(self).appointments_view(),
                *caller,
                *req,
            ),
            final(self).tokens_view() == old(self).tokens_view(),
            final(self).emergencies_view() == old(self).emergencies_view(),
    {
        if !authorize(caller, req.patient_id, false) {
            return Err(BookingError::Unauthorized);
        }
        let date = match parse_date(req.date.as_str()) {
            Some(d) => d,
            None => {
                return Err(BookingError::InvalidDate);
            },
        };
        if !self.is_slot_free(req.doctor_id, date, req.slot_id) {
            return Err(BookingError::SlotConflict);
        }
        let id = self.appointments.len();
        let ghost before = self.appointments@;
        let rec = AppointmentRecord {
            doctor_id: req.doctor_id,
            patient_id: req.patient_id,
            apptype: req.apptype,
            slot_id: req.slot_id,
            date,
            phyorvirt: req.phyorvirt.clone(),
            symptom: req.symptom.clone(),
            status: BookingStatus::Scheduled,
        };
        self.appointments.push(rec);
        proof {
            let after = self.appointments@;
            assert(after == before.push(new_appointment(*req, date)));
            assert forall|i: int, j: int|
                0 <= i < after.len() && 0 <= j < after.len() && i != j && occupies(
                    #[trigger] after[i],
                    after[j].doctor_id,
                    after[j].slot_id,
                    after[j].date,
                ) implies !occupies(
                #[trigger] after[j],
                after[j].doctor_id,
                after[j].slot_id,
                after[j].date,
            ) by {
                if i == before.len() {
                    assert(!occupies(before[j], req.doctor_id, req.slot_id, date));
                } else if j == before.len() {
                    assert(!occupies(before[i], req.doctor_id, req.slot_id, date));
                } else {
                    assert(after[i] == before[i] && after[j] == before[j]);
                }
            }
        }
        Ok(id)
    }

    /// Issues the next token of the doctor's day to the authenticated patient:
    /// refused as `Unauthorized`, `InvalidDate`, `Duplicate` where that doctor,
    /// patient, day and type already hold a token, or `StoreUnavailable` where
    /// the store is full; otherwise the token is stored as scheduled with the
    /// next number of its day, which is returned.
    pub fn create_token(&mut self, caller: &Option<JWT>, req: &Token) -> (r: Result<
        i64,
        BookingError,
    >)
        requires
            old(self).wf(),
        ensures
            final(self).wf(),
            r == token_outcome(old(self).tokens_view(), *caller, *req),
            final(self).tokens_view() == tokens_after(old(self).tokens_view(), *caller, *req),
            final(self).appointments_view() == old(self).appointments_view(),
            final(self).emergencies_view() == old(self).emergencies_view(),
    {
        if !authorize(caller, req.patient_id, false) {
            return Err(BookingError::Unauthorized);
        }
        let date = match parse_date(req.date.as_str()) {
            Some(d) => d,
            None => {
                return Err(BookingError::InvalidDate);
            },
        };
        if self.holds_token(req.doctor_id, req.patient_id, date, req.apptype) {
            return Err(BookingError::Duplicate);
        }
        if self.tokens.len() as u64 + 1 >= i64::MAX as u64 {
            return Err(BookingError::StoreUnavailable);
        }
        let number = self.next_token(req.doctor_id, date);
        let ghost before = self.tokens@;
        let rec = TokenRecord {
            doctor_id: req.doctor_id,
            patient_id: req.patient_id,
            apptype: req.apptype,
            date,
            token_number: number,
            status: BookingStatus::Scheduled,
            symptom: req.symptom.clone(),
        };
        self.tokens.push(rec);
        proof {
            let after = self.tokens@;
            let nt = new_token(*req, date, number);
            assert(after == before.push(nt));
            assert(token_entries(after) =~= token_entries(before).push(token_entry(nt)));
            lemma_push_next(token_entries(before), token_entry(nt));
            assert forall|i: int, j: int| 0 <= i < j < after.len() implies !((
            #[trigger] after[i]).doctor_id == (#[trigger] after[j]).doctor_id && after[i].patient_id
                == after[j].patient_id && after[i].date == after[j].date && after[i].apptype
                == after[j].apptype) by {
                if j == before.len() {
                    assert(after[i] == before[i]);
                } else {
                    assert(after[i] == before[i] && after[j] == before[j]);
                }
            }
            assert forall|i: int, j: int|
                0 <= i < j < after.len() && (#[trigger] after[i]).status == BookingStatus::Ongoing
                    && (#[trigger] after[j]).status == BookingStatus::Ongoing implies !(
            after[i].doctor_id == after[j].doctor_id && after[i].date == after[j].date) by {
                assert(after[i] == before[i] && after[j] == before[j]);
            }
        }
        Ok(number)
    }

    /// Issues the next emergency number of the doctor's day, with the same
    /// refusals as a token, in the emergency numbering.
    pub fn create_emergency(&mut self, caller: &Option<JWT>, req: &Token) -> (r: Result<
        i64,
        BookingError,
    >)
        requires
            old(self).wf(),
        ensures
            final(self).wf(),
            r == emergency_outcome(old(self).emergencies_view(), *caller, *req),
            final(self).emergencies_view() == emergencies_after(
                old(self).emergencies_view(),
                *caller,
                *req,
            ),
            final(self).appointments_view() == old(self).appointments_view(),
            final(self).tokens_view() == old(self).tokens_view(),
    {
        if !authorize(caller, req.patient_id, false) {
            return Err(BookingError::Unauthorized);
        }
        let date = match parse_date(req.date.as_str()) {
            Some(d) => d,
            None => {
                return Err(BookingError::InvalidDate);
            },
        };
        if self.holds_emergency(req.doctor_id, req.patient_id, date, req.apptype) {
            return Err(BookingError::Duplicate);
        }
        if self.emergencies.len() as u64 + 1 >= i64::MAX as u64 {
            return Err(BookingError::StoreUnavailable);
        }
        let number = self.next_emergency_number(req.doctor_id, date);
        let ghost before = self.emergencies@;
        let rec = EmergencyRecord {
            doctor_id: req.doctor_id,
            patient_id: req.patient_id,
            apptype: req.apptype,
            date,
            emergency_no: number,
            symptom: req.symptom.clone(),
        };
        self.emergencies.push(rec);
        proof {
            let after = self.emergencies@;
            let ne = new_emergency(*req, date, number);
            assert(after == before.push(ne));
            assert(emergency_entries(after) =~= emergency_entries(before).push(emergency_entry(ne)));
            lemma_push_next(emergency_entries(before), emergency_entry(ne));
            assert forall|i: int, j: int| 0 <= i < j < after.len() implies !((
            #[trigger] after[i]).doctor_id == (#[trigger] after[j]).doctor_id && after[i].patient_id
                == after[j].patient_id && after[i].date == after[j].date && after[i].apptype
                == after[j].apptype) by {
                if j == before.len() {
                    assert(after[i] == before[i]);
                } else {
                    assert(after[i] == before[i] && after[j] == before[j]);
                }
            }
        }
        Ok(number)
    }
    /// Cancels the authenticated patient's live appointments with a doctor on a
    /// day and reports whether any was cancelled. Cancelling again, or where
    /// nothing is booked, is no error. Refused as `Unauthorized` or
    /// `InvalidDate` with nothing written.
    pub fn cancel_appointment(&mut self, caller: &Option<JWT>, req: &CancelAppointment) -> (r:
        Result<bool, BookingError>)
        requires
            old(self).wf(),
        ensures
            final(self).wf(),
            r == cancel_outcome(old(self).appointments_view(), *caller, *req),
            final(self).appointments_view() == cancel_after(
                old(self).appointments_view(),
                *caller,
                *req,
            ),
            final(self).tokens_view() == old(self).tokens_view(),
            final(self).emergencies_view() == old(self).emergencies_view(),
    {
        if !authorize(caller, req.patient_id, false) {
            return Err(BookingError::Unauthorized);
        }
        let date = match parse_date(req.date.as_str()) {
            Some(d) => d,
            None => {
                return Err(BookingError::InvalidDate);
            },
        };
        let d = req.doctor_id;
        let p = req.patient_id;
        let ghost before = self.appointments@;
        let ghost tokens0 = self.tokens@;
        let ghost emergencies0 = self.emergencies@;
        let n = self.appointments.len();
        let mut any = false;
        let mut i: usize = 0;
        while i < n
            invariant
                n == self.appointments@.len(),
                n == before.len(),
                0 <= i <= n,
                self.tokens@ == tokens0,
                self.emergencies@ == emergencies0,
                forall|j: int|
                    0 <= j < i ==> #[trigger] self.appointments@[j] == if cancels(
                        before[j],
                        d,
                        p,
                        date,
                    ) {
                        cancelled(before[j])
                    } else {
                        before[j]
                    },
                forall|j: int| i <= j < n ==> #[trigger] self.appointments@[j] == before[j],
                any == exists|j: int| 0 <= j < i && cancels(#[trigger] before[j], d, p, date),
            decreases n - i,
        {
            let hit = {
                let a = &self.appointments[i];
                a.doctor_id == d && a.patient_id == p && a.date.same_day(&date) && (a.status
                    == BookingStatus::Scheduled || a.status == BookingStatus::Ongoing)
            };
            if hit {
                self.appointments[i].status = BookingStatus::Cancelled;
                any = true;
            }
            proof {
                assert(hit == cancels(before[i as int], d, p, date));
            }
            i = i + 1;
        }
        proof {
            let after = self.appointments@;
            assert(after =~= cancel_after(before, *caller, *req));
            assert forall|a: int, b: int|
                0 <= a < after.len() && 0 <= b < after.len() && a != b && occupies(
                    #[trigger] after[a],
                    after[b].doctor_id,
                    after[b].slot_id,
                    after[b].date,
                ) implies !occupies(
                #[trigger] after[b],
                after[b].doctor_id,
                after[b].slot_id,
                after[b].date,
            ) by {
                assert(after[a] == before[a]);
                if occupies(after[b], after[b].doctor_id, after[b].slot_id, after[b].date) {
                    assert(after[b] == before[b]);
                }
            }
        }
        Ok(any)
    }

    /// Moves appointment `index` to status `next` where the lifecycle allows
    /// it; reports whether it moved.
    pub fn advance_appointment(&mut self, index: usize, next: BookingStatus) -> (r: bool)
        requires
            old(self).wf(),
        ensures
            final(self).wf(),
            r == (index < old(self).appointments_view().len() && allowed_move(
                old(self).appointments_view()[index as int].status,
                next,
            )),
            r ==> final(self).appointments_view() == old(self).appointments_view().update(
                index as int,
                AppointmentRecord { status: next, ..old(self).appointments_view()[index as int] },
            ),
            !r ==> final(self).appointments_view() == old(self).appointments_view(),
            final(self).tokens_view() == old(self).tokens_view(),
            final(self).emergencies_view() == old(self).emergencies_view(),
    {
        if index >= self.appointments.len() {
            return false;
        }
        if !self.appointments[index].status.can_become(next) {
            return false;
        }
        let ghost before = self.appointments@;
        self.appointments[index].status = next;
        proof {
            let after = self.appointments@;
            assert forall|a: int, b: int|
                0 <= a < after.len() && 0 <= b < after.len() && a != b && occupies(
                    #[trigger] after[a],
                    after[b].doctor_id,
                    after[b].slot_id,
                    after[b].date,
                ) implies !occupies(
                #[trigger] after[b],
                after[b].doctor_id,
                after[b].slot_id,
                after[b].date,
            ) by {
                assert(occupies(before[a], before[b].doctor_id, before[b].slot_id, before[b].date));
            }
        }
        true
    }

    /// Moves token `index` to status `next` where the lifecycle allows it and,
    /// for `Ongoing`, no token of the same doctor's day is being served;
    /// reports whether it moved.
    pub fn advance_token(&mut self, index: usize, next: BookingStatus) -> (r: bool)
        requires
            old(self).wf(),
        ensures
            final(self).wf(),
            r == (index < old(self).tokens_view().len() && allowed_move(
                old(self).tokens_view()[index as int].status,
                next,
            ) && (next == BookingStatus::Ongoing ==> forall|n: i64|
                !serving(
                    old(self).tokens_view(),
                    old(self).tokens_view()[index as int].doctor_id,
                    old(self).tokens_view()[index as int].date,
                    n,
                ))),
            r ==> final(self).tokens_view() == old(self).tokens_view().update(
                index as int,
                TokenRecord { status: next, ..old(self).tokens_view()[index as int] },
            ),
            !r ==> final(self).tokens_view() == old(self).tokens_view(),
            final(self).appointments_view() == old(self).appointments_view(),
            final(self).emergencies_view() == old(self).emergencies_view(),
    {
        if index >= self.tokens.len() {
            return false;
        }
        if !self.tokens[index].status.can_become(next) {
            return false;
        }
        if next == BookingStatus::Ongoing {
            let d = self.tokens[index].doctor_id;
            let t = self.tokens[index].date;
            if let Some(m) = self.current_serving(d, t) {
                return false;
            }
        }
        let ghost before = self.tokens@;
        self.tokens[index].status = next;
        proof {
            let after = self.tokens@;
            let k = index as int;
            assert(token_entries(after) =~= token_entries(before));
            assert forall|i: int, j: int| 0 <= i < j < after.len() implies !((
            #[trigger] after[i]).doctor_id == (#[trigger] after[j]).doctor_id && after[i].patient_id
                == after[j].patient_id && after[i].date == after[j].date && after[i].apptype
                == after[j].apptype) by {
                assert(before[i].doctor_id == after[i].doctor_id);
                assert(before[j].doctor_id == after[j].doctor_id);
            }
            assert forall|i: int, j: int|
                0 <= i < j < after.len() && (#[trigger] after[i]).status == BookingStatus::Ongoing
                    && (#[trigger] after[j]).status == BookingStatus::Ongoing implies !(
            after[i].doctor_id == after[j].doctor_id && after[i].date == after[j].date) by {
                if i == k && after[i].doctor_id == after[j].doctor_id && after[i].date == after[j].date {
                    assert(serving(before, before[k].doctor_id, before[k].date, before[j].token_number));
                } else if j == k && after[i].doctor_id == after[j].doctor_id && after[i].date
                    == after[j].date {
                    assert(serving(before, before[k].doctor_id, before[k].date, before[i].token_number));
                }
            }
        }
        true
    }
}

} // verus!
