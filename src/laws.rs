use crate::auth::grants;
use crate::booking::{
    appointment_outcome, appointments_after, cancel_after, cancels, occupies, token_entries,
    token_entry, token_held, token_outcome, tokens_after, AppointmentRecord, BookingError,
    Schedule, TokenRecord,
};
use crate::date::{parsed_date, CalendarDate};
use crate::numbering::{
    count_in_scope, densely_numbered, in_scope, lemma_dense_scope, lemma_push_next, number_used,
};
use crate::records::{Appointment, CancelAppointment, Token, JWT};
use vstd::prelude::*;

verus! {

/// In a well-formed schedule at most one appointment holds a doctor's slot on a
/// day: two rows that both hold it, scheduled or ongoing (or completed), are
/// the same row.
pub proof fn lemma_slot_exclusive(s: Schedule, d: i64, slot: i64, t: CalendarDate)
    requires
        s.wf(),
    ensures
        forall|i: int, j: int|
            0 <= i < s.appointments_view().len() && 0 <= j < s.appointments_view().len()
                && occupies(#[trigger] s.appointments_view()[i], d, slot, t) && occupies(
                #[trigger] s.appointments_view()[j],
                d,
                slot,
                t,
            ) ==> i == j,
{
    let a = s.appointments_view();
    assert forall|i: int, j: int|
        0 <= i < a.len() && 0 <= j < a.len() && occupies(#[trigger] a[i], d, slot, t) && occupies(
            #[trigger] a[j],
            d,
            slot,
            t,
        ) implies i == j by {
        if i != j {
            assert(occupies(a[i], a[j].doctor_id, a[j].slot_id, a[j].date));
        }
    }
}

/// In a well-formed schedule the token numbers of a doctor's day are exactly
/// 1..=N, N being the number of tokens of that day: none repeats, none lies
/// outside, none is skipped.
pub proof fn lemma_tokens_dense(s: Schedule, d: i64, t: CalendarDate)
    requires
        s.wf(),
    ensures
        ({
            let e = token_entries(s.tokens_view());
            &&& forall|i: int, j: int|
                0 <= i < e.len() && 0 <= j < e.len() && i != j && in_scope(e[i], d, t) && in_scope(
                    e[j],
                    d,
                    t,
                ) ==> #[trigger] e[i].2 != #[trigger] e[j].2
            &&& forall|i: int|
                0 <= i < e.len() && in_scope(#[trigger] e[i], d, t) ==> 1 <= e[i].2
                    <= count_in_scope(e, d, t)
            &&& forall|k: int| 1 <= k <= count_in_scope(e, d, t) ==> #[trigger] number_used(e, d, t, k)
        }),
{
    lemma_dense_scope(token_entries(s.tokens_view()), d, t);
}

/// A token request that was granted, made a second time, is refused as
/// `Duplicate` and leaves the tokens as the first call left them.
pub proof fn lemma_repeat_token_refused(s: Seq<TokenRecord>, caller: Option<JWT>, req: Token)
    requires
        token_outcome(s, caller, req) is Ok,
    ensures
        token_outcome(tokens_after(s, caller, req), caller, req) == Err::<i64, BookingError>(
            BookingError::Duplicate,
        ),
        tokens_after(tokens_after(s, caller, req), caller, req) == tokens_after(s, caller, req),
{
    let s1 = tokens_after(s, caller, req);
    let t = parsed_date(req.date@).unwrap();
    assert(s1[s.len() as int].doctor_id == req.doctor_id);
    assert(token_held(s1, req.doctor_id, req.patient_id, t, req.apptype));
}

/// Once patient `p` has cancelled with doctor `d` on day `t`, another patient
/// can book a slot of that doctor's day that only `p`'s live bookings held (or
/// that was free). A completed appointment cannot be cancelled and keeps its slot.
pub proof fn lemma_cancel_frees_slot(
    apps: Seq<AppointmentRecord>,
    caller: Option<JWT>,
    cancel: CancelAppointment,
    other: Option<JWT>,
    req: Appointment,
    t: CalendarDate,
)
    requires
        grants(caller, cancel.patient_id, false),
        grants(other, req.patient_id, false),
        parsed_date(cancel.date@) == Some(t),
        parsed_date(req.date@) == Some(t),
        req.doctor_id == cancel.doctor_id,
        forall|i: int|
            0 <= i < apps.len() && occupies(#[trigger] apps[i], req.doctor_id, req.slot_id, t)
                ==> apps[i].patient_id == cancel.patient_id && apps[i].status.is_live(),
    ensures
        appointment_outcome(cancel_after(apps, caller, cancel), other, req) is Ok,
{
    let after = cancel_after(apps, caller, cancel);
    assert forall|i: int| 0 <= i < after.len() implies !occupies(
        #[trigger] after[i],
        req.doctor_id,
        req.slot_id,
        t,
    ) by {
        if occupies(apps[i], req.doctor_id, req.slot_id, t) {
            assert(cancels(apps[i], cancel.doctor_id, cancel.patient_id, t));
        }
    }
}

/// A booking whose caller is not the patient named in it is refused as
/// `Unauthorized` and writes nothing.
pub proof fn lemma_unauthorized_writes_nothing(
    apps: Seq<AppointmentRecord>,
    caller: Option<JWT>,
    req: Appointment,
)
    requires
        !grants(caller, req.patient_id, false),
    ensures
        appointment_outcome(apps, caller, req) == Err::<usize, BookingError>(
            BookingError::Unauthorized,
        ),
        appointments_after(apps, caller, req) == apps,
{
}

/// The tokens after serving the token requests `reqs` one after another.
pub open spec fn tokens_after_all(
    s: Seq<TokenRecord>,
    callers: Seq<Option<JWT>>,
    reqs: Seq<Token>,
) -> Seq<TokenRecord>
    decreases reqs.len(),
{
    if reqs.len() == 0 || callers.len() != reqs.len() {
        s
    } else {
        tokens_after(
            tokens_after_all(s, callers.drop_last(), reqs.drop_last()),
            callers.last(),
            reqs.last(),
        )
    }
}

/// Requests for doctor `d`'s day `t`, each by its own authenticated patient.
pub open spec fn distinct_patient_requests(
    callers: Seq<Option<JWT>>,
    reqs: Seq<Token>,
    d: i64,
    t: CalendarDate,
) -> bool {
    &&& callers.len() == reqs.len()
    &&& forall|i: int|
        0 <= i < reqs.len() ==> (#[trigger] reqs[i]).doctor_id == d && parsed_date(reqs[i].date@)
            == Some(t) && grants(callers[i], reqs[i].patient_id, false)
    &&& forall|i: int, j: int|
        0 <= i < reqs.len() && 0 <= j < reqs.len() && i != j ==> (#[trigger] reqs[i]).patient_id
            != (#[trigger] reqs[j]).patient_id
}

proof fn lemma_serial_tokens(
    s: Seq<TokenRecord>,
    callers: Seq<Option<JWT>>,
    reqs: Seq<Token>,
    d: i64,
    t: CalendarDate,
)
    requires
        densely_numbered(token_entries(s)),
        count_in_scope(token_entries(s), d, t) == 0,
        distinct_patient_requests(callers, reqs, d, t),
        s.len() + reqs.len() + 1 < i64::MAX,
    ensures
        ({
            let s2 = tokens_after_all(s, callers, reqs);
            &&& s2.len() == s.len() + reqs.len()
            &&& densely_numbered(token_entries(s2))
            &&& count_in_scope(token_entries(s2), d, t) == reqs.len()
            &&& forall|j: int|
                s.len() <= j < s2.len() ==> (#[trigger] s2[j]).patient_id == reqs[j
                    - s.len()].patient_id && s2[j].doctor_id == d && s2[j].date == t
            &&& forall|j: int| 0 <= j < s.len() ==> #[trigger] s2[j] == s[j]
        }),
    decreases reqs.len(),
{
    if reqs.len() > 0 {
        let k = reqs.len() - 1;
        let cs = callers.drop_last();
        let rs = reqs.drop_last();
        assert forall|i: int, j: int|
            0 <= i < rs.len() && 0 <= j < rs.len() && i != j implies (#[trigger] rs[i]).patient_id
            != (#[trigger] rs[j]).patient_id by {
            assert(rs[i] == reqs[i] && rs[j] == reqs[j]);
        }
        assert forall|i: int| 0 <= i < rs.len() implies (#[trigger] rs[i]).doctor_id == d
            && parsed_date(rs[i].date@) == Some(t) && grants(cs[i], rs[i].patient_id, false) by {
            assert(rs[i] == reqs[i] && cs[i] == callers[i]);
        }
        lemma_serial_tokens(s, cs, rs, d, t);
        let s1 = tokens_after_all(s, cs, rs);
        let req = reqs.last();
        assert(req == reqs[k]);
        lemma_dense_scope(token_entries(s), d, t);
        assert(!token_held(s1, req.doctor_id, req.patient_id, t, req.apptype)) by {
            if token_held(s1, req.doctor_id, req.patient_id, t, req.apptype) {
                let j = choose|j: int|
                    0 <= j < s1.len() && (#[trigger] s1[j]).doctor_id == req.doctor_id
                        && s1[j].patient_id == req.patient_id && s1[j].date == t && s1[j].apptype
                        == req.apptype;
                if j < s.len() {
                    assert(s1[j] == s[j]);
                    assert(token_entries(s)[j] == token_entry(s[j]));
                    assert(in_scope(token_entries(s)[j], d, t));
                } else {
                    assert(rs[j - s.len()] == reqs[j - s.len()]);
                }
            }
        }
        let n = count_in_scope(token_entries(s1), d, t) + 1;
        let nt = crate::booking::new_token(req, t, n as i64);
        assert(token_outcome(s1, callers.last(), req) == Ok::<i64, BookingError>(n as i64));
        assert(token_entries(s1.push(nt)) =~= token_entries(s1).push(token_entry(nt)));
        lemma_push_next(token_entries(s1), token_entry(nt));
    } else {
        assert(tokens_after_all(s, callers, reqs) == s);
    }
}

/// Serving K token requests for one doctor's day, each by a distinct
/// authenticated patient, one after another (the order a serialised store
/// imposes on concurrent requests), on a day with no tokens yet: every request
/// is granted, K tokens are added, and their numbers are exactly 1..=K.
pub proof fn lemma_serialised_tokens_fill_one_to_k(
    s: Schedule,
    callers: Seq<Option<JWT>>,
    reqs: Seq<Token>,
    d: i64,
    t: CalendarDate,
)
    requires
        s.wf(),
        count_in_scope(token_entries(s.tokens_view()), d, t) == 0,
        distinct_patient_requests(callers, reqs, d, t),
        s.tokens_view().len() + reqs.len() + 1 < i64::MAX,
    ensures
        ({
            let e = token_entries(tokens_after_all(s.tokens_view(), callers, reqs));
            &&& tokens_after_all(s.tokens_view(), callers, reqs).len() == s.tokens_view().len()
                + reqs.len()
            &&& count_in_scope(e, d, t) == reqs.len()
            &&& forall|i: int, j: int|
                0 <= i < e.len() && 0 <= j < e.len() && i != j && in_scope(e[i], d, t) && in_scope(
                    e[j],
                    d,
                    t,
                ) ==> #[trigger] e[i].2 != #[trigger] e[j].2
            &&& forall|i: int|
                0 <= i < e.len() && in_scope(#[trigger] e[i], d, t) ==> 1 <= e[i].2 <= reqs.len()
            &&& forall|k: int| 1 <= k <= reqs.len() ==> #[trigger] number_used(e, d, t, k)
        }),
{
    lemma_serial_tokens(s.tokens_view(), callers, reqs, d, t);
    lemma_dense_scope(token_entries(tokens_after_all(s.tokens_view(), callers, reqs)), d, t);
}

} // verus!
