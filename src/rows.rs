use crate::booking::BookingError;
use crate::date::{parse_date, parsed_date, CalendarDate};
use crate::records::DoctorAppointments;
use vstd::prelude::*;

verus! {

/// A stored appointment row holds doctor's slot `slot_id` on day `t`: its date
/// is that day and its status is anything but `cancelled`.
pub open spec fn row_holds(r: DoctorAppointments, slot_id: i64, t: CalendarDate) -> bool {
    r.slot_id as i64 == slot_id && parsed_date(r.date@) == Some(t) && r.status@ != "cancelled"@
}

/// Decides from a doctor's stored appointment rows whether slot `slot_id` is
/// free on `date`. A row whose date cannot be read makes the answer "not free":
/// an unreadable row must not let a conflicting booking through.
pub fn rows_leave_slot_free(rows: &Vec<DoctorAppointments>, slot_id: i64, date: CalendarDate) -> (r:
    bool)
    ensures
        r == forall|i: int|
            0 <= i < rows@.len() ==> parsed_date((#[trigger] rows@[i]).date@) is Some && !row_holds(
                rows@[i],
                slot_id,
                date,
            ),
{
    let cancelled_word = "cancelled".to_owned();
    let n = rows.len();
    let mut i: usize = 0;
    while i < n
        invariant
            n == rows@.len(),
            0 <= i <= n,
            cancelled_word@ == "cancelled"@,
            forall|j: int|
                0 <= j < i ==> parsed_date((#[trigger] rows@[j]).date@) is Some && !row_holds(
                    rows@[j],
                    slot_id,
                    date,
                ),
        decreases n - i,
    {
        let row = &rows[i];
        let day = match parse_date(row.date.as_str()) {
            Some(d) => d,
            None => {
                return false;
            },
        };
        if row.slot_id as i64 == slot_id && day.same_day(&date) && !(row.status == cancelled_word) {
            return false;
        }
        i = i + 1;
    }
    true
}

/// The number to issue after `issued` numbers of a doctor's day were issued:
/// `None` where `issued` is negative or the next number does not fit.
pub fn number_after(issued: i64) -> (r: Option<i64>)
    ensures
        r == if 0 <= issued < i64::MAX {
            Some((issued + 1) as i64)
        } else {
            None::<i64>
        },
{
    if 0 <= issued && issued < i64::MAX {
        Some(issued + 1)
    } else {
        None
    }
}

/// How many times an insert that lost a race to a concurrent writer is tried
/// in all before the conflict is reported.
pub const INSERT_ATTEMPTS: u32 = 3;

/// What to do after an insert was refused by the store's uniqueness rule.
#[derive(Clone, Copy, Debug, PartialEq, Eq, Structural)]
pub enum InsertStep {
    /// Read again and repeat the insert.
    Retry,
    /// Stop and report this error.
    Finish(BookingError),
}

/// After `attempts` inserts have each lost a race, repeats while fewer than
/// `INSERT_ATTEMPTS` were made, then reports `settled`: `Duplicate` for a
/// queue, `SlotConflict` for a timed slot.
pub fn after_insert_conflict(attempts: u32, settled: BookingError) -> (r: InsertStep)
    ensures
        attempts < INSERT_ATTEMPTS ==> r == InsertStep::Retry,
        attempts >= INSERT_ATTEMPTS ==> r == InsertStep::Finish(settled),
{
    if attempts < INSERT_ATTEMPTS {
        InsertStep::Retry
    } else {
        InsertStep::Finish(settled)
    }
}

} // verus!
