use vstd::prelude::*;

verus! {

/// Where a booking stands. `Completed` and `Cancelled` are terminal.
#[derive(Clone, Copy, Debug, PartialEq, Eq, Structural)]
pub enum BookingStatus {
    Scheduled,
    Ongoing,
    Completed,
    Cancelled,
}

/// The moves the lifecycle allows: scheduled to ongoing, ongoing to completed,
/// and either of the two live states to cancelled.
pub open spec fn allowed_move(from: BookingStatus, to: BookingStatus) -> bool {
    match (from, to) {
        (BookingStatus::Scheduled, BookingStatus::Ongoing) => true,
        (BookingStatus::Ongoing, BookingStatus::Completed) => true,
        (BookingStatus::Scheduled, BookingStatus::Cancelled) => true,
        (BookingStatus::Ongoing, BookingStatus::Cancelled) => true,
        _ => false,
    }
}

/// The word a status is stored under.
pub open spec fn label_of(s: BookingStatus) -> Seq<char> {
    match s {
        BookingStatus::Scheduled => "scheduled"@,
        BookingStatus::Ongoing => "ongoing"@,
        BookingStatus::Completed => "completed"@,
        BookingStatus::Cancelled => "cancelled"@,
    }
}

/// The status stored under a word, if any.
pub open spec fn status_of_label(w: Seq<char>) -> Option<BookingStatus> {
    if w == "scheduled"@ {
        Some(BookingStatus::Scheduled)
    } else if w == "ongoing"@ {
        Some(BookingStatus::Ongoing)
    } else if w == "completed"@ {
        Some(BookingStatus::Completed)
    } else if w == "cancelled"@ {
        Some(BookingStatus::Cancelled)
    } else {
        None
    }
}

impl BookingStatus {
    /// Scheduled or ongoing: the booking still holds what it booked.
    pub open spec fn is_live(self) -> bool {
        self == BookingStatus::Scheduled || self == BookingStatus::Ongoing
    }

    pub fn is_terminal(&self) -> (r: bool)
        ensures
            r == !self.is_live(),
    {
        match self {
            BookingStatus::Completed | BookingStatus::Cancelled => true,
            _ => false,
        }
    }

    /// Whether the lifecycle lets this status move to `next`.
    pub fn can_become(&self, next: BookingStatus) -> (r: bool)
        ensures
            r == allowed_move(*self, next),
    {
        match (*self, next) {
            (BookingStatus::Scheduled, BookingStatus::Ongoing) => true,
            (BookingStatus::Ongoing, BookingStatus::Completed) => true,
            (BookingStatus::Scheduled, BookingStatus::Cancelled) => true,
            (BookingStatus::Ongoing, BookingStatus::Cancelled) => true,
            _ => false,
        }
    }

    pub fn label(&self) -> (r: String)
        ensures
            r@ == label_of(*self),
    {
        match self {
            BookingStatus::Scheduled => "scheduled".to_owned(),
            BookingStatus::Ongoing => "ongoing".to_owned(),
            BookingStatus::Completed => "completed".to_owned(),
            BookingStatus::Cancelled => "cancelled".to_owned(),
        }
    }

    /// Reads a stored status word.
    pub fn from_label(w: &String) -> (r: Option<BookingStatus>)
        ensures
            r == status_of_label(w@),
    {
        let scheduled = "scheduled".to_owned();
        let ongoing = "ongoing".to_owned();
        let completed = "completed".to_owned();
        let cancelled = "cancelled".to_owned();
        if *w == scheduled {
            Some(BookingStatus::Scheduled)
        } else if *w == ongoing {
            Some(BookingStatus::Ongoing)
        } else if *w == completed {
            Some(BookingStatus::Completed)
        } else if *w == cancelled {
            Some(BookingStatus::Cancelled)
        } else {
            None
        }
    }
}

} // verus!
