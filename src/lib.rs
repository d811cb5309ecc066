//! Booking consistency core of a clinic scheduling service: slot exclusivity for
//! timed appointments, dense per-day numbering of tokens and emergency visits,
//! and the status lifecycle of every booking.

/// Calendar dates read from `YYYY-MM-DD` text.
pub mod date;
/// Request and row shapes exchanged with clients and the store.
pub mod records;
/// The booking lifecycle.
pub mod status;
/// Dense per-scope numbering and its lemmas.
pub mod numbering;
/// Credentials and the authorization gate.
pub mod auth;
/// The schedule: appointments, tokens and emergency visits under their invariants.
pub mod booking;
/// Properties of the schedule across operations.
pub mod laws;
/// Decisions over rows read from the relational store.
pub mod rows;
