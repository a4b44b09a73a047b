//! Core logic of a university lab-course administration platform:
//! role-mask authorization, resource-ownership checks, capacity-bounded
//! seat allocation for lab groups, meeting-room booking conflict
//! detection, and derivation of a student's expected lab-session log.
//!
//! Storage and transport are kept outside: every operation here is a
//! function from plain values (and in-memory stores) to plain values,
//! with its behaviour stated in its contract.

pub mod booking;
pub mod calendar;
pub mod catalog;
pub mod enroll;
pub mod equipment;
pub mod logsynth;
pub mod models;
pub mod ownership;
pub mod perm;
pub mod timeline;

use vstd::prelude::*;

verus! {

/// Terminal, user-visible outcomes of the core operations.
///
/// `Conflict` carries the index of the conflicting record in the
/// collection that was scanned (for bookings, the index of the first
/// conflicting agenda; for logs, the index of the recent duplicate).
#[derive(Debug, Clone, Copy, PartialEq, Eq, Structural)]
pub enum OpError {
    /// No resolvable principal (no active session).
    Unauthorized,
    /// The principal lacks the required permission or ownership.
    Forbidden,
    /// A referenced entity is absent.
    NotFound,
    /// The seat limit (or another hard cap) is reached.
    CapacityExceeded,
    /// An overlapping record was found; carries its index.
    Conflict(usize),
    /// Malformed input, e.g. a non-positive seat limit.
    Invalid,
}

} // verus!
