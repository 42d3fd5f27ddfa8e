//! Publication semantics: time precision, availability evidence and formal
//! point-in-time eligibility.
//!
//! For this source the three are fixed at `Date` / `Inferred` / `NotEligible`
//! and are not the caller's to choose.
use vstd::prelude::*;

use crate::value::date::Date;

verus! {

/// Time precision: whether the source gives a date or an instant.
#[non_exhaustive]
#[derive(Debug, Clone, Copy, PartialEq, Eq, Hash, Structural)]
pub enum TimePrecision {
    /// A date only.
    Date,
    /// A definite instant.
    Instant,
}

/// Availability evidence tier: an official field, then a calendar, then inference.
#[non_exhaustive]
#[derive(Debug, Clone, Copy, PartialEq, Eq, Hash, Structural)]
pub enum AvailabilityEvidence {
    /// An official field.
    Official,
    /// A release calendar.
    Calendar,
    /// Inferred.
    Inferred,
}

/// Eligibility for the formal point-in-time store.
#[non_exhaustive]
#[derive(Debug, Clone, Copy, PartialEq, Eq, Hash, Structural)]
pub enum PitEligibility {
    /// May enter the formal point-in-time store.
    Formal,
    /// May not enter it.
    NotEligible,
}

/// This source's publication triple: always `(Date, Inferred, NotEligible)`.
/// The layer knows no official vintage field and holds no release calendar, so
/// availability can only be inferred and is never formally eligible; a date is
/// never dressed up as an instant.
pub fn publication_semantics() -> (r: (TimePrecision, AvailabilityEvidence, PitEligibility))
    ensures
        r == (TimePrecision::Date, AvailabilityEvidence::Inferred, PitEligibility::NotEligible),
{
    (TimePrecision::Date, AvailabilityEvidence::Inferred, PitEligibility::NotEligible)
}

/// The publication triple returned together with a data point's date. The
/// date is handed back unchanged and plays no part in the decision.
pub fn publication_for_period(period: Date) -> (r: (
    Date,
    TimePrecision,
    AvailabilityEvidence,
    PitEligibility,
))
    ensures
        r == (period, TimePrecision::Date, AvailabilityEvidence::Inferred, PitEligibility::NotEligible),
{
    let (precision, evidence, eligibility) = publication_semantics();
    (period, precision, evidence, eligibility)
}

} // verus!
