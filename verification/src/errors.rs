//! Error taxonomy of the service layer and the structured validation report.

use vstd::prelude::*;

verus! {

/// The field of a request that a validation rule speaks about.
#[derive(Clone, Copy, Debug, PartialEq, Eq, Structural)]
pub enum FieldId {
    Email,
    Password,
}

/// Why a field was rejected.
#[derive(Clone, Copy, Debug, PartialEq, Eq, Structural)]
pub enum ViolationReason {
    Malformed,
    TooShort,
    TooLong,
}

/// One entry of a validation report: a field together with the rule it broke.
#[derive(Clone, Copy, Debug, PartialEq, Eq, Structural)]
pub struct FieldViolation {
    pub field: FieldId,
    pub reason: ViolationReason,
}

/// Everything that can go wrong past validation.
///
/// `DuplicateEmail` is a refused registration; `UserNotFound` and
/// `InvalidPassword` are refused logins; `StoreFailure` stands for a
/// persistence-layer fault reported by an outer store; `Inconsistency` means a
/// re-fetch right after an insert found nothing.
#[derive(Clone, Copy, Debug, PartialEq, Eq, Structural)]
pub enum ServiceError {
    DuplicateEmail,
    UserNotFound,
    InvalidPassword,
    StoreFailure,
    Inconsistency,
}

/// An error wrapper for faults of an outer, connection-backed store. The
/// verified in-memory store never produces one; an unverified store adapter
/// fills `msg` with the underlying driver's report.
#[derive(Debug)]
pub struct AppOracleError {
    pub msg: String,
}

impl AppOracleError {
    pub fn new(msg: String) -> (r: Self)
        ensures
            r.msg@ == msg@,
    {
        AppOracleError { msg }
    }
}

} // verus!
