//! Login inputs: the raw parameters a caller submits and the normalized
//! internal credentials.

use vstd::prelude::*;

use crate::errors::FieldId;
use crate::errors::FieldViolation;
use crate::errors::ViolationReason;
use crate::validation::email_shape_ok;
use crate::validation::valid_email;

verus! {

/// The validated, normalized form of a login request. The placeholder
/// `customer_id` of a fresh request is 0; authentication derives the real
/// identity from the stored record, not from this value.
#[derive(Debug, Clone)]
pub struct LoginCredentials {
    pub customer_id: i32,
    pub email: String,
    pub password: String,
}

/// A login request as submitted: an email and a password, not yet validated.
#[derive(Debug)]
pub struct LoginParams {
    pub email: String,
    pub password: String,
}

impl LoginParams {
    /// Wraps the submitted fields. Construction itself never fails; the field
    /// rules are applied separately by
    /// [`validate_login_params`](crate::validation::validate_login_params).
    pub fn new(email: String, password: String) -> (r: Result<Self, Vec<FieldViolation>>)
        ensures
            r matches Ok(p) && p.email@ == email@ && p.password@ == password@,
    {
        let params = LoginParams { email, password };
        Ok(params)
    }

    pub fn email(&self) -> (r: &str)
        ensures
            r@ == self.email@,
    {
        self.email.as_str()
    }

    pub fn password(&self) -> (r: &str)
        ensures
            r@ == self.password@,
    {
        self.password.as_str()
    }
}

/// Checks the email shape alone, as the login path's custom field rule.
pub fn check_email(value: &str) -> (r: Result<(), FieldViolation>)
    ensures
        r is Ok <==> valid_email(value@),
        r matches Err(v) ==> v == (FieldViolation {
            field: FieldId::Email,
            reason: ViolationReason::Malformed,
        }),
{
    if email_shape_ok(value) {
        Ok(())
    } else {
        Err(FieldViolation { field: FieldId::Email, reason: ViolationReason::Malformed })
    }
}

} // verus!
