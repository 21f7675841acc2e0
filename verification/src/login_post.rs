//! The authentication service: looks a customer up by email and compares the
//! stored password with the submitted one.

use vstd::prelude::*;

use crate::customers::Customer;
use crate::customers::CustomerOps;
use crate::customers::CustomerV;
use crate::errors::ServiceError;
use crate::login_credentials::LoginCredentials;
use crate::store::find_by_email;
use crate::store::str_eq;
use crate::store::store_wf;
use crate::store::CustomerStore;
use crate::store::StoreV;

verus! {

/// What authenticating `email` / `password` against the rows yields: the
/// stored record on a match, otherwise which of the two refusals.
pub open spec fn authenticate_result(
    rows: Seq<CustomerV>,
    email: Seq<char>,
    password: Seq<char>,
) -> Result<CustomerV, ServiceError> {
    match find_by_email(rows, email) {
        None => Err(ServiceError::UserNotFound),
        Some(u) => if u.password == password {
            Ok(u)
        } else {
            Err(ServiceError::InvalidPassword)
        },
    }
}

/// The password decision of authentication, over whatever a lookup on the
/// submitted email returned: a missing row is an unknown user; a present row
/// authenticates exactly when the stored password equals the submitted one.
pub fn authenticate_decision(found: Option<Customer>, password: &str) -> (r: Result<
    Customer,
    ServiceError,
>)
    ensures
        match found {
            None => r == Err::<Customer, ServiceError>(ServiceError::UserNotFound),
            Some(u) => if u@.password == password@ {
                r matches Ok(c) && c == u
            } else {
                r == Err::<Customer, ServiceError>(ServiceError::InvalidPassword)
            },
        },
{
    match found {
        Some(u) => {
            if str_eq(u.get_password(), password) {
                Ok(u)
            } else {
                Err(ServiceError::InvalidPassword)
            }
        },
        None => Err(ServiceError::UserNotFound),
    }
}

/// The authentication service, reading through the store it owns.
#[derive(Debug)]
pub struct LoginService {
    store: CustomerStore,
}

impl View for LoginService {
    type V = StoreV;

    closed spec fn view(&self) -> StoreV {
        self.store@
    }
}

impl LoginService {
    pub open spec fn wf(&self) -> bool {
        store_wf(self@)
    }

    pub fn new(store: CustomerStore) -> (r: Self)
        ensures
            r@ == store@,
    {
        LoginService { store }
    }

    /// The store this service reads through.
    pub fn store(&self) -> (r: &CustomerStore)
        ensures
            r@ == self@,
    {
        &self.store
    }

    /// Authenticates the credentials: returns the stored record when the
    /// email is known and the password matches it exactly, and otherwise says
    /// which check failed.
    pub fn authenticate_user(&self, credentials: &LoginCredentials) -> (r: Result<
        Customer,
        ServiceError,
    >)
        ensures
            match r {
                Ok(c) => authenticate_result(self@.rows, credentials.email@, credentials.password@)
                    == Ok::<CustomerV, ServiceError>(c@),
                Err(e) => authenticate_result(
                    self@.rows,
                    credentials.email@,
                    credentials.password@,
                ) == Err::<CustomerV, ServiceError>(e),
            },
    {
        let user = self.store.get_customer(credentials.email.as_str());
        authenticate_decision(user, credentials.password.as_str())
    }
}

/// Authentication returns the stored record exactly on a known email with the
/// matching password; a known email with any other password is refused as an
/// invalid password; an unknown email is refused as an unknown user.
pub proof fn lemma_authenticate_trichotomy(
    rows: Seq<CustomerV>,
    email: Seq<char>,
    password: Seq<char>,
)
    ensures
        find_by_email(rows, email) is None ==> authenticate_result(rows, email, password) == Err::<
            CustomerV,
            ServiceError,
        >(ServiceError::UserNotFound),
        (find_by_email(rows, email) is Some && find_by_email(rows, email)->0.password == password)
            ==> authenticate_result(rows, email, password) == Ok::<CustomerV, ServiceError>(
            find_by_email(rows, email)->0,
        ),
        (find_by_email(rows, email) is Some && find_by_email(rows, email)->0.password != password)
            ==> authenticate_result(rows, email, password) == Err::<CustomerV, ServiceError>(
            ServiceError::InvalidPassword,
        ),
{
}

} // verus!
