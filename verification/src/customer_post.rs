//! The registration service: enforces the "email must be unique" rule around
//! the store's raw operations.

use vstd::prelude::*;

use crate::customers::with_id;
use crate::customers::Customer;
use crate::customers::CustomerOps;
use crate::customers::CustomerV;
use crate::errors::ServiceError;
use crate::store::count_email;
use crate::store::find_by_email;
use crate::store::lemma_find_push;
use crate::store::lemma_find_some_iff_count_pos;
use crate::store::store_wf;
use crate::store::CustomerStore;
use crate::store::StoreV;
use crate::validation::valid_customer;

verus! {

/// What registering `c` against the store state `s` does: on a duplicate
/// email the store is untouched and the request refused; otherwise the row is
/// persisted under the next surrogate id and returned as re-read from the
/// store.
pub open spec fn register_result(s: StoreV, c: CustomerV) -> (StoreV, Result<
    CustomerV,
    ServiceError,
>) {
    if find_by_email(s.rows, c.email) is Some {
        (s, Err(ServiceError::DuplicateEmail))
    } else {
        (
            StoreV { rows: s.rows.push(with_id(c, s.next_id)), next_id: s.next_id + 1 },
            Ok(with_id(c, s.next_id)),
        )
    }
}

/// The uniqueness decision of registration, over whatever a lookup on the
/// candidate's email returned: an existing row refuses the request before any
/// insert is attempted.
pub fn register_precheck(existing: &Option<Customer>) -> (r: Result<(), ServiceError>)
    ensures
        r is Ok <==> existing is None,
        r is Err ==> r->Err_0 == ServiceError::DuplicateEmail,
{
    if existing.is_some() {
        Err(ServiceError::DuplicateEmail)
    } else {
        Ok(())
    }
}

/// The re-fetch decision of registration, over whatever the lookup right
/// after the insert returned: a missing row is an inconsistency, a present
/// row is the canonical persisted record.
pub fn register_postcheck(fetched: Option<Customer>) -> (r: Result<Customer, ServiceError>)
    ensures
        match fetched {
            Some(c) => r matches Ok(created) && created == c,
            None => r == Err::<Customer, ServiceError>(ServiceError::Inconsistency),
        },
{
    match fetched {
        Some(created) => Ok(created),
        None => Err(ServiceError::Inconsistency),
    }
}

/// The registration service, owning the store it writes through.
#[derive(Debug)]
pub struct CustomerPostService {
    store: CustomerStore,
}

impl View for CustomerPostService {
    type V = StoreV;

    closed spec fn view(&self) -> StoreV {
        self.store@
    }
}

impl CustomerPostService {
    pub open spec fn wf(&self) -> bool {
        store_wf(self@)
    }

    pub fn new(store: CustomerStore) -> (r: Self)
        ensures
            r@ == store@,
    {
        CustomerPostService { store }
    }

    /// The store this service writes through.
    pub fn store(&self) -> (r: &CustomerStore)
        ensures
            r@ == self@,
    {
        &self.store
    }

    /// Releases the store, for a caller that hands it to another service.
    pub fn into_store(self) -> (r: CustomerStore)
        ensures
            r@ == self@,
    {
        self.store
    }

    /// Registers `customer`: refuses a duplicate email without touching the
    /// store; otherwise inserts and returns the row as re-fetched from the
    /// store, its surrogate id populated.
    pub fn insert_data_into_customers_table(&mut self, customer: Customer) -> (r: Result<
        Customer,
        ServiceError,
    >)
        requires
            old(self).wf(),
            old(self)@.next_id < i32::MAX as int,
        ensures
            final(self).wf(),
            final(self)@ == register_result(old(self)@, customer@).0,
            match r {
                Ok(c) => register_result(old(self)@, customer@).1 == Ok::<
                    CustomerV,
                    ServiceError,
                >(c@),
                Err(e) => register_result(old(self)@, customer@).1 == Err::<
                    CustomerV,
                    ServiceError,
                >(e),
            },
    {
        let existing = self.store.get_customer(customer.get_email());
        if let Err(refused) = register_precheck(&existing) {
            return Err(refused);
        }
        self.store.add_customer(&customer);
        proof {
            lemma_find_push(old(self)@.rows, customer@.email, with_id(customer@, old(self)@.next_id));
        }
        register_postcheck(self.store.get_customer(customer.get_email()))
    }
}

/// A valid registration input whose email no row carries is accepted: the
/// returned record has a populated id and every other field equal to the
/// input, and it is exactly the row appended to the store.
pub proof fn lemma_register_fresh(s: StoreV, c: CustomerV)
    requires
        valid_customer(c),
        find_by_email(s.rows, c.email) is None,
    ensures
        register_result(s, c).1 is Ok,
        register_result(s, c).1->Ok_0.customer_id == Some(s.next_id),
        register_result(s, c).1->Ok_0.first_name == c.first_name,
        register_result(s, c).1->Ok_0.last_name == c.last_name,
        register_result(s, c).1->Ok_0.address == c.address,
        register_result(s, c).1->Ok_0.email == c.email,
        register_result(s, c).1->Ok_0.password == c.password,
        register_result(s, c).0.rows == s.rows.push(register_result(s, c).1->Ok_0),
{
}

/// A registration for an email the store already holds exactly once fails
/// with the duplicate-email error and leaves that email's row count at one.
pub proof fn lemma_register_duplicate(s: StoreV, c: CustomerV)
    requires
        count_email(s.rows, c.email) == 1,
    ensures
        register_result(s, c).1 == Err::<CustomerV, ServiceError>(ServiceError::DuplicateEmail),
        count_email(register_result(s, c).0.rows, c.email) == 1,
{
    lemma_find_some_iff_count_pos(s.rows, c.email);
}

/// Round trip: a lookup on the registered email, right after an accepted
/// registration, yields exactly the record the registration returned.
pub proof fn lemma_register_then_lookup(s: StoreV, c: CustomerV)
    requires
        find_by_email(s.rows, c.email) is None,
    ensures
        find_by_email(register_result(s, c).0.rows, c.email) == Some(
            register_result(s, c).1->Ok_0,
        ),
{
    lemma_find_push(s.rows, c.email, with_id(c, s.next_id));
}

} // verus!
