//! The customer record: the persisted entity of the service.
//!
//! `customer_id` is the surrogate key, absent until the store assigns it;
//! `email` is the natural key used for lookup and duplicate detection.

use vstd::prelude::*;

verus! {

/// The mathematical value of a [`Customer`]: the surrogate id (if assigned)
/// and the five text fields as character sequences.
pub struct CustomerV {
    pub customer_id: Option<int>,
    pub first_name: Seq<char>,
    pub last_name: Seq<char>,
    pub address: Seq<char>,
    pub email: Seq<char>,
    pub password: Seq<char>,
}

/// `c` with the surrogate id `id` assigned and every other field kept.
pub open spec fn with_id(c: CustomerV, id: int) -> CustomerV {
    CustomerV { customer_id: Some(id), ..c }
}

/// A persisted customer row.
#[derive(Debug, PartialEq)]
pub struct Customer {
    customer_id: Option<i32>,
    first_name: String,
    last_name: String,
    address: String,
    email: String,
    password: String,
}

impl View for Customer {
    type V = CustomerV;

    closed spec fn view(&self) -> CustomerV {
        CustomerV {
            customer_id: match self.customer_id {
                Some(id) => Some(id as int),
                None => None,
            },
            first_name: self.first_name@,
            last_name: self.last_name@,
            address: self.address@,
            email: self.email@,
            password: self.password@,
        }
    }
}

impl Customer {
    pub fn new(
        customer_id: Option<i32>,
        first_name: String,
        last_name: String,
        address: String,
        email: String,
        password: String,
    ) -> (r: Self)
        ensures
            r@ == (CustomerV {
                customer_id: match customer_id {
                    Some(id) => Some(id as int),
                    None => None,
                },
                first_name: first_name@,
                last_name: last_name@,
                address: address@,
                email: email@,
                password: password@,
            }),
    {
        Customer { customer_id, first_name, last_name, address, email, password }
    }

    /// A copy of this record carrying the store-assigned id `id`: the shape of
    /// the canonical persisted row.
    pub fn with_assigned_id(&self, id: i32) -> (r: Customer)
        ensures
            r@ == with_id(self@, id as int),
    {
        Customer {
            customer_id: Some(id),
            first_name: self.first_name.clone(),
            last_name: self.last_name.clone(),
            address: self.address.clone(),
            email: self.email.clone(),
            password: self.password.clone(),
        }
    }
}

impl Clone for Customer {
    fn clone(&self) -> (r: Self)
        ensures
            r@ == self@,
    {
        Customer {
            customer_id: self.customer_id,
            first_name: self.first_name.clone(),
            last_name: self.last_name.clone(),
            address: self.address.clone(),
            email: self.email.clone(),
            password: self.password.clone(),
        }
    }
}

/// Read access to the fields of a customer record.
pub trait CustomerOps {
    spec fn customer_view(&self) -> CustomerV;

    fn get_first_name(&self) -> (r: &str)
        ensures
            r@ == self.customer_view().first_name,
    ;

    fn get_last_name(&self) -> (r: &str)
        ensures
            r@ == self.customer_view().last_name,
    ;

    fn get_email(&self) -> (r: &str)
        ensures
            r@ == self.customer_view().email,
    ;

    fn get_address(&self) -> (r: &str)
        ensures
            r@ == self.customer_view().address,
    ;

    fn get_customer_id(&self) -> (r: Option<i32>)
        ensures
            match r {
                Some(id) => self.customer_view().customer_id == Some(id as int),
                None => self.customer_view().customer_id is None,
            },
    ;

    fn get_password(&self) -> (r: &str)
        ensures
            r@ == self.customer_view().password,
    ;
}

impl CustomerOps for Customer {
    open spec fn customer_view(&self) -> CustomerV {
        self@
    }

    fn get_first_name(&self) -> (r: &str) {
        self.first_name.as_str()
    }

    fn get_last_name(&self) -> (r: &str) {
        self.last_name.as_str()
    }

    fn get_email(&self) -> (r: &str) {
        self.email.as_str()
    }

    fn get_address(&self) -> (r: &str) {
        self.address.as_str()
    }

    fn get_customer_id(&self) -> (r: Option<i32>) {
        self.customer_id
    }

    fn get_password(&self) -> (r: &str) {
        self.password.as_str()
    }
}

} // verus!
