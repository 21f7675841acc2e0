//! A small customer-account service: registration, login, and the credential
//! store they share.
//!
//! The store keeps customer rows keyed by a surrogate id and looked up by
//! email, the natural key. The registration service enforces the
//! "email must be unique" rule around the store's raw operations; the
//! authentication service compares a submitted password against the stored
//! one. Validation rules (email shape, password length) run before any store
//! access. Every operation carries a contract describing exactly which rows
//! the store holds afterwards and which error is returned on which input.

pub mod customer_post;
pub mod customers;
pub mod errors;
pub mod login_credentials;
pub mod login_post;
pub mod store;
pub mod validation;
