use customer_service::customers::Customer;
use customer_service::customers::CustomerOps;
use customer_service::store::str_eq;

fn sample() -> Customer {
    Customer::new(
        Some(7),
        String::from("Grace"),
        String::from("Hopper"),
        String::from("9 Harbor Way"),
        String::from("grace@navy.mil"),
        String::from("cobol"),
    )
}

#[test]
fn getters_return_the_constructed_fields() {
    let c = sample();
    assert_eq!(c.get_customer_id(), Some(7));
    assert_eq!(c.get_first_name(), "Grace");
    assert_eq!(c.get_last_name(), "Hopper");
    assert_eq!(c.get_address(), "9 Harbor Way");
    assert_eq!(c.get_email(), "grace@navy.mil");
    assert_eq!(c.get_password(), "cobol");
}

#[test]
fn clone_preserves_every_field() {
    let c = sample();
    let copy = c.clone();
    assert_eq!(copy, c);
}

#[test]
fn with_assigned_id_replaces_only_the_id() {
    let c = sample();
    let assigned = c.with_assigned_id(42);
    assert_eq!(assigned.get_customer_id(), Some(42));
    assert_eq!(assigned.get_first_name(), c.get_first_name());
    assert_eq!(assigned.get_last_name(), c.get_last_name());
    assert_eq!(assigned.get_address(), c.get_address());
    assert_eq!(assigned.get_email(), c.get_email());
    assert_eq!(assigned.get_password(), c.get_password());
}

#[test]
fn str_eq_compares_by_characters() {
    assert!(str_eq("grace@navy.mil", "grace@navy.mil"));
    assert!(!str_eq("grace@navy.mil", "grace@navy.mi"));
    assert!(!str_eq("abc", "abd"));
    assert!(str_eq("", ""));
}
