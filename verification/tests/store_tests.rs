use customer_service::customers::Customer;
use customer_service::customers::CustomerOps;
use customer_service::store::CustomerStore;

fn sample_customer(email: &str, password: &str) -> Customer {
    Customer::new(
        None,
        String::from("John"),
        String::from("Doe"),
        String::from("123 Main St"),
        String::from(email),
        String::from(password),
    )
}

#[test]
fn test_add_get_customer() {
    let mut db = CustomerStore::new();

    let customer = Customer::new(
        None,
        String::from("John"),
        String::from("Doe"),
        String::from("123 Main St"),
        String::from("john.doe@example.com"),
        String::from("securepassword"),
    );

    let is_customer = db.get_customer(customer.get_email());
    assert!(is_customer.is_none(), "Customer already exists");

    db.add_customer(&customer);

    let email = "john.doe@example.com";
    let fetched_customer = db.get_customer(email);

    match fetched_customer {
        Some(c) => {
            assert_eq!(c.get_email(), email);
            println!("Customer found: {:?}", c);
        }
        None => panic!("Customer not found"),
    }

    db.delete_customer(email);
    assert!(db.get_customer(email).is_none(), "Failed to delete customer");
}

#[test]
fn store_assigns_increasing_ids() {
    let mut db = CustomerStore::new();
    db.add_customer(&sample_customer("first@example.com", "pw1"));
    db.add_customer(&sample_customer("second@example.com", "pw2"));

    let first = db.get_customer("first@example.com").unwrap();
    let second = db.get_customer("second@example.com").unwrap();
    assert_eq!(first.get_customer_id(), Some(1));
    assert_eq!(second.get_customer_id(), Some(2));
}

#[test]
fn lookup_returns_first_matching_row() {
    let mut db = CustomerStore::new();
    db.add_customer(&sample_customer("dup@example.com", "older"));
    db.add_customer(&sample_customer("dup@example.com", "newer"));

    let found = db.get_customer("dup@example.com").unwrap();
    assert_eq!(found.get_customer_id(), Some(1));
    assert_eq!(found.get_password(), "older");
}

#[test]
fn delete_missing_email_is_a_no_op() {
    let mut db = CustomerStore::new();
    db.add_customer(&sample_customer("kept@example.com", "pw"));

    db.delete_customer("absent@example.com");

    assert_eq!(db.len(), 1);
    assert!(db.get_customer("kept@example.com").is_some());
}

#[test]
fn delete_removes_every_matching_row() {
    let mut db = CustomerStore::new();
    db.add_customer(&sample_customer("gone@example.com", "pw1"));
    db.add_customer(&sample_customer("kept@example.com", "pw2"));
    db.add_customer(&sample_customer("gone@example.com", "pw3"));

    db.delete_customer("gone@example.com");

    assert_eq!(db.len(), 1);
    assert!(db.get_customer("gone@example.com").is_none());
    assert!(db.get_customer("kept@example.com").is_some());
}
