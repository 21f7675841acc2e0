use customer_service::customer_post::CustomerPostService;
use customer_service::customers::Customer;
use customer_service::customers::CustomerOps;
use customer_service::errors::ServiceError;
use customer_service::login_credentials::LoginCredentials;
use customer_service::login_post::LoginService;
use customer_service::store::CustomerStore;

fn candidate(email: &str, password: &str) -> Customer {
    Customer::new(
        None,
        String::from("Ada"),
        String::from("Lovelace"),
        String::from("12 Crunch Lane"),
        String::from(email),
        String::from(password),
    )
}

fn credentials(email: &str, password: &str) -> LoginCredentials {
    LoginCredentials {
        customer_id: 0,
        email: String::from(email),
        password: String::from(password),
    }
}

#[test]
fn register_fresh_email_returns_populated_record() {
    let mut service = CustomerPostService::new(CustomerStore::new());

    let created = service
        .insert_data_into_customers_table(candidate("ada@example.com", "enchantress"))
        .expect("a fresh email must register");

    assert_eq!(created.get_customer_id(), Some(1));
    assert_eq!(created.get_first_name(), "Ada");
    assert_eq!(created.get_last_name(), "Lovelace");
    assert_eq!(created.get_address(), "12 Crunch Lane");
    assert_eq!(created.get_email(), "ada@example.com");
    assert_eq!(created.get_password(), "enchantress");
}

#[test]
fn register_then_lookup_round_trip() {
    let mut service = CustomerPostService::new(CustomerStore::new());

    let created = service
        .insert_data_into_customers_table(candidate("ada@example.com", "enchantress"))
        .expect("a fresh email must register");

    let fetched = service
        .store()
        .get_customer("ada@example.com")
        .expect("the registered email must be found");
    assert_eq!(fetched, created);
}

#[test]
fn register_duplicate_email_is_refused_and_keeps_one_row() {
    let mut service = CustomerPostService::new(CustomerStore::new());
    service
        .insert_data_into_customers_table(candidate("ada@example.com", "enchantress"))
        .expect("a fresh email must register");

    let refused = service.insert_data_into_customers_table(candidate("ada@example.com", "other"));

    assert_eq!(refused, Err(ServiceError::DuplicateEmail));
    assert_eq!(service.store().len(), 1);
    let stored = service.store().get_customer("ada@example.com").unwrap();
    assert_eq!(stored.get_password(), "enchantress");
}

#[test]
fn authenticate_matches_stored_record() {
    let mut service = CustomerPostService::new(CustomerStore::new());
    let created = service
        .insert_data_into_customers_table(candidate("ada@example.com", "enchantress"))
        .expect("a fresh email must register");

    let login = LoginService::new(service.into_store());

    let authenticated = login
        .authenticate_user(&credentials("ada@example.com", "enchantress"))
        .expect("the correct password must authenticate");
    assert_eq!(authenticated, created);

    let wrong = login.authenticate_user(&credentials("ada@example.com", "wrong"));
    assert_eq!(wrong, Err(ServiceError::InvalidPassword));

    let unknown = login.authenticate_user(&credentials("nobody@x.com", "x"));
    assert_eq!(unknown, Err(ServiceError::UserNotFound));
}

#[test]
fn register_and_login_scenario() {
    let mut service = CustomerPostService::new(CustomerStore::new());

    let created = service
        .insert_data_into_customers_table(candidate("a@b.com", "secret"))
        .expect("a fresh email must register");
    assert_eq!(created.get_customer_id(), Some(1));

    let again = service.insert_data_into_customers_table(candidate("a@b.com", "secret"));
    assert_eq!(again, Err(ServiceError::DuplicateEmail));

    let login = LoginService::new(service.into_store());

    let ok = login
        .authenticate_user(&credentials("a@b.com", "secret"))
        .expect("the correct password must authenticate");
    assert_eq!(ok, created);

    let bad_password = login.authenticate_user(&credentials("a@b.com", "wrong"));
    assert_eq!(bad_password, Err(ServiceError::InvalidPassword));

    let unknown = login.authenticate_user(&credentials("nobody@x.com", "x"));
    assert_eq!(unknown, Err(ServiceError::UserNotFound));
}
