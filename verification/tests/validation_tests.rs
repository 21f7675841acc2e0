use customer_service::customers::Customer;
use customer_service::errors::AppOracleError;
use customer_service::errors::FieldId;
use customer_service::errors::FieldViolation;
use customer_service::errors::ViolationReason;
use customer_service::login_credentials::check_email;
use customer_service::login_credentials::LoginParams;
use customer_service::validation::email_shape_ok;
use customer_service::validation::validate_customer;
use customer_service::validation::validate_login_params;

fn with_password(password: &str) -> Customer {
    Customer::new(
        None,
        String::from("Ada"),
        String::from("Lovelace"),
        String::from("12 Crunch Lane"),
        String::from("ada@example.com"),
        String::from(password),
    )
}

fn params(email: &str, password: &str) -> LoginParams {
    LoginParams::new(String::from(email), String::from(password)).expect("construction never fails")
}

#[test]
fn accepts_well_formed_emails() {
    assert!(email_shape_ok("a@b.com"));
    assert!(email_shape_ok("john.doe+tag@sub.example.co"));
    assert!(email_shape_ok("under_score%99@mail-host.org"));
    assert!(email_shape_ok("x@y.abcde"));
}

#[test]
fn rejects_malformed_emails() {
    assert!(!email_shape_ok(""));
    assert!(!email_shape_ok("plainaddress"));
    assert!(!email_shape_ok("@b.com"));
    assert!(!email_shape_ok("a@"));
    assert!(!email_shape_ok("a@b"));
    assert!(!email_shape_ok("a@b.c"));
    assert!(!email_shape_ok("a@.com"));
    assert!(!email_shape_ok("a b@c.com"));
    assert!(!email_shape_ok("a@b@c.com"));
    assert!(!email_shape_ok("a@b.c0m"));
    assert!(!email_shape_ok("\u{e1}@b.com"));
}

#[test]
fn check_email_reports_the_email_field() {
    assert!(check_email("a@b.com").is_ok());
    let violation = check_email("not-an-email").unwrap_err();
    assert_eq!(violation, FieldViolation { field: FieldId::Email, reason: ViolationReason::Malformed });
}

#[test]
fn registration_password_boundaries() {
    assert!(validate_customer(&with_password("p")).is_ok());
    assert!(validate_customer(&with_password("exactly15chars!")).is_ok());

    let too_short = validate_customer(&with_password("")).unwrap_err();
    assert_eq!(
        too_short,
        vec![FieldViolation { field: FieldId::Password, reason: ViolationReason::TooShort }]
    );

    let too_long = validate_customer(&with_password("sixteen.chars!!!")).unwrap_err();
    assert_eq!(
        too_long,
        vec![FieldViolation { field: FieldId::Password, reason: ViolationReason::TooLong }]
    );
}

#[test]
fn registration_report_lists_email_before_password() {
    let bad = Customer::new(
        None,
        String::from("Ada"),
        String::from("Lovelace"),
        String::from("12 Crunch Lane"),
        String::from("no-at-sign"),
        String::from("sixteen.chars!!!"),
    );
    let report = validate_customer(&bad).unwrap_err();
    assert_eq!(
        report,
        vec![
            FieldViolation { field: FieldId::Email, reason: ViolationReason::Malformed },
            FieldViolation { field: FieldId::Password, reason: ViolationReason::TooLong },
        ]
    );
}

#[test]
fn login_password_boundaries() {
    assert!(validate_login_params(&params("a@b.com", "four")).is_ok());

    let too_short = validate_login_params(&params("a@b.com", "abc")).unwrap_err();
    assert_eq!(
        too_short,
        vec![FieldViolation { field: FieldId::Password, reason: ViolationReason::TooShort }]
    );
}

#[test]
fn login_email_length_boundaries() {
    let local = "a".repeat(44);
    let fifty = format!("{}@b.com", local);
    assert_eq!(fifty.chars().count(), 50);
    assert!(validate_login_params(&params(&fifty, "four")).is_ok());

    let local = "a".repeat(45);
    let fifty_one = format!("{}@b.com", local);
    let report = validate_login_params(&params(&fifty_one, "four")).unwrap_err();
    assert_eq!(
        report,
        vec![FieldViolation { field: FieldId::Email, reason: ViolationReason::TooLong }]
    );

    let empty_email = validate_login_params(&params("", "four")).unwrap_err();
    assert_eq!(
        empty_email,
        vec![
            FieldViolation { field: FieldId::Email, reason: ViolationReason::TooShort },
            FieldViolation { field: FieldId::Email, reason: ViolationReason::Malformed },
        ]
    );
}

#[test]
fn login_params_expose_their_fields() {
    let p = params("a@b.com", "secret");
    assert_eq!(p.email(), "a@b.com");
    assert_eq!(p.password(), "secret");
}

#[test]
fn app_oracle_error_keeps_its_message() {
    let err = AppOracleError::new(String::from("listener refused the connection"));
    assert_eq!(err.msg, "listener refused the connection");
}
