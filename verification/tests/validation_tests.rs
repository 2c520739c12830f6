use polymarket::decimal::Dec;
use polymarket::model::OrderType;
use polymarket::validation::admin_dto::{LoginAdminDTO, UpdateAdminDTO};
use polymarket::validation::market_dto::{
    validate_market_order_field, CreateMarketDTO, CreateOutcomeDTO, MarketQueryDTO,
};
use polymarket::validation::order_dto::PlaceOrderDTO;
use polymarket::validation::user_dto::{DepositBalanceDTO, LoginUserDTO, RegisterUserDTO};
use polymarket::validation::{validate_order_by, ValidationErrors};

fn fields(e: &ValidationErrors) -> Vec<(String, String, Option<String>)> {
    e.errors
        .iter()
        .map(|f| (f.field.clone(), f.error.code.clone(), f.error.message.clone()))
        .collect()
}

fn f(field: &str, code: &str, message: Option<&str>) -> (String, String, Option<String>) {
    (field.to_string(), code.to_string(), message.map(|m| m.to_string()))
}

#[test]
fn valid_registration_passes() {
    let dto = RegisterUserDTO {
        name: "Ada".to_string(),
        email: "ada@example.com".to_string(),
        password: "password1".to_string(),
        confirm_password: "password1".to_string(),
    };
    assert!(dto.validate().is_ok());
}

#[test]
fn registration_failures_are_listed_in_field_order() {
    let dto = RegisterUserDTO {
        name: "".to_string(),
        email: "not-an-email".to_string(),
        password: "short".to_string(),
        confirm_password: "other".to_string(),
    };
    let e = dto.validate().unwrap_err();
    assert_eq!(
        fields(&e),
        vec![
            f("name", "length", Some("Name is required")),
            f("email", "email", Some("Provide valid email address")),
            f("password", "length", Some("Password must be at least 8 characters")),
            f("confirm_password", "must_match", Some("Passwords do not match")),
        ]
    );
}

#[test]
fn empty_email_fails_both_checks() {
    let dto = LoginUserDTO { email: "".to_string(), password: "password1".to_string() };
    let e = dto.validate().unwrap_err();
    assert_eq!(
        fields(&e),
        vec![
            f("email", "length", Some("Email is required")),
            f("email", "email", Some("Provide valid email address")),
        ]
    );
}

#[test]
fn admin_requests() {
    let ok = LoginAdminDTO { email: "root@x.io".to_string(), password: "12345678".to_string() };
    assert!(ok.validate().is_ok());
    let bad = LoginAdminDTO { email: "root@x.io".to_string(), password: "1234".to_string() };
    assert_eq!(
        fields(&bad.validate().unwrap_err()),
        vec![f("password", "length", Some("Password must be at least 8 charaters"))]
    );
    let upd = UpdateAdminDTO { name: "".to_string(), email: "root@x.io".to_string() };
    assert_eq!(fields(&upd.validate().unwrap_err()), vec![f("name", "length", Some("Name is required"))]);
}

#[test]
fn orders_need_positive_shares_and_price() {
    let ok = PlaceOrderDTO {
        market_id: 1,
        outcome_id: 2,
        shares: Dec::new(1, 0),
        price: Dec::new(5, 1),
        order_type: OrderType::LIMIT,
    };
    assert!(ok.validate().is_ok());
    let bad = PlaceOrderDTO { shares: Dec::new(0, 3), price: Dec::new(-1, 2), ..ok };
    assert_eq!(
        fields(&bad.validate().unwrap_err()),
        vec![
            f("shares", "Balance must be greater than zero", Some("Shares must be greater than zero")),
            f("price", "Balance must be greater than zero", Some("Price must be greater than zero")),
        ]
    );
}

#[test]
fn deposits_must_be_positive() {
    assert!(DepositBalanceDTO { balance: Dec::new(1, 2) }.validate().is_ok());
    assert!(DepositBalanceDTO { balance: Dec::new(0, 0) }.validate().is_err());
}

#[test]
fn ordering_directions_and_fields() {
    assert!(validate_order_by(&"ASC".to_string()).is_ok());
    assert!(validate_order_by(&"DESC".to_string()).is_ok());
    let e = validate_order_by(&"asc".to_string()).unwrap_err();
    assert_eq!(e.code, "Invalid order direction. Must be 'ASC' or 'DESC'");
    assert!(e.message.is_none());
    assert!(validate_market_order_field(&"close_at".to_string()).is_ok());
    assert!(validate_market_order_field(&"title".to_string()).is_err());
}

#[test]
fn market_listing_query_checks() {
    let q = MarketQueryDTO {
        order_field: Some("title".to_string()),
        order_by: Some("UP".to_string()),
        status: None,
        category: None,
        start_after: None,
        start_before: None,
        close_after: None,
        close_before: None,
        limit: Some(0),
        skip: Some(-1),
    };
    let e = q.validate().unwrap_err();
    assert_eq!(e.errors.len(), 4);
    assert_eq!(e.errors[0].field, "order_field");
    assert_eq!(e.errors[1].field, "order_by");
}

fn outcome(label: &str, price: Dec, shares: Dec) -> CreateOutcomeDTO {
    CreateOutcomeDTO { label: label.to_string(), start_price: price, total_shares: shares }
}

#[test]
fn market_creation_checks_outcomes_then_dates() {
    let good = CreateMarketDTO {
        title: "T".to_string(),
        desciption: "D".to_string(),
        category: "C".to_string(),
        start_at: 10,
        close_at: 20,
        first_outcome: outcome("Yes", Dec::new(5, 1), Dec::new(1000, 0)),
        second_outcome: outcome("No", Dec::new(5, 1), Dec::new(1000, 0)),
    };
    assert!(good.validate(5).is_ok());

    // dates are only checked once every field is valid
    let e = good.validate(10).unwrap_err();
    assert_eq!(
        fields(&e),
        vec![f("__all__", "start_at must be greater than the current time", None)]
    );

    let bad = CreateMarketDTO {
        first_outcome: outcome("", Dec::new(1, 0), Dec::new(100, 0)),
        start_at: 30,
        ..good
    };
    let e = bad.validate(5).unwrap_err();
    assert_eq!(
        fields(&e),
        vec![
            f("first_outcome.label", "length", Some("Label is required")),
            f(
                "first_outcome.start_price",
                "Start price must be between 0 and 1",
                Some("Start price must be between 0 and 1")
            ),
            f(
                "first_outcome.total_shares",
                "Total Shares must be greater than 100",
                Some("Total Shares must be greater than 100")
            ),
        ]
    );
}
