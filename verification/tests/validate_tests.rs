use tent_backend::protocol::validate::{
    validate_email, validate_hex_string, validate_instrument_id, validate_phone,
    validate_quantity, validate_symbol, validate_timestamp, validate_uuid, AccountPayload,
    EmailValidator, EnumValidator, FieldValidator, JsonFieldValidator, MessageValidator,
    OrderPayload, PayloadValidator, ReportView,
    RegexValidator, RequiredValidator, Severity, StringLengthValidator, ValidationResult,
};

fn codes(result: &ValidationResult) -> Vec<(String, String)> {
    result
        .errors
        .iter()
        .map(|e| (e.field.clone(), e.code.clone()))
        .collect()
}

fn pair(field: &str, code: &str) -> (String, String) {
    (field.to_string(), code.to_string())
}

#[test]
fn regex_validator_reports_invalid_patterns() {
    let validator = RegexValidator { pattern: "[" };
    let result = validator.validate(&"anything".to_string(), "custom");

    assert!(!result.valid);
    assert_eq!(result.errors.len(), 1);
    assert_eq!(result.errors[0].field, "custom");
    assert_eq!(result.errors[0].code, "invalid_pattern");
    assert!(result.errors[0].message.contains("Invalid regex pattern"));
}

#[test]
fn regex_validator_preserves_match_behavior() {
    let validator = RegexValidator {
        pattern: r"^[A-Z]{3}$",
    };

    assert!(validator.validate(&"ABC".to_string(), "code").valid);

    let result = validator.validate(&"abc".to_string(), "code");
    assert!(!result.valid);
    assert_eq!(result.errors[0].code, "pattern_mismatch");
}

#[test]
fn email_validator_preserves_existing_behavior() {
    let validator = EmailValidator;

    assert!(
        validator
            .validate(&"person@example.com".to_string(), "email")
            .valid
    );

    let result = validator.validate(&"not-an-email".to_string(), "email");
    assert!(!result.valid);
    assert_eq!(result.errors[0].code, "invalid_email");
}

#[test]
fn helper_validators_preserve_existing_behavior() {
    assert!(validate_email("person@example.com"));
    assert!(!validate_email("person@localhost"));

    assert!(validate_uuid("123e4567-e89b-12d3-a456-426614174000"));
    assert!(!validate_uuid("123E4567-E89B-12D3-A456-426614174000"));

    assert!(validate_symbol("BTC/USD"));
    assert!(!validate_symbol("btc/usd"));

    assert!(validate_instrument_id("btcspot01"));
    assert!(!validate_instrument_id("BTCSPOT01"));
}

#[test]
fn regex_validator_messages() {
    let validator = RegexValidator { pattern: "^a+$" };
    let result = validator.validate(&"b".to_string(), "f");
    assert_eq!(
        result.errors[0].message,
        "Does not match required pattern: ^a+$"
    );
    let bad = RegexValidator { pattern: "(" };
    let result = bad.validate(&"b".to_string(), "f");
    let text = regex::Regex::new("(").unwrap_err().to_string();
    assert_eq!(result.errors[0].message, format!("Invalid regex pattern: {text}"));
    assert_eq!(result.errors[0].severity, Severity::Error);
}

#[test]
fn validation_result_building() {
    let mut result = ValidationResult::valid();
    assert!(result.valid && !result.has_errors() && !result.has_warnings());
    result.add_warning("careful");
    assert!(result.valid && result.has_warnings());
    result.add_error("a", "b", "c");
    assert!(!result.valid && result.has_errors());
    assert_eq!(result.errors[0].message, "c");
    assert_eq!(result.warnings, vec!["careful".to_string()]);

    let mut left = ValidationResult::error("x", "y", "z");
    left.combine(result.clone());
    assert!(!left.valid);
    assert_eq!(codes(&left), vec![pair("x", "y"), pair("a", "b")]);
    assert_eq!(left.warnings, vec!["careful".to_string()]);
}

#[test]
fn combining_with_valid_is_neutral() {
    let mut r = ValidationResult::error("f", "c", "m");
    r.add_warning("w");
    let mut left = ValidationResult::valid();
    left.combine(r.clone());
    let mut right = r.clone();
    right.combine(ValidationResult::valid());
    for x in [&left, &right] {
        assert_eq!(x.valid, r.valid);
        assert_eq!(codes(x), codes(&r));
        assert_eq!(x.warnings, r.warnings);
    }
}

#[test]
fn add_error_equals_combine_with_error() {
    let mut a = ValidationResult::valid();
    a.add_warning("w");
    let mut b = a.clone();
    a.add_error("f", "c", "m");
    b.combine(ValidationResult::error("f", "c", "m"));
    assert_eq!(a.valid, b.valid);
    assert_eq!(codes(&a), codes(&b));
    assert_eq!(a.errors[0].message, b.errors[0].message);
    assert_eq!(a.warnings, b.warnings);
}

#[test]
fn combine_is_associative_on_an_example() {
    let a = ValidationResult::error("a", "1", "m");
    let b = ValidationResult::valid();
    let c = ValidationResult::error("c", "3", "m");
    let mut ab = a.clone();
    ab.combine(b.clone());
    ab.combine(c.clone());
    let mut bc = b.clone();
    bc.combine(c.clone());
    let mut a_bc = a.clone();
    a_bc.combine(bc);
    assert_eq!(codes(&ab), codes(&a_bc));
    assert_eq!(ab.valid, a_bc.valid);
}

#[test]
fn required_validator() {
    let v = RequiredValidator;
    assert!(v.validate(&Some(3), "n").valid);
    let r = v.validate(&None::<u8>, "n");
    assert_eq!(codes(&r), vec![pair("n", "required")]);
    assert_eq!(r.errors[0].message, "Field is required");
}

#[test]
fn string_length_validator_counts_bytes() {
    let v = StringLengthValidator {
        min: Some(3),
        max: Some(5),
    };
    assert!(v.validate(&"abcd".to_string(), "s").valid);
    let short = v.validate(&"ab".to_string(), "s");
    assert_eq!(codes(&short), vec![pair("s", "min_length")]);
    assert_eq!(short.errors[0].message, "Must be at least 3 characters");
    let long = v.validate(&"\u{e9}\u{e9}\u{e9}".to_string(), "s");
    assert_eq!(codes(&long), vec![pair("s", "max_length")]);
    assert_eq!(long.errors[0].message, "Must be at most 5 characters");
    let both = StringLengthValidator {
        min: Some(10),
        max: Some(1),
    }
    .validate(&"abc".to_string(), "s");
    assert_eq!(codes(&both), vec![pair("s", "min_length"), pair("s", "max_length")]);
    assert_eq!(both.errors[0].message, "Must be at least 10 characters");
    let none = StringLengthValidator { min: None, max: None };
    assert!(none.validate(&String::new(), "s").valid);
}

#[test]
fn enum_validator() {
    let v = EnumValidator {
        variants: &["red", "green"],
    };
    assert!(v.validate(&"green".to_string(), "colour").valid);
    let r = v.validate(&"blue".to_string(), "colour");
    assert_eq!(codes(&r), vec![pair("colour", "invalid_value")]);
    assert_eq!(r.errors[0].message, "Must be one of: [\"red\", \"green\"]");
    let empty = EnumValidator { variants: &[] };
    assert_eq!(
        empty.validate(&"x".to_string(), "f").errors[0].message,
        "Must be one of: []"
    );
    let quoted = EnumValidator {
        variants: &["a\"b"],
    };
    assert_eq!(
        quoted.validate(&"x".to_string(), "f").errors[0].message,
        format!("Must be one of: {:?}", ["a\"b"])
    );
}

#[test]
fn phone_hex_and_timestamp_helpers() {
    assert!(validate_phone("+1 (555) 123-4567"));
    assert!(!validate_phone("123-456"));
    assert!(validate_phone("123456789012345"));
    assert!(!validate_phone("1234567890123456"));

    assert!(validate_hex_string("deadBEEF", 4));
    assert!(!validate_hex_string("deadBEEF", 3));
    assert!(!validate_hex_string("deadbeeg", 4));
    assert!(validate_hex_string("", 0));
    assert!(!validate_hex_string("\u{e9}", 1));

    assert!(validate_timestamp(946684800000));
    assert!(validate_timestamp(4102444800000));
    assert!(!validate_timestamp(946684799999));
    assert!(!validate_timestamp(4102444800001));
}

#[test]
fn quantity_helper_on_float_bits() {
    assert!(validate_quantity(1.0f64.to_bits()));
    assert!(validate_quantity(99_999_999.5f64.to_bits()));
    assert!(!validate_quantity(0.0f64.to_bits()));
    assert!(!validate_quantity((-0.0f64).to_bits()));
    assert!(!validate_quantity((-3.0f64).to_bits()));
    assert!(!validate_quantity(100_000_000.0f64.to_bits()));
    assert!(!validate_quantity(f64::NAN.to_bits()));
    assert!(!validate_quantity(f64::INFINITY.to_bits()));
}

fn order(
    side: Option<&str>,
    order_type: Option<&str>,
    quantity: Option<f64>,
    price: Option<f64>,
    tif: Option<&str>,
) -> OrderPayload {
    OrderPayload {
        side: side.map(String::from),
        order_type: order_type.map(String::from),
        quantity: quantity.map(f64::to_bits),
        price: price.map(f64::to_bits),
        time_in_force: tif.map(String::from),
    }
}

#[test]
fn order_payload_accepts_a_limit_order() {
    let r = MessageValidator::validate_order_payload(&order(
        Some("buy"),
        Some("limit"),
        Some(10.0),
        Some(99.5),
        Some("gtc"),
    ));
    assert!(r.valid);
    assert!(r.errors.is_empty());
    let market = MessageValidator::validate_order_payload(&order(
        Some("sell"),
        Some("market"),
        Some(1_000_000.0),
        None,
        None,
    ));
    assert!(market.valid);
}

#[test]
fn order_payload_reports_every_field() {
    let r = MessageValidator::validate_order_payload(&order(None, None, None, None, None));
    assert!(!r.valid);
    assert_eq!(
        codes(&r),
        vec![
            pair("side", "required"),
            pair("type", "required"),
            pair("quantity", "required"),
            pair("price", "required"),
        ]
    );
    assert_eq!(r.errors[3].message, "Price is required for non-market orders");

    let r = MessageValidator::validate_order_payload(&order(
        Some("hold"),
        Some("iceberg"),
        Some(-1.0),
        Some(0.0),
        Some("forever"),
    ));
    assert_eq!(
        codes(&r),
        vec![
            pair("side", "invalid_side"),
            pair("type", "invalid_type"),
            pair("quantity", "invalid_quantity"),
            pair("price", "invalid_price"),
            pair("time_in_force", "invalid_tif"),
        ]
    );
    assert_eq!(r.errors[0].message, "Invalid side: hold. Must be 'buy' or 'sell'");
    assert_eq!(r.errors[1].message, "Invalid order type: iceberg");
    assert_eq!(
        r.errors[4].message,
        "Invalid time_in_force: \"forever\". Must be one of [\"gtc\", \"ioc\", \"fok\", \"day\", \"gtd\"]"
    );

    let big = MessageValidator::validate_order_payload(&order(
        Some("buy"),
        Some("stop"),
        Some(2_000_000.0),
        Some(1.0),
        None,
    ));
    assert_eq!(codes(&big), vec![pair("quantity", "max_exceeded")]);
    assert_eq!(big.errors[0].message, "Quantity exceeds maximum allowed");
}

#[test]
fn account_payload_rules() {
    let ok = MessageValidator::validate_account_payload(&AccountPayload {
        amount: Some(5.0f64.to_bits()),
        currency: Some("USDC".into()),
    });
    assert!(ok.valid);
    let empty = MessageValidator::validate_account_payload(&AccountPayload {
        amount: None,
        currency: None,
    });
    assert!(empty.valid);
    let bad = MessageValidator::validate_account_payload(&AccountPayload {
        amount: Some(2e9f64.to_bits()),
        currency: Some("DOGE".into()),
    });
    assert_eq!(
        codes(&bad),
        vec![pair("amount", "max_exceeded"), pair("currency", "invalid_currency")]
    );
    assert_eq!(bad.errors[1].message, "Unsupported currency: DOGE");
    let zero = MessageValidator::validate_account_payload(&AccountPayload {
        amount: Some(0.0f64.to_bits()),
        currency: None,
    });
    assert_eq!(codes(&zero), vec![pair("amount", "invalid_amount")]);
    assert_eq!(zero.errors[0].message, "Amount must be positive");
}

struct FieldCheck(&'static str);

impl JsonFieldValidator for FieldCheck {
    fn outcome(&self, _value: serde_json::Value) -> ReportView {
        unreachable!()
    }

    fn check(&self, value: &serde_json::Value) -> ValidationResult {
        if value.get(self.0).is_some() {
            ValidationResult::valid()
        } else {
            ValidationResult::error(self.0, "missing", "absent")
        }
    }
}

struct SizeCheck(usize);

impl PayloadValidator for SizeCheck {
    fn outcome(&self, _message_type: u16, _payload: &[u8]) -> ReportView {
        unreachable!()
    }

    fn check(&self, message_type: u16, payload: &[u8]) -> ValidationResult {
        let mut r = ValidationResult::valid();
        if payload.len() > self.0 {
            r.add_error("_payload", "too_large", &format!("type {message_type}"));
        }
        r.add_warning("size checked");
        r
    }
}

#[test]
fn message_validator_runs_stages_in_order() {
    let mut v = MessageValidator::new();
    let empty = v.validate(1, Ok(()), b"{}");
    assert!(empty.valid && empty.errors.is_empty() && empty.warnings.is_empty());

    v.register_field_validator(7, Box::new(FieldCheck("a")));
    v.register_field_validator(7, Box::new(FieldCheck("b")));
    v.register_field_validator(8, Box::new(FieldCheck("z")));
    v.register_custom_validator(Box::new(SizeCheck(4)));

    let r = v.validate(7, Err("Mismatch".into()), br#"{"b": 1}"#);
    assert!(!r.valid);
    assert_eq!(
        codes(&r),
        vec![
            pair("_schema", "schema_mismatch"),
            pair("a", "missing"),
            pair("_payload", "too_large"),
        ]
    );
    assert_eq!(r.errors[0].message, "Schema validation failed: Mismatch");
    assert_eq!(r.errors[2].message, "type 7");
    assert_eq!(r.warnings, vec!["size checked".to_string()]);

    let not_json = v.validate(7, Ok(()), b"{");
    assert_eq!(codes(&not_json), Vec::<(String, String)>::new());
    assert!(not_json.valid);

    let other = v.validate(9, Ok(()), b"[]");
    assert!(other.valid);
}
