use validate_ro::error::{ValidationError, ValidationResult};
use validate_ro::number::{Decimal, Number};
use validate_ro::rules::Rule;
use validate_ro::traits::Check;
use validate_ro::value::Value;

fn text(s: &str) -> Value {
    Value::String(s.to_string())
}

fn integer(n: i64) -> Value {
    Value::Number(Number::Int(n))
}

fn decimal(mantissa: i64, exponent: i32) -> Value {
    Value::Number(Number::Float(Decimal { mantissa, exponent }))
}

#[test]
fn test_required() {
    let validator = Rule::required();
    assert!(validator.validate(&Value::Null).is_err());
    assert!(validator.validate(&text("test")).is_ok());
}

#[test]
fn test_type_validators() {
    let string_validator = Rule::string();
    assert!(string_validator.validate(&text("test")).is_ok());
    assert!(string_validator.validate(&integer(123)).is_err());
    assert!(string_validator.validate(&Value::Null).is_ok());

    let bool_validator = Rule::boolean();
    assert!(bool_validator.validate(&Value::Bool(true)).is_ok());
    assert!(bool_validator.validate(&text("true")).is_err());
    assert!(bool_validator.validate(&Value::Null).is_ok());

    let float_validator = Rule::float();
    assert!(float_validator.validate(&decimal(123, -2)).is_ok());
    assert!(float_validator.validate(&integer(123)).is_err());
    assert!(float_validator.validate(&Value::Null).is_ok());

    let int_validator = Rule::integer();
    assert!(int_validator.validate(&integer(123)).is_ok());
    assert!(int_validator.validate(&decimal(123, -2)).is_err());
    assert!(int_validator.validate(&Value::Null).is_ok());
}

#[test]
fn test_length_validators() {
    let length_validator = Rule::length(3);
    assert!(length_validator.validate(&text("abc")).is_ok());
    assert!(length_validator.validate(&text("abcd")).is_err());
    assert!(length_validator.validate(&Value::Array(vec![integer(1), integer(2), integer(3)])).is_ok());
    assert!(length_validator.validate(&Value::Null).is_ok());

    let min_len_validator = Rule::min_length(3);
    assert!(min_len_validator.validate(&text("abc")).is_ok());
    assert!(min_len_validator.validate(&text("ab")).is_err());
    assert!(min_len_validator.validate(&Value::Null).is_ok());

    let max_len_validator = Rule::max_length(3);
    assert!(max_len_validator.validate(&text("abc")).is_ok());
    assert!(max_len_validator.validate(&text("abcd")).is_err());
    assert!(max_len_validator.validate(&Value::Null).is_ok());
}

#[test]
fn test_numeric_validators() {
    let equal_validator = Rule::equal(integer(42));
    assert!(equal_validator.validate(&integer(42)).is_ok());
    assert!(equal_validator.validate(&integer(43)).is_err());
    assert!(equal_validator.validate(&Value::Null).is_ok());

    let min_val_validator = Rule::min_value(Number::Float(Decimal { mantissa: 100, exponent: -1 }));
    assert!(min_val_validator.validate(&decimal(100, -1)).is_ok());
    assert!(min_val_validator.validate(&decimal(99, -1)).is_err());
    assert!(min_val_validator.validate(&Value::Null).is_ok());

    let max_val_validator = Rule::max_value(Number::Float(Decimal { mantissa: 100, exponent: -1 }));
    assert!(max_val_validator.validate(&decimal(100, -1)).is_ok());
    assert!(max_val_validator.validate(&decimal(101, -1)).is_err());
    assert!(max_val_validator.validate(&Value::Null).is_ok());

    let numeric_validator = Rule::numeric();
    assert!(numeric_validator.validate(&text("123")).is_ok());
    assert!(numeric_validator.validate(&text("abc")).is_err());
    assert!(numeric_validator.validate(&Value::Null).is_ok());
}

#[test]
fn test_accepted() {
    let accepted_validator = Rule::accepted();
    assert!(accepted_validator.validate(&text("yes")).is_ok());
    assert!(accepted_validator.validate(&text("YES")).is_ok());
    assert!(accepted_validator.validate(&Value::Bool(true)).is_ok());
    assert!(accepted_validator.validate(&integer(1)).is_ok());
    assert!(accepted_validator.validate(&text("no")).is_err());
    assert!(accepted_validator.validate(&Value::Null).is_ok());
}

#[test]
fn test_email() {
    let email_validator = Rule::email(None);
    assert!(email_validator.validate(&text("test@example.com")).is_ok());
    assert!(email_validator.validate(&text("invalid")).is_err());
    assert!(email_validator.validate(&text("a@b.c")).is_err());
    assert!(email_validator.validate(&Value::Null).is_ok());

    let restricted_email = Rule::email(Some(vec!["example.com".to_string()]));
    assert!(restricted_email.validate(&text("test@example.com")).is_ok());
    assert!(restricted_email.validate(&text("test@other.com")).is_err());
}

#[test]
fn test_in_values() {
    let in_validator = Rule::in_values(vec![integer(1), text("two"), Value::Bool(true)]);
    assert!(in_validator.validate(&integer(1)).is_ok());
    assert!(in_validator.validate(&text("two")).is_ok());
    assert!(in_validator.validate(&Value::Bool(true)).is_ok());
    assert!(in_validator.validate(&integer(2)).is_err());
    assert!(in_validator.validate(&Value::Null).is_ok());
}

#[test]
fn test_not_in_values() {
    let not_in_validator = Rule::not_in_values(vec![integer(1), text("two"), Value::Bool(true)]);
    assert!(not_in_validator.validate(&integer(2)).is_ok());
    assert!(not_in_validator.validate(&text("three")).is_ok());
    assert!(not_in_validator.validate(&Value::Bool(false)).is_ok());
    assert!(not_in_validator.validate(&integer(1)).is_err());
    assert!(not_in_validator.validate(&Value::Null).is_ok());
}

#[test]
fn test_regex() {
    let regex_validator = Rule::regex(r"^\d+$", None).unwrap();
    assert!(regex_validator.validate(&text("123")).is_ok());
    assert!(regex_validator.validate(&text("abc")).is_err());
    assert!(regex_validator.validate(&Value::Null).is_ok());

    let with_message = Rule::regex(r"^\d+$", Some("Must be digits".to_string())).unwrap();
    if let Err(ValidationError::RegexError(msg)) = with_message.validate(&text("abc")) {
        assert_eq!(msg, "Must be digits");
    } else {
        panic!("Expected RegexError with custom message");
    }
}

#[test]
fn test_url() {
    let url_validator = Rule::url();
    assert!(url_validator.validate(&text("https://example.com")).is_ok());
    assert!(url_validator.validate(&text("invalid")).is_err());
    assert!(url_validator.validate(&Value::Null).is_ok());
}

#[test]
fn test_ip() {
    let ip_validator = Rule::ip();
    assert!(ip_validator.validate(&text("192.168.1.1")).is_ok());
    assert!(ip_validator.validate(&text("256.168.1.1")).is_err());
    assert!(ip_validator.validate(&text("not.an.ip")).is_err());
    assert!(ip_validator.validate(&Value::Null).is_ok());
}

#[test]
fn test_extensions() {
    let ext_validator = Rule::extensions(vec!["jpg".to_string(), "png".to_string()]);
    assert!(ext_validator.validate(&text("image.jpg")).is_ok());
    assert!(ext_validator.validate(&text("file.png")).is_ok());
    assert!(ext_validator.validate(&text("document.pdf")).is_err());
    assert!(ext_validator.validate(&Value::Null).is_ok());
}

struct LongerThanFive;

impl Check for LongerThanFive {
    fn check(&self, value: &Value) -> ValidationResult {
        if let Value::String(s) = value {
            if s.len() > 5 {
                Ok(())
            } else {
                Err(ValidationError::Custom("Too short".to_string()))
            }
        } else {
            Ok(())
        }
    }
}

#[test]
fn test_custom_validator() {
    let custom_validator = Rule::custom(LongerThanFive);

    assert!(custom_validator.validate(&text("long enough")).is_ok());
    assert!(custom_validator.validate(&text("short")).is_err());
    assert!(custom_validator.validate(&Value::Null).is_ok());
}
