use validate_ro::error::{ValidationError, ValidationResult};
use validate_ro::form::FormValidator;
use validate_ro::number::Number;
use validate_ro::rules::{Rule, Rules};
use validate_ro::traits::Check;
use validate_ro::value::Value;

fn text(s: &str) -> Value {
    Value::String(s.to_string())
}

fn integer(n: i64) -> Value {
    Value::Number(Number::Int(n))
}

fn object(entries: Vec<(&str, Value)>) -> Value {
    Value::Object(entries.into_iter().map(|(k, v)| (k.to_string(), v)).collect())
}

#[test]
fn test_rules_validation() {
    let rules = Rules::new().add(Rule::required()).add(Rule::min_length(3));

    assert!(rules.validate(&text("valid")).is_ok());
    assert!(rules.validate(&text("")).is_err());
    assert!(rules.validate(&Value::Null).is_err());
    assert!(rules.validate(&text("ab")).is_err());
}

#[test]
fn test_form_validator_success() {
    let form_validator = FormValidator::new()
        .add("username", Rules::new().add(Rule::required()).add(Rule::min_length(3)).into())
        .add("age", Rules::new().add(Rule::integer()).add(Rule::max_value(Number::Int(120))).into());

    let form_data = object(vec![("username", text("testuser")), ("age", integer(25))]);

    let result = form_validator.validate(&form_data);
    assert!(result.is_ok());

    let valid_data = result.ok().unwrap();
    assert_eq!(valid_data.get("username"), Some(&text("testuser")));
    assert_eq!(valid_data.get("age"), Some(&integer(25)));
}

#[test]
fn test_form_validator_with_errors() {
    let form_validator = FormValidator::new()
        .add("email", Rules::new().add(Rule::required()).add(Rule::email(None)).into())
        .add("password", Rules::new().add(Rule::required()).add(Rule::min_length(8)).into());

    let form_data = object(vec![("email", text("invalid-email")), ("password", text("short"))]);

    let result = form_validator.validate(&form_data);
    assert!(result.is_err());

    let errors = result.err().unwrap();
    assert_eq!(errors.len(), 2);

    assert!(matches!(errors.get("email").unwrap().get(0).unwrap(), ValidationError::EmailError(_)));
    assert!(matches!(
        errors.get("password").unwrap().get(0).unwrap(),
        ValidationError::MinLengthError { .. }
    ));
}

#[test]
fn test_form_validator_missing_required_field() {
    let form_validator = FormValidator::new()
        .add("username", Rules::new().add(Rule::required()).into())
        .add("email", Rules::new().add(Rule::required()).into());

    let form_data = object(vec![("username", text("testuser"))]);

    let result = form_validator.validate(&form_data);
    assert!(result.is_err());

    let errors = result.err().unwrap();
    assert_eq!(errors.len(), 1);
    assert!(matches!(errors.get("email").unwrap().get(0).unwrap(), ValidationError::Required));
}

#[test]
fn test_form_validator_break_on_first_error() {
    let form_validator = FormValidator::break_on_first_error()
        .add("email", Rules::new().add(Rule::email(None)).into())
        .add("password", Rules::new().add(Rule::required()).add(Rule::min_length(8)).into());

    let form_data = object(vec![("email", text("invalid-email")), ("password", text("short"))]);

    let result = form_validator.validate(&form_data);
    assert!(result.is_err());

    let errors = result.err().unwrap();
    assert_eq!(errors.len(), 1);
    assert!(matches!(errors.get("email").unwrap().get(0).unwrap(), ValidationError::EmailError(_)));
}

#[test]
fn test_nested_rules_validation() {
    let form_validator = FormValidator::new()
        .add("user", Rules::new().add(Rule::required()).add(Rule::min_length(3)).into())
        .add("settings.notifications", Rules::new().add(Rule::required()).into());

    let valid_data = object(vec![
        ("user", text("testuser")),
        ("settings", object(vec![("notifications", Value::Bool(true))])),
    ]);
    assert!(form_validator.validate(&valid_data).is_ok());

    let invalid_data = object(vec![("user", text("tu")), ("settings", object(vec![]))]);
    let result = form_validator.validate(&invalid_data);
    assert!(result.is_err());

    let errors = result.err().unwrap();
    assert_eq!(errors.len(), 2);
}

struct NeedsUppercase;

impl Check for NeedsUppercase {
    fn check(&self, value: &Value) -> ValidationResult {
        if let Value::String(s) = value {
            if s.chars().any(|c| c.is_ascii_uppercase()) {
                Ok(())
            } else {
                Err(ValidationError::Custom("Must contain uppercase".to_string()))
            }
        } else {
            Ok(())
        }
    }
}

#[test]
fn test_custom_validator_in_form() {
    let form_validator = FormValidator::new().add(
        "password",
        Rules::new()
            .add(Rule::required())
            .add(Rule::min_length(8))
            .add(Rule::custom(NeedsUppercase))
            .into(),
    );

    let valid_data = object(vec![("password", text("SecurePass123"))]);
    assert!(form_validator.validate(&valid_data).is_ok());

    let invalid_data = object(vec![("password", text("weakpass123"))]);
    let result = form_validator.validate(&invalid_data);
    assert!(result.is_err());
    match result {
        Ok(_) => {}
        Err(errors) => {
            assert!(matches!(errors.get("password").unwrap().get(0).unwrap(), ValidationError::Custom(_)));
        }
    }
}

#[test]
fn test_default_validator_in_form() {
    let form_validator = FormValidator::new()
        .add("name", Rules::new().add(Rule::required()).add(Rule::string()).into())
        .add("active", Rules::new().add(Rule::boolean()).default(Value::Bool(false)).into());

    let valid_data = object(vec![("name", text("Ali"))]);
    let data = form_validator.validate(&valid_data);

    match data {
        Ok(d) => {
            assert_eq!(d.get("active").unwrap(), &Value::Bool(false));
        }
        Err(errors) => {
            panic!("error: {:?}", errors.entries());
        }
    }
}
