use validate_ro::error::ValidationError;
use validate_ro::form::{resolve_path, FormValidator};
use validate_ro::number::{Decimal, Number};
use validate_ro::rules::{Rule, Rules, Validator};
use validate_ro::value::Value;

fn text(s: &str) -> Value {
    Value::String(s.to_string())
}

fn whole(n: i64) -> Value {
    Value::Number(Number::Int(n))
}

fn decimal(mantissa: i64, exponent: i32) -> Value {
    Value::Number(Number::Float(Decimal { mantissa, exponent }))
}

fn object(entries: Vec<(&str, Value)>) -> Value {
    Value::Object(entries.into_iter().map(|(k, v)| (k.to_string(), v)).collect())
}

fn builtins() -> Vec<Validator> {
    vec![
        Rule::string(),
        Rule::array(),
        Rule::object(),
        Rule::boolean(),
        Rule::float(),
        Rule::integer(),
        Rule::length(3),
        Rule::min_length(3),
        Rule::max_length(3),
        Rule::equal(whole(42)),
        Rule::min_value(Number::Int(18)),
        Rule::max_value(Number::Int(18)),
        Rule::numeric(),
        Rule::accepted(),
        Rule::email(None),
        Rule::in_values(vec![whole(1)]),
        Rule::not_in_values(vec![whole(1)]),
        Rule::regex(r"^\d+$", None).unwrap(),
        Rule::url(),
        Rule::ip(),
        Rule::extensions(vec!["jpg".to_string()]),
        Rule::unique("users", "email", None),
    ]
}

#[test]
fn every_builtin_but_required_accepts_null() {
    for v in builtins() {
        assert!(v.validate(&Value::Null).is_ok());
    }
    let required = Rule::required();
    assert!(matches!(required.validate(&Value::Null), Err(ValidationError::Required)));
    assert!(required.validate(&text("")).is_ok());
    assert!(required.validate(&Value::Bool(false)).is_ok());
    assert!(required.validate(&whole(0)).is_ok());
}

#[test]
fn required_then_min_length_chain() {
    let rules = Rules::new().add(Rule::required()).add(Rule::min_length(3));
    assert!(matches!(rules.validate(&text("")), Err(ValidationError::MinLengthError { expected: 3, got: 0 })));
    assert!(matches!(rules.validate(&Value::Null), Err(ValidationError::Required)));
    assert!(matches!(rules.validate(&text("ab")), Err(ValidationError::MinLengthError { expected: 3, got: 2 })));
    assert!(rules.validate(&text("abc")).is_ok());
}

#[test]
fn default_is_used_only_for_null() {
    let form = FormValidator::new().add(
        "age",
        Rules::new()
            .add(Rule::integer())
            .add(Rule::min_value(Number::Int(18)))
            .default(whole(21))
            .into(),
    );
    let out = form.validate(&object(vec![])).ok().unwrap();
    assert_eq!(out.get("age"), Some(&whole(21)));
    let out = form.validate(&object(vec![("age", Value::Null)])).ok().unwrap();
    assert_eq!(out.get("age"), Some(&whole(21)));

    let errors = form.validate(&object(vec![("age", whole(17))])).err().unwrap();
    assert!(matches!(
        errors.get("age").unwrap()[0],
        ValidationError::MinValueError { expected: Number::Int(18), got: Number::Int(17) }
    ));
}

#[test]
fn default_that_fails_its_chain_is_reported() {
    let form = FormValidator::new()
        .add("age", Rules::new().add(Rule::integer()).default(text("old")).into());
    let errors = form.validate(&object(vec![])).err().unwrap();
    assert!(matches!(errors.get("age").unwrap()[0], ValidationError::TypeError { .. }));
}

#[test]
fn plain_validator_gets_no_default() {
    let form = FormValidator::new().add("name", Rule::string());
    let out = form.validate(&object(vec![])).ok().unwrap();
    assert_eq!(out.get("name"), Some(&Value::Null));
}

#[test]
fn nested_paths_resolve_or_give_null() {
    let empty_settings = object(vec![("settings", object(vec![]))]);
    assert!(resolve_path(&empty_settings, "settings.notifications").is_none());

    let with_flag = object(vec![("settings", object(vec![("notifications", Value::Bool(true))]))]);
    assert_eq!(resolve_path(&with_flag, "settings.notifications"), Some(&Value::Bool(true)));

    assert!(resolve_path(&object(vec![]), "settings.notifications").is_none());
    assert!(resolve_path(&object(vec![("settings", whole(3))]), "settings.notifications").is_none());
    assert_eq!(resolve_path(&with_flag, "settings"), Some(&object(vec![("notifications", Value::Bool(true))])));
}

#[test]
fn accumulate_or_stop_at_first_error() {
    let data = object(vec![("email", text("invalid-email")), ("password", text("short"))]);
    let all = FormValidator::new()
        .add("email", Rule::email(None))
        .add("password", Rule::min_length(8));
    let errors = all.validate(&data).err().unwrap();
    assert_eq!(errors.len(), 2);
    assert!(errors.get("email").is_some());
    assert!(errors.get("password").is_some());

    let first = FormValidator::break_on_first_error()
        .add("email", Rule::email(None))
        .add("password", Rule::min_length(8));
    let errors = first.validate(&data).err().unwrap();
    assert_eq!(errors.len(), 1);
    assert!(errors.get("email").is_some());
    assert!(errors.get("password").is_none());
}

#[test]
fn validating_twice_gives_the_same_result() {
    let form = FormValidator::new()
        .add("name", Rules::new().add(Rule::required()).add(Rule::string()).into())
        .add("age", Rules::new().add(Rule::integer()).default(whole(30)).into());
    let good = object(vec![("name", text("Ali"))]);
    let first = form.validate(&good).ok().unwrap();
    let second = form.validate(&good).ok().unwrap();
    assert_eq!(first.entries(), second.entries());

    let bad = object(vec![("name", whole(5))]);
    let e1 = form.validate(&bad).err().unwrap();
    let e2 = form.validate(&bad).err().unwrap();
    assert_eq!(e1.len(), e2.len());
    assert_eq!(e1.entries()[0].0, e2.entries()[0].0);
}

#[test]
fn re_registering_a_path_replaces_its_validator_in_place() {
    let form = FormValidator::new()
        .add("a", Rule::required())
        .add("b", Rule::required())
        .add("a", Rule::string());
    let errors = form.validate(&object(vec![("a", whole(1))])).err().unwrap();
    assert_eq!(errors.len(), 2);
    assert_eq!(errors.entries()[0].0, "a");
    assert!(matches!(errors.entries()[0].1[0], ValidationError::TypeError { .. }));
    assert_eq!(errors.entries()[1].0, "b");
}

#[test]
fn async_run_without_store_matches_sync() {
    let form = FormValidator::new()
        .add("user", Rules::new().add(Rule::required()).add(Rule::min_length(3)).into())
        .add("age", Rules::new().add(Rule::integer()).default(whole(21)).into());
    for data in [object(vec![("user", text("testuser"))]), object(vec![("user", text("tu"))])] {
        let mut run = form.start_async(&data);
        assert!(form.async_next(&mut run, &data).is_none());
        let from_async = form.async_finish(run, &data);
        let from_sync = form.validate(&data);
        match (from_async, from_sync) {
            (Ok(a), Ok(b)) => assert_eq!(a.entries(), b.entries()),
            (Err(a), Err(b)) => {
                assert_eq!(a.len(), b.len());
                assert_eq!(a.entries()[0].0, b.entries()[0].0);
            }
            _ => panic!("asynchronous and synchronous results differ"),
        }
    }
}

#[test]
fn unique_check_asks_the_store() {
    let form = FormValidator::new()
        .add("email", Rule::unique("users", "email", None))
        .add("name", Rule::required());
    let data = object(vec![("email", text("a@example.com")), ("name", text("Ali"))]);

    let mut run = form.start_async(&data);
    let q = form.async_next(&mut run, &data).unwrap();
    assert_eq!(q.collection, "users");
    assert_eq!(q.field, "email");
    assert_eq!(q.value, text("a@example.com"));
    assert!(run.waiting());
    form.async_answer(&mut run, &data, Ok(2));
    assert!(form.async_next(&mut run, &data).is_none());
    let errors = form.async_finish(run, &data).err().unwrap();
    assert_eq!(errors.len(), 1);
    assert!(matches!(errors.get("email").unwrap()[0], ValidationError::UniqueError));

    let mut run = form.start_async(&data);
    assert!(form.async_next(&mut run, &data).is_some());
    form.async_answer(&mut run, &data, Ok(0));
    assert!(form.async_next(&mut run, &data).is_none());
    let out = form.async_finish(run, &data).ok().unwrap();
    assert_eq!(out.get("email"), Some(&text("a@example.com")));
    assert_eq!(out.len(), 2);
}

#[test]
fn unique_check_without_store_fails_loudly() {
    let unique = Rule::unique("users", "email", None);
    match unique.validate(&text("a@example.com")) {
        Err(ValidationError::Custom(m)) => assert_eq!(m, "Async validation required"),
        _ => panic!("expected the synchronous uniqueness check to fail"),
    }
    assert!(unique.validate(&Value::Null).is_ok());

    let form = FormValidator::new().add("email", Rule::unique("users", "email", None));
    let data = object(vec![("email", Value::Bool(true))]);
    let mut run = form.start_async(&data);
    assert!(form.async_next(&mut run, &data).is_none());
    let errors = form.async_finish(run, &data).err().unwrap();
    assert!(matches!(errors.get("email").unwrap()[0], ValidationError::TypeError { .. }));
}

#[test]
fn unique_inside_a_chain_runs_synchronously() {
    let form = FormValidator::new()
        .add("email", Rules::new().add(Rule::unique("users", "email", None)).into());
    let data = object(vec![("email", text("a@example.com"))]);
    let mut run = form.start_async(&data);
    assert!(form.async_next(&mut run, &data).is_none());
    let errors = form.async_finish(run, &data).err().unwrap();
    assert!(matches!(errors.get("email").unwrap()[0], ValidationError::Custom(_)));
}

#[test]
fn numbers_compare_by_value() {
    let min = Rule::min_value(Number::Int(18));
    assert!(min.validate(&decimal(175, -1)).is_err());
    assert!(min.validate(&decimal(180, -1)).is_ok());
    assert!(min.validate(&decimal(18, 0)).is_ok());
    assert!(min.validate(&Value::Number(Number::UInt(u64::MAX))).is_ok());

    let max = Rule::max_value(Number::UInt(u64::MAX));
    assert!(max.validate(&decimal(1, 20)).is_err());
    assert!(max.validate(&decimal(1, 19)).is_ok());

    let negative = Rule::min_value(Number::Int(-5));
    assert!(negative.validate(&whole(-6)).is_err());
    assert!(negative.validate(&whole(-5)).is_ok());
    assert!(negative.validate(&decimal(-45, -1)).is_ok());
    assert!(negative.validate(&decimal(-51, -1)).is_err());
    assert!(matches!(negative.validate(&text("3")), Err(ValidationError::TypeError { .. })));
}

#[test]
fn numeric_strings_follow_float_syntax() {
    let numeric = Rule::numeric();
    for ok in ["1e5", ".5", "5.", "-inf", "NaN", "+1.5E-3", "infinity", "0"] {
        assert!(numeric.validate(&text(ok)).is_ok(), "{}", ok);
    }
    for bad in [".", "e5", "1e", "1..2", "", "+", "1.5.", "abc"] {
        assert!(numeric.validate(&text(bad)).is_err(), "{}", bad);
    }
    assert!(matches!(numeric.validate(&whole(12)), Err(ValidationError::NumericError(_))));
}

#[test]
fn ip_addresses() {
    let ip = Rule::ip();
    assert!(ip.validate(&text("0.0.0.0")).is_ok());
    assert!(ip.validate(&text("255.255.255.255")).is_ok());
    assert!(ip.validate(&text("01.2.3.4")).is_ok());
    assert!(ip.validate(&text("1.2.3")).is_err());
    assert!(ip.validate(&text("1.2.3.4.5")).is_err());
    assert!(ip.validate(&text("1234.1.1.1")).is_err());
    assert!(ip.validate(&text("1.2.3.")).is_err());
    assert!(matches!(ip.validate(&text("a.b.c.d")), Err(ValidationError::IpError(_))));
    assert!(matches!(ip.validate(&whole(1)), Err(ValidationError::TypeError { .. })));
}

#[test]
fn email_addresses() {
    let email = Rule::email(None);
    assert!(email.validate(&text("abc@example.c")).is_err());
    assert!(email.validate(&text("abc@ex.co.uk")).is_ok());
    assert!(email.validate(&text("ab@example.com")).is_err());
    assert!(email.validate(&text("abc@d@example.com")).is_err());
    assert!(email.validate(&text("abc@localhost")).is_err());

    let restricted = Rule::email(Some(vec!["example.com".to_string()]));
    match restricted.validate(&text("test@other.com")) {
        Err(ValidationError::EmailDomainError(d)) => assert_eq!(d, "other.com"),
        _ => panic!("expected a domain error"),
    }
}

#[test]
fn extensions_and_lengths() {
    let ext = Rule::extensions(vec!["gz".to_string(), "gz".to_string(), "noext".to_string()]);
    assert!(ext.validate(&text("archive.tar.gz")).is_ok());
    assert!(ext.validate(&text("noext")).is_ok());
    match ext.validate(&text("a.zip")) {
        Err(ValidationError::ExtensionError(allowed)) => {
            assert_eq!(allowed, vec!["gz".to_string(), "noext".to_string()])
        }
        _ => panic!("expected an extension error"),
    }

    assert!(Rule::length(2).validate(&text("é")).is_ok());
    assert!(Rule::length(2).validate(&object(vec![("a", whole(1)), ("b", whole(2))])).is_ok());
    assert!(matches!(
        Rule::max_length(1).validate(&Value::Array(vec![whole(1), whole(2)])),
        Err(ValidationError::MaxLengthError { expected: 1, got: 2 })
    ));
    assert!(matches!(
        Rule::length(1).validate(&whole(5)),
        Err(ValidationError::TypeError { .. })
    ));
    assert!(matches!(
        Rule::length(1).validate(&text("ab")),
        Err(ValidationError::LengthError { expected: 1, got: 2 })
    ));
}

#[test]
fn each_failure_carries_its_data() {
    match Rule::equal(whole(42)).validate(&whole(43)) {
        Err(ValidationError::EqualError { expected, got }) => {
            assert_eq!(expected, whole(42));
            assert_eq!(got, whole(43));
        }
        _ => panic!("expected an equality error"),
    }
    match Rule::max_value(Number::Int(10)).validate(&decimal(101, -1)) {
        Err(ValidationError::MaxValueError { expected, got }) => {
            assert_eq!(expected, Number::Int(10));
            assert_eq!(got, Number::Float(Decimal { mantissa: 101, exponent: -1 }));
        }
        _ => panic!("expected a maximum error"),
    }
    match Rule::in_values(vec![whole(1)]).validate(&whole(2)) {
        Err(ValidationError::InError(vs)) => assert_eq!(vs, vec![whole(1)]),
        _ => panic!("expected an in error"),
    }
    match Rule::not_in_values(vec![whole(1)]).validate(&whole(1)) {
        Err(ValidationError::NotInError(vs)) => assert_eq!(vs, vec![whole(1)]),
        _ => panic!("expected a not-in error"),
    }
    match Rule::accepted().validate(&text("no")) {
        Err(ValidationError::AcceptedError(v)) => assert_eq!(v, text("no")),
        _ => panic!("expected an accepted error"),
    }
    assert!(matches!(Rule::accepted().validate(&Value::Array(vec![])), Err(ValidationError::TypeError { .. })));
    assert!(Rule::accepted().validate(&decimal(1, 0)).is_err());
    assert!(Rule::accepted().validate(&text("On")).is_ok());
    match Rule::regex(r"^\d+$", None).unwrap().validate(&text("abc")) {
        Err(ValidationError::RegexError(m)) => assert_eq!(m, "abc"),
        _ => panic!("expected a regex error"),
    }
    match Rule::url().validate(&text("invalid")) {
        Err(ValidationError::UrlError(s)) => assert_eq!(s, "invalid"),
        _ => panic!("expected a url error"),
    }
    match Rule::integer().validate(&text("7")) {
        Err(ValidationError::TypeError { expected, got }) => {
            assert_eq!(expected, "int");
            assert_eq!(got, text("7"));
        }
        _ => panic!("expected a type error"),
    }
    assert!(Rule::integer().validate(&Value::Number(Number::UInt(u64::MAX))).is_err());
}

#[test]
fn bad_patterns_are_refused() {
    assert!(Rule::regex("foo(bar", None).is_err());
    assert!(Rule::regex("^[a-z]+$", None).is_ok());
}

#[test]
fn failures_have_wire_tags() {
    assert_eq!(ValidationError::Required.tag(), "required_error");
    assert!(ValidationError::Required.is_bare());
    assert_eq!(ValidationError::UniqueError.tag(), "unique_error");
    assert!(ValidationError::UniqueError.is_bare());
    let size = ValidationError::FileSizeError { min: 1, max: 2 };
    assert_eq!(size.tag(), "file_size_error");
    assert!(!size.is_bare());
    assert_eq!(ValidationError::Custom("x".to_string()).tag(), "validate_error");
    assert_eq!(ValidationError::EmailDomainError("x".to_string()).tag(), "email_domain_name_error");
    assert_eq!(ValidationError::MinLengthError { expected: 1, got: 0 }.tag(), "min_len_error");
}

#[test]
fn values_compare_deeply() {
    let a = object(vec![("k", Value::Array(vec![whole(1), text("x")]))]);
    let b = object(vec![("k", Value::Array(vec![whole(1), text("x")]))]);
    let c = object(vec![("k", Value::Array(vec![whole(1), text("y")]))]);
    assert_eq!(a, b);
    assert_ne!(a, c);
    assert_eq!(a.clone(), a);
    assert_ne!(whole(1), decimal(1, 0));
    assert_eq!(object(vec![("k", whole(1)), ("k", whole(2))]).get("k"), Some(&whole(1)));
}

#[test]
fn decimals_read_from_scientific_text() {
    assert_eq!(Decimal::from_scientific("1.23e0"), Some(Decimal { mantissa: 123, exponent: -2 }));
    assert_eq!(Decimal::from_scientific("-4.5e-7"), Some(Decimal { mantissa: -45, exponent: -8 }));
    assert_eq!(Decimal::from_scientific("1e20"), Some(Decimal { mantissa: 1, exponent: 20 }));
    assert_eq!(Decimal::from_scientific("0e0"), Some(Decimal { mantissa: 0, exponent: 0 }));
    assert_eq!(
        Decimal::from_scientific(&format!("{:e}", 9.9f64)),
        Some(Decimal { mantissa: 99, exponent: -1 })
    );
    assert_eq!(Decimal::from_scientific("1.e5"), None);
    assert_eq!(Decimal::from_scientific("e5"), None);
    assert_eq!(Decimal::from_scientific("1.2"), None);
    assert_eq!(Decimal::from_scientific("1e12345"), None);
    assert_eq!(Decimal::from_scientific("1234567890123456789e0"), None);
}
