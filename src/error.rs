//! The closed set of validation failures.
use vstd::prelude::*;
use crate::number::Number;
use crate::value::{Json, Value};

verus! {

/// Why a value was refused. Each variant carries what a report needs to explain it.
#[derive(Debug)]
#[allow(inconsistent_fields)]
pub enum ValidationError {
    Required,
    TypeError { expected: String, got: Value },
    LengthError { expected: usize, got: usize },
    MinLengthError { expected: usize, got: usize },
    MaxLengthError { expected: usize, got: usize },
    EqualError { expected: Value, got: Value },
    MinValueError { expected: Number, got: Number },
    MaxValueError { expected: Number, got: Number },
    NumericError(Value),
    AcceptedError(Value),
    EmailError(String),
    EmailDomainError(String),
    InError(Vec<Value>),
    NotInError(Vec<Value>),
    RegexError(String),
    UrlError(String),
    IpError(String),
    ExtensionError(Vec<String>),
    UniqueError,
    FileSizeError { min: u64, max: u64 },
    Custom(String),
}

/// A validation failure as a mathematical value.
pub enum Failure {
    Required,
    Type(Seq<char>, Json),
    Length(nat, nat),
    MinLength(nat, nat),
    MaxLength(nat, nat),
    Equal(Json, Json),
    MinValue(Number, Number),
    MaxValue(Number, Number),
    Numeric(Json),
    Accepted(Json),
    Email(Seq<char>),
    EmailDomain(Seq<char>),
    In(Seq<Json>),
    NotIn(Seq<Json>),
    Regex(Seq<char>),
    Url(Seq<char>),
    Ip(Seq<char>),
    Extension(Seq<Seq<char>>),
    Unique,
    FileSize(nat, nat),
    Custom(Seq<char>),
}

/// The views of a list of nodes.
pub open spec fn views(xs: Seq<Value>) -> Seq<Json> {
    Seq::new(xs.len(), |i: int| xs[i]@)
}

/// The views of a list of strings.
pub open spec fn texts(xs: Seq<String>) -> Seq<Seq<char>> {
    Seq::new(xs.len(), |i: int| xs[i]@)
}

impl View for ValidationError {
    type V = Failure;

    open spec fn view(&self) -> Failure {
        match self {
            ValidationError::Required => Failure::Required,
            ValidationError::TypeError { expected, got } => Failure::Type(expected@, got@),
            ValidationError::LengthError { expected, got } => Failure::Length(
                *expected as nat,
                *got as nat,
            ),
            ValidationError::MinLengthError { expected, got } => Failure::MinLength(
                *expected as nat,
                *got as nat,
            ),
            ValidationError::MaxLengthError { expected, got } => Failure::MaxLength(
                *expected as nat,
                *got as nat,
            ),
            ValidationError::EqualError { expected, got } => Failure::Equal(expected@, got@),
            ValidationError::MinValueError { expected, got } => Failure::MinValue(*expected, *got),
            ValidationError::MaxValueError { expected, got } => Failure::MaxValue(*expected, *got),
            ValidationError::NumericError(v) => Failure::Numeric(v@),
            ValidationError::AcceptedError(v) => Failure::Accepted(v@),
            ValidationError::EmailError(s) => Failure::Email(s@),
            ValidationError::EmailDomainError(s) => Failure::EmailDomain(s@),
            ValidationError::InError(vs) => Failure::In(views(vs@)),
            ValidationError::NotInError(vs) => Failure::NotIn(views(vs@)),
            ValidationError::RegexError(s) => Failure::Regex(s@),
            ValidationError::UrlError(s) => Failure::Url(s@),
            ValidationError::IpError(s) => Failure::Ip(s@),
            ValidationError::ExtensionError(xs) => Failure::Extension(texts(xs@)),
            ValidationError::UniqueError => Failure::Unique,
            ValidationError::FileSizeError { min, max } => Failure::FileSize(
                *min as nat,
                *max as nat,
            ),
            ValidationError::Custom(s) => Failure::Custom(s@),
        }
    }
}

/// The outcome of one validation: `None` when the value is accepted.
pub type ValidationResult = Result<(), ValidationError>;

/// The failure of an outcome, if any.
pub open spec fn failure_of(r: ValidationResult) -> Option<Failure> {
    match r {
        Ok(_) => None,
        Err(e) => Some(e@),
    }
}

/// The tag under which a failure is reported.
pub open spec fn tag_of(f: Failure) -> Seq<char> {
    match f {
        Failure::Required => "required_error"@,
        Failure::Type(..) => "type_error"@,
        Failure::Length(..) => "len_error"@,
        Failure::MinLength(..) => "min_len_error"@,
        Failure::MaxLength(..) => "max_len_error"@,
        Failure::Equal(..) => "eq_error"@,
        Failure::MinValue(..) => "min_error"@,
        Failure::MaxValue(..) => "max_error"@,
        Failure::Numeric(..) => "numeric_error"@,
        Failure::Accepted(..) => "accepted_error"@,
        Failure::Email(..) => "email_error"@,
        Failure::EmailDomain(..) => "email_domain_name_error"@,
        Failure::In(..) => "in_error"@,
        Failure::NotIn(..) => "not_in_error"@,
        Failure::Regex(..) => "regex_error"@,
        Failure::Url(..) => "url_error"@,
        Failure::Ip(..) => "ip_error"@,
        Failure::Extension(..) => "extension_error"@,
        Failure::Unique => "unique_error"@,
        Failure::FileSize(..) => "file_size_error"@,
        Failure::Custom(..) => "validate_error"@,
    }
}

/// Whether a failure is reported by its tag alone, rather than as a tag and a payload.
pub open spec fn is_bare(f: Failure) -> bool {
    f is Required || f is Unique
}

impl ValidationError {
    /// The tag under which this failure is reported.
    pub fn tag(&self) -> (r: &'static str)
        ensures
            r@ == tag_of(self@),
    {
        match self {
            ValidationError::Required => "required_error",
            ValidationError::TypeError { .. } => "type_error",
            ValidationError::LengthError { .. } => "len_error",
            ValidationError::MinLengthError { .. } => "min_len_error",
            ValidationError::MaxLengthError { .. } => "max_len_error",
            ValidationError::EqualError { .. } => "eq_error",
            ValidationError::MinValueError { .. } => "min_error",
            ValidationError::MaxValueError { .. } => "max_error",
            ValidationError::NumericError(_) => "numeric_error",
            ValidationError::AcceptedError(_) => "accepted_error",
            ValidationError::EmailError(_) => "email_error",
            ValidationError::EmailDomainError(_) => "email_domain_name_error",
            ValidationError::InError(_) => "in_error",
            ValidationError::NotInError(_) => "not_in_error",
            ValidationError::RegexError(_) => "regex_error",
            ValidationError::UrlError(_) => "url_error",
            ValidationError::IpError(_) => "ip_error",
            ValidationError::ExtensionError(_) => "extension_error",
            ValidationError::UniqueError => "unique_error",
            ValidationError::FileSizeError { .. } => "file_size_error",
            ValidationError::Custom(_) => "validate_error",
        }
    }

    /// Whether this failure is reported by its tag alone.
    pub fn is_bare(&self) -> (r: bool)
        ensures
            r == is_bare(self@),
    {
        matches!(self, ValidationError::Required | ValidationError::UniqueError)
    }
}

} // verus!
