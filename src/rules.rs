//! Validators: the built-in checks, caller-written checks, and chains of validators.
use vstd::prelude::*;
use crate::checks::{self, Kind, SizeBound};
use crate::error::{Failure, ValidationError, ValidationResult};
use crate::number::Number;
use crate::pattern::Pattern;
use crate::traits::Check;
use crate::value::{Json, Value};

verus! {

broadcast use vstd::std_specs::vec::group_vec_axioms;

/// The identifier of a stored record (`bson`'s `ObjectId`, as `mongodb` re-exports it);
/// only carried through to the store's queries.
#[verifier::external_type_specification]
#[verifier::external_body]
pub struct ExObjectId(mongodb::bson::oid::ObjectId);

/// A failure of the store (`mongodb`'s error type); only told apart from a count.
#[verifier::external_type_specification]
#[verifier::external_body]
pub struct ExStoreError(mongodb::error::Error);

/// The uniqueness check: the value must not occur under `field` in the stored `collection`,
/// leaving out the record `exclude`, if given.
pub struct UniqueValidator {
    pub collection: String,
    pub field: String,
    pub exclude: Option<mongodb::bson::oid::ObjectId>,
}

/// One validator: a built-in check, a caller-written check, or a chain of validators.
pub enum Validator {
    Required,
    Type(Kind),
    Size(SizeBound, usize),
    Equal(Value),
    MinValue(Number),
    MaxValue(Number),
    Numeric,
    Accepted,
    Email(Option<Vec<String>>),
    In(Vec<Value>),
    NotIn(Vec<Value>),
    Regex(Pattern, Option<String>),
    Url,
    Ip,
    Extensions(Vec<String>),
    Unique(UniqueValidator),
    Custom(Box<dyn Check>),
    Rules(Rules),
}

/// An ordered chain of validators, with an optional default that stands in for null.
pub struct Rules {
    validators: Vec<Validator>,
    default_value: Option<Value>,
}

impl Rules {
    pub closed spec fn members(&self) -> Seq<Validator> {
        self.validators@
    }

    pub closed spec fn default_view(&self) -> Option<Json> {
        match self.default_value {
            Some(d) => Some(d@),
            None => None,
        }
    }
}

/// The value a chain works on: its default when the input is null and a default is set.
pub open spec fn substituted(r: Rules, x: Json) -> Json {
    if x is Null && r.default_view() is Some {
        r.default_view()->0
    } else {
        x
    }
}

/// What a built-in check reports for a value: `None` when it accepts it. (Chains and
/// caller-written checks are described by `reports`.)
pub open spec fn outcome(v: Validator, x: Json) -> Option<Failure> {
    match v {
        Validator::Required => checks::required_outcome(x),
        Validator::Type(k) => checks::kind_outcome(k, x),
        Validator::Size(b, n) => checks::size_outcome(b, n as nat, x),
        Validator::Equal(e) => checks::equal_outcome(e@, x),
        Validator::MinValue(m) => checks::min_value_outcome(m, x),
        Validator::MaxValue(m) => checks::max_value_outcome(m, x),
        Validator::Numeric => checks::numeric_outcome(x),
        Validator::Accepted => checks::accepted_outcome(x),
        Validator::Email(allowed) => checks::email_outcome(
            match allowed {
                Some(a) => Some(crate::error::texts(a@)),
                None => None,
            },
            x,
        ),
        Validator::In(vs) => checks::in_outcome(crate::error::views(vs@), x),
        Validator::NotIn(vs) => checks::not_in_outcome(crate::error::views(vs@), x),
        Validator::Regex(p, m) => checks::regex_outcome(
            p.source(),
            match m {
                Some(s) => Some(s@),
                None => None,
            },
            x,
        ),
        Validator::Url => checks::url_outcome(x),
        Validator::Ip => checks::ip_outcome(x),
        Validator::Extensions(a) => checks::extension_outcome(crate::error::texts(a@), x),
        Validator::Unique(_) => checks::unique_sync_outcome(x),
        Validator::Custom(_) => None,
        Validator::Rules(_) => None,
    }
}

/// Whether `v` may report `f` for `x` (`None` meaning acceptance): a built-in check reports
/// its outcome, a caller-written check may report anything, and a chain reports the first
/// failure of its members on the substituted value.
pub open spec fn reports(v: Validator, x: Json, f: Option<Failure>) -> bool
    decreases v, 0int,
{
    match v {
        Validator::Custom(_) => true,
        Validator::Rules(r) => chain_reports(r, substituted(r, x), 0, f),
        _ => f == outcome(v, x),
    }
}

/// Whether the chain's members from the `i`-th on, each run on `x` until one fails, may
/// report `f`.
pub open spec fn chain_reports(r: Rules, x: Json, i: int, f: Option<Failure>) -> bool
    decreases r, r.members().len() - i,
{
    if i < 0 || i >= r.members().len() {
        f is None
    } else {
        ||| reports(r.members()[i], x, None) && chain_reports(r, x, i + 1, f)
        ||| f is Some && reports(r.members()[i], x, f)
    }
}

/// Whether no caller-written check occurs in `v`: then what it reports is determined.
pub open spec fn is_builtin(v: Validator) -> bool
    decreases v, 0int,
{
    match v {
        Validator::Custom(_) => false,
        Validator::Rules(r) => chain_builtin(r, 0),
        _ => true,
    }
}

pub open spec fn chain_builtin(r: Rules, i: int) -> bool
    decreases r, r.members().len() - i,
{
    if i < 0 || i >= r.members().len() {
        true
    } else {
        is_builtin(r.members()[i]) && chain_builtin(r, i + 1)
    }
}

/// A validator without caller-written checks reports one thing only for each value.
pub proof fn lemma_reports_unique(v: Validator, x: Json, f1: Option<Failure>, f2: Option<Failure>)
    requires
        is_builtin(v),
        reports(v, x, f1),
        reports(v, x, f2),
    ensures
        f1 == f2,
    decreases v, 0int,
{
    match v {
        Validator::Rules(r) => {
            lemma_chain_unique(r, substituted(r, x), 0, f1, f2);
        },
        _ => {},
    }
}

proof fn lemma_chain_unique(r: Rules, x: Json, i: int, f1: Option<Failure>, f2: Option<Failure>)
    requires
        i >= 0,
        chain_builtin(r, i),
        chain_reports(r, x, i, f1),
        chain_reports(r, x, i, f2),
    ensures
        f1 == f2,
    decreases r, r.members().len() - i,
{
    if i < r.members().len() {
        let m = r.members()[i];
        assert(decreases_to!(r => r.members()[i])) by {
            reveal_members_decrease(r, i);
        }
        if reports(m, x, None) {
            if f1 is Some && reports(m, x, f1) {
                lemma_reports_unique(m, x, None, f1);
            }
            if f2 is Some && reports(m, x, f2) {
                lemma_reports_unique(m, x, None, f2);
            }
            lemma_chain_unique(r, x, i + 1, f1, f2);
        } else {
            lemma_reports_unique(m, x, f1, f2);
        }
    }
}

proof fn reveal_members_decrease(r: Rules, i: int)
    requires
        0 <= i < r.members().len(),
    ensures
        decreases_to!(r => r.members()[i]),
{
    assert(decreases_to!(r => r.validators));
    assert(decreases_to!(r.validators => r.validators@[i]));
}

impl Validator {
    /// Runs the validator on a value.
    pub fn validate(&self, value: &Value) -> (r: ValidationResult)
        ensures
            reports(*self, value@, crate::error::failure_of(r)),
        decreases self,
    {
        match self {
            Validator::Required => checks::check_required(value),
            Validator::Type(k) => checks::check_kind(k, value),
            Validator::Size(b, n) => checks::check_size(b, *n, value),
            Validator::Equal(e) => checks::check_equal(e, value),
            Validator::MinValue(m) => checks::check_min_value(*m, value),
            Validator::MaxValue(m) => checks::check_max_value(*m, value),
            Validator::Numeric => checks::check_numeric(value),
            Validator::Accepted => checks::check_accepted(value),
            Validator::Email(allowed) => checks::check_email(allowed, value),
            Validator::In(vs) => checks::check_in(vs, value),
            Validator::NotIn(vs) => checks::check_not_in(vs, value),
            Validator::Regex(p, m) => checks::check_regex(p, m, value),
            Validator::Url => checks::check_url(value),
            Validator::Ip => checks::check_ip(value),
            Validator::Extensions(a) => checks::check_extension(a, value),
            Validator::Unique(_) => checks::check_unique_sync(value),
            Validator::Custom(c) => c.check(value),
            Validator::Rules(r) => r.validate(value),
        }
    }
}

impl Rules {
    /// An empty chain without a default.
    pub fn new() -> (r: Rules)
        ensures
            r.members().len() == 0,
            r.default_view() is None,
    {
        Rules { validators: Vec::new(), default_value: None }
    }

    /// The chain with `validator` appended.
    pub fn add(self, validator: Validator) -> (r: Rules)
        ensures
            r.members() == self.members().push(validator),
            r.default_view() == self.default_view(),
    {
        let mut s = self;
        s.validators.push(validator);
        s
    }

    /// The chain with `default` as its default.
    pub fn default(self, default: Value) -> (r: Rules)
        ensures
            r.members() == self.members(),
            r.default_view() == Some(default@),
    {
        let mut s = self;
        s.default_value = Some(default);
        s
    }

    /// The default, if one is set.
    pub fn default_value(&self) -> (r: Option<&Value>)
        ensures
            match r {
                Some(d) => self.default_view() == Some(d@),
                None => self.default_view() is None,
            },
    {
        match &self.default_value {
            Some(d) => Some(d),
            None => None,
        }
    }

    /// Runs the chain: on the default if the value is null and a default is set, else on the
    /// value; stops at the first member that refuses it and reports that member's failure.
    pub fn validate(&self, value: &Value) -> (r: ValidationResult)
        ensures
            chain_reports(*self, substituted(*self, value@), 0, crate::error::failure_of(r)),
        decreases self,
    {
        let x: &Value = if value.is_null() && self.default_value.is_some() {
            match &self.default_value {
                Some(d) => d,
                None => value,
            }
        } else {
            value
        };
        let ghost sx = substituted(*self, value@);
        assert(x@ == sx);
        let mut i: usize = 0;
        while i < self.validators.len()
            invariant
                i <= self.validators.len(),
                x@ == sx,
                sx == substituted(*self, value@),
                forall|f: Option<Failure>|
                    chain_reports(*self, sx, i as int, f) ==> chain_reports(*self, sx, 0, f),
            decreases self.validators.len() - i,
        {
            proof {
                assert(decreases_to!(*self => self.validators));
            }
            let r = self.validators[i].validate(x);
            assert(self.members()[i as int] == self.validators@[i as int]);
            if r.is_err() {
                assert(chain_reports(*self, sx, i as int, crate::error::failure_of(r)));
                return r;
            }
            assert forall|f: Option<Failure>|
                chain_reports(*self, sx, i + 1, f) implies chain_reports(*self, sx, 0, f) by {
                assert(chain_reports(*self, sx, i as int, f));
            }
            i += 1;
        }
        assert(chain_reports(*self, sx, i as int, None));
        Ok(())
    }
}

impl From<Rules> for Validator {
    fn from(r: Rules) -> Self {
        Validator::Rules(r)
    }
}

impl vstd::std_specs::convert::FromSpecImpl<Rules> for Validator {
    open spec fn obeys_from_spec() -> bool {
        true
    }

    open spec fn from_spec(r: Rules) -> Validator {
        Validator::Rules(r)
    }
}

/// Makers of the built-in validators.
pub struct Rule;

impl Rule {
    /// Refuses null, accepts anything else.
    pub fn required() -> (r: Validator)
        ensures
            r is Required,
    {
        Validator::Required
    }

    /// Accepts strings (and null).
    pub fn string() -> (r: Validator)
        ensures
            r == Validator::Type(Kind::String),
    {
        Validator::Type(Kind::String)
    }

    /// Accepts arrays (and null).
    pub fn array() -> (r: Validator)
        ensures
            r == Validator::Type(Kind::Array),
    {
        Validator::Type(Kind::Array)
    }

    /// Accepts objects (and null).
    pub fn object() -> (r: Validator)
        ensures
            r == Validator::Type(Kind::Object),
    {
        Validator::Type(Kind::Object)
    }

    /// Accepts booleans (and null).
    pub fn boolean() -> (r: Validator)
        ensures
            r == Validator::Type(Kind::Boolean),
    {
        Validator::Type(Kind::Boolean)
    }

    /// Accepts numbers written as decimals (and null).
    pub fn float() -> (r: Validator)
        ensures
            r == Validator::Type(Kind::Float),
    {
        Validator::Type(Kind::Float)
    }

    /// Accepts integers that fit in `i64` (and null).
    pub fn integer() -> (r: Validator)
        ensures
            r == Validator::Type(Kind::Integer),
    {
        Validator::Type(Kind::Integer)
    }

    /// Accepts strings (by UTF-8 bytes), arrays and objects of exactly `len`.
    pub fn length(len: usize) -> (r: Validator)
        ensures
            r == Validator::Size(SizeBound::Exactly, len),
    {
        Validator::Size(SizeBound::Exactly, len)
    }

    /// Accepts strings, arrays and objects of at least `min`.
    pub fn min_length(min: usize) -> (r: Validator)
        ensures
            r == Validator::Size(SizeBound::AtLeast, min),
    {
        Validator::Size(SizeBound::AtLeast, min)
    }

    /// Accepts strings, arrays and objects of at most `max`.
    pub fn max_length(max: usize) -> (r: Validator)
        ensures
            r == Validator::Size(SizeBound::AtMost, max),
    {
        Validator::Size(SizeBound::AtMost, max)
    }

    /// Accepts values alike to `value`.
    pub fn equal(value: Value) -> (r: Validator)
        ensures
            r is Equal && r->Equal_0@ == value@,
    {
        Validator::Equal(value)
    }

    /// Accepts numbers not below `min`.
    pub fn min_value(min: Number) -> (r: Validator)
        ensures
            r == Validator::MinValue(min),
    {
        Validator::MinValue(min)
    }

    /// Accepts numbers not above `max`.
    pub fn max_value(max: Number) -> (r: Validator)
        ensures
            r == Validator::MaxValue(max),
    {
        Validator::MaxValue(max)
    }

    /// Accepts strings that read as a floating-point number.
    pub fn numeric() -> (r: Validator)
        ensures
            r is Numeric,
    {
        Validator::Numeric
    }

    /// Accepts `true`, the integer 1, and the strings "yes", "on", "1", "true" in any case.
    pub fn accepted() -> (r: Validator)
        ensures
            r is Accepted,
    {
        Validator::Accepted
    }

    /// Accepts e-mail addresses, from the given domains only if a list is given.
    pub fn email(allowed_domains: Option<Vec<String>>) -> (r: Validator)
        ensures
            r is Email,
            (r->Email_0 is Some) == (allowed_domains is Some),
            allowed_domains is Some ==> crate::error::texts(r->Email_0->0@) == crate::error::texts(
                allowed_domains->0@,
            ),
    {
        Validator::Email(allowed_domains)
    }

    /// Accepts values alike to one of `values`.
    pub fn in_values(values: Vec<Value>) -> (r: Validator)
        ensures
            r is In && crate::error::views(r->In_0@) == crate::error::views(values@),
    {
        Validator::In(values)
    }

    /// Accepts values alike to none of `values`.
    pub fn not_in_values(values: Vec<Value>) -> (r: Validator)
        ensures
            r is NotIn && crate::error::views(r->NotIn_0@) == crate::error::views(values@),
    {
        Validator::NotIn(values)
    }

    /// Accepts strings in which `pattern` matches; fails if the pattern does not compile.
    /// A refusal reports `message` when given, else the string.
    pub fn regex(pattern: &str, message: Option<String>) -> (r: Result<Validator, regex::Error>)
        ensures
            r is Ok <==> crate::pattern::regex_compiles(pattern@),
            r is Ok ==> r->Ok_0 is Regex && r->Ok_0->Regex_0.source() == pattern@
                && r->Ok_0->Regex_1 == message,
    {
        match Pattern::new(pattern) {
            Ok(p) => Ok(Validator::Regex(p, message)),
            Err(e) => Err(e),
        }
    }

    /// Accepts strings that hold a web address.
    pub fn url() -> (r: Validator)
        ensures
            r is Url,
    {
        Validator::Url
    }

    /// Accepts dotted-quad IPv4 addresses.
    pub fn ip() -> (r: Validator)
        ensures
            r is Ip,
    {
        Validator::Ip
    }

    /// Accepts file names whose extension is one of `allowed`.
    pub fn extensions(allowed: Vec<String>) -> (r: Validator)
        ensures
            r is Extensions,
            crate::error::texts(r->Extensions_0@).to_set() == crate::error::texts(allowed@).to_set(),
            crate::error::texts(r->Extensions_0@).no_duplicates(),
    {
        Validator::Extensions(distinct_texts(allowed))
    }

    /// A caller-written check.
    pub fn custom<C: Check + 'static>(check: C) -> (r: Validator)
        ensures
            r is Custom,
    {
        Validator::Custom(Box::new(check))
    }

    /// The uniqueness check against the stored `collection`, leaving out the record
    /// `exclude`, if given.
    pub fn unique(collection: &str, field: &str, exclude: Option<mongodb::bson::oid::ObjectId>) -> (r: Validator)
        ensures
            r is Unique,
            r->Unique_0.collection@ == collection@,
            r->Unique_0.field@ == field@,
            r->Unique_0.exclude == exclude,
    {
        Validator::Unique(UniqueValidator::new(collection, field, exclude))
    }
}

impl UniqueValidator {
    pub fn new(collection: &str, field: &str, exclude: Option<mongodb::bson::oid::ObjectId>) -> (r: UniqueValidator)
        ensures
            r.collection@ == collection@,
            r.field@ == field@,
            r.exclude == exclude,
    {
        UniqueValidator {
            collection: String::from_str(collection),
            field: String::from_str(field),
            exclude,
        }
    }
}

/// A question for the store: how many records of `collection` hold `value` under `field`,
/// leaving out the record `exclude`, if given.
pub struct UniqueQuery {
    pub collection: String,
    pub field: String,
    pub value: Value,
    pub exclude: Option<mongodb::bson::oid::ObjectId>,
}

/// Values the store can be asked about: strings, decimals, and integers that fit in `i64`.
pub open spec fn is_lookup_key(x: Json) -> bool {
    match x {
        Json::Str(_) => true,
        Json::Number(n) => n is Float || i64::MIN <= crate::number::mantissa_of(n) <= i64::MAX,
        _ => false,
    }
}

/// Whether running `v` on `x` asynchronously asks the store.
pub open spec fn needs_lookup(v: Validator, x: Json) -> bool {
    v is Unique && is_lookup_key(x)
}

/// What the uniqueness check reports for the store's answer: a failure when some record
/// matched, a generic failure when the store failed.
pub open spec fn unique_verdict(answer: Result<u64, mongodb::error::Error>) -> Option<Failure> {
    match answer {
        Ok(count) => if count > 0 {
            Some(Failure::Unique)
        } else {
            None
        },
        Err(_) => Some(Failure::Custom("database error"@)),
    }
}

/// Whether `v` may report `f` asynchronously on `x` when the store is not asked: every
/// validator but the uniqueness check reports as it does synchronously.
pub open spec fn async_reports(v: Validator, x: Json, f: Option<Failure>) -> bool {
    match v {
        Validator::Unique(_) => f == if x is Null {
            None
        } else {
            Some(Failure::Type("string or number"@, x))
        },
        _ => reports(v, x, f),
    }
}

impl Validator {
    /// The question to put to the store before this validator can judge `value`, if any.
    pub fn lookup(&self, value: &Value) -> (r: Option<UniqueQuery>)
        ensures
            r is Some <==> needs_lookup(*self, value@),
            r is Some ==> {
                let q = r->0;
                &&& q.value@ == value@
                &&& q.collection@ == self->Unique_0.collection@
                &&& q.field@ == self->Unique_0.field@
                &&& q.exclude == self->Unique_0.exclude
            },
    {
        match self {
            Validator::Unique(u) => {
                let key = match value {
                    Value::String(_) => true,
                    Value::Number(n) => n.is_f64() || n.is_i64(),
                    _ => false,
                };
                if key {
                    Some(
                        UniqueQuery {
                            collection: u.collection.clone(),
                            field: u.field.clone(),
                            value: value.duplicate(),
                            exclude: u.exclude,
                        },
                    )
                } else {
                    None
                }
            },
            _ => None,
        }
    }

    /// Runs the validator asynchronously on a value the store need not be asked about.
    pub fn validate_async_local(&self, value: &Value) -> (r: ValidationResult)
        requires
            !needs_lookup(*self, value@),
        ensures
            async_reports(*self, value@, crate::error::failure_of(r)),
    {
        match self {
            Validator::Unique(_) => if value.is_null() {
                Ok(())
            } else {
                Err(
                    ValidationError::TypeError {
                        expected: String::from_str("string or number"),
                        got: value.duplicate(),
                    },
                )
            },
            _ => self.validate(value),
        }
    }
}

/// The uniqueness check's result for the store's answer.
pub fn judge_unique(answer: &Result<u64, mongodb::error::Error>) -> (r: ValidationResult)
    ensures
        crate::error::failure_of(r) == unique_verdict(*answer),
{
    match answer {
        Ok(count) => if *count > 0 {
            Err(ValidationError::UniqueError)
        } else {
            Ok(())
        },
        Err(_) => Err(ValidationError::Custom(String::from_str("database error"))),
    }
}

/// The strings of `xs`, each kept at its first occurrence only.
fn distinct_texts(xs: Vec<String>) -> (r: Vec<String>)
    ensures
        crate::error::texts(r@).to_set() == crate::error::texts(xs@).to_set(),
        crate::error::texts(r@).no_duplicates(),
{
    let mut out: Vec<String> = Vec::new();
    let mut i: usize = 0;
    while i < xs.len()
        invariant
            i <= xs.len(),
            crate::error::texts(out@).to_set() == crate::error::texts(xs@.subrange(0, i as int)).to_set(),
            crate::error::texts(out@).no_duplicates(),
        decreases xs.len() - i,
    {
        let ghost before = crate::error::texts(out@);
        let ghost prefix = crate::error::texts(xs@.subrange(0, i as int));
        assert(crate::error::texts(xs@.subrange(0, i + 1)) =~= prefix.push(xs@[i as int]@));
        proof {
            prefix.lemma_push_to_set_commute(xs@[i as int]@);
            before.lemma_push_to_set_commute(xs@[i as int]@);
        }
        if !checks::contains_text(&out, xs[i].as_str()) {
            out.push(xs[i].clone());
            assert(crate::error::texts(out@) =~= before.push(xs@[i as int]@));
        } else {
            assert(before.to_set().contains(xs@[i as int]@));
            assert(before.to_set().insert(xs@[i as int]@) =~= before.to_set());
        }
        i += 1;
    }
    assert(xs@.subrange(0, xs@.len() as int) =~= xs@);
    out
}

} // verus!
