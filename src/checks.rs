//! The built-in checks. Each one accepts null: whether a value must be present is the
//! concern of `required` alone.
use vstd::prelude::*;
use vstd::string::*;
use crate::error::{Failure, ValidationError, ValidationResult};
use crate::number::Number;
use crate::pattern::Pattern;
use crate::text;
use crate::value::{Json, Value};

verus! {

broadcast use vstd::std_specs::vec::group_vec_axioms;

/// The failure of a value whose kind does not suit the check.
pub open spec fn type_failure(expected: Seq<char>, x: Json) -> Option<Failure> {
    Some(Failure::Type(expected, x))
}

pub open spec fn required_outcome(x: Json) -> Option<Failure> {
    if x is Null {
        Some(Failure::Required)
    } else {
        None
    }
}

/// The kinds that the type checks accept.
pub enum Kind {
    String,
    Array,
    Object,
    Boolean,
    Float,
    Integer,
}

pub open spec fn kind_name(k: Kind) -> Seq<char> {
    match k {
        Kind::String => "string"@,
        Kind::Array => "array"@,
        Kind::Object => "object"@,
        Kind::Boolean => "bool"@,
        Kind::Float => "float"@,
        Kind::Integer => "int"@,
    }
}

pub open spec fn has_kind(k: Kind, x: Json) -> bool {
    match k {
        Kind::String => x is Str,
        Kind::Array => x is Array,
        Kind::Object => x is Object,
        Kind::Boolean => x is Bool,
        Kind::Float => x is Number && x->Number_0 is Float,
        Kind::Integer => x is Number && !(x->Number_0 is Float) && i64::MIN
            <= crate::number::mantissa_of(x->Number_0) <= i64::MAX,
    }
}

pub open spec fn kind_outcome(k: Kind, x: Json) -> Option<Failure> {
    if x is Null || has_kind(k, x) {
        None
    } else {
        type_failure(kind_name(k), x)
    }
}

/// Which bound a length check puts on a size.
pub enum SizeBound {
    Exactly,
    AtLeast,
    AtMost,
}

pub open spec fn size_outcome(b: SizeBound, n: nat, x: Json) -> Option<Failure> {
    if x is Null {
        None
    } else {
        match crate::value::json_size(x) {
            None => type_failure("string, array, or object"@, x),
            Some(len) => match b {
                SizeBound::Exactly => if len == n {
                    None
                } else {
                    Some(Failure::Length(n, len))
                },
                SizeBound::AtLeast => if len >= n {
                    None
                } else {
                    Some(Failure::MinLength(n, len))
                },
                SizeBound::AtMost => if len <= n {
                    None
                } else {
                    Some(Failure::MaxLength(n, len))
                },
            },
        }
    }
}

pub open spec fn equal_outcome(expected: Json, x: Json) -> Option<Failure> {
    if x is Null || x == expected {
        None
    } else {
        Some(Failure::Equal(expected, x))
    }
}

pub open spec fn min_value_outcome(min: Number, x: Json) -> Option<Failure> {
    match x {
        Json::Null => None,
        Json::Number(n) => if crate::number::num_le(min, n) {
            None
        } else {
            Some(Failure::MinValue(min, n))
        },
        _ => type_failure("number"@, x),
    }
}

pub open spec fn max_value_outcome(max: Number, x: Json) -> Option<Failure> {
    match x {
        Json::Null => None,
        Json::Number(n) => if crate::number::num_le(n, max) {
            None
        } else {
            Some(Failure::MaxValue(max, n))
        },
        _ => type_failure("number"@, x),
    }
}

pub open spec fn in_outcome(allowed: Seq<Json>, x: Json) -> Option<Failure> {
    if x is Null || allowed.contains(x) {
        None
    } else {
        Some(Failure::In(allowed))
    }
}

pub open spec fn not_in_outcome(excluded: Seq<Json>, x: Json) -> Option<Failure> {
    if x is Null || !excluded.contains(x) {
        None
    } else {
        Some(Failure::NotIn(excluded))
    }
}

/// `s` without a leading `+` or `-`.
pub open spec fn unsigned(s: Seq<char>) -> Seq<char> {
    if s.len() > 0 && (s[0] == '+' || s[0] == '-') {
        s.subrange(1, s.len() as int)
    } else {
        s
    }
}

pub open spec fn is_exp_mark(c: char) -> bool {
    c == 'e' || c == 'E'
}

/// `i` is the first position of an exponent mark in `s`.
pub open spec fn is_first_mark(s: Seq<char>, i: int) -> bool {
    &&& 0 <= i < s.len()
    &&& is_exp_mark(s[i])
    &&& forall|k: int| 0 <= k < i ==> !is_exp_mark(s[k])
}

/// Digits with at most one decimal point, and at least one digit.
pub open spec fn is_mantissa(m: Seq<char>) -> bool {
    &&& forall|i: int| 0 <= i < m.len() ==> text::is_digit(#[trigger] m[i]) || m[i] == '.'
    &&& text::count_of(m, '.') <= 1
    &&& exists|i: int| 0 <= i < m.len() && text::is_digit(#[trigger] m[i])
}

/// An optional sign, then digits.
pub open spec fn is_exponent(e: Seq<char>) -> bool {
    unsigned(e).len() > 0 && text::all_digits(unsigned(e))
}

/// The strings that Rust's `f64::from_str` accepts: a sign, then `inf`, `infinity` or `nan`
/// in any case, or a decimal number with an optional exponent.
pub open spec fn is_float_literal(s: Seq<char>) -> bool {
    let t = unsigned(s);
    ||| text::spells(t, "inf"@)
    ||| text::spells(t, "infinity"@)
    ||| text::spells(t, "nan"@)
    ||| (exists|k: int| is_first_mark(t, k)) && ({
        let k = choose|k: int| is_first_mark(t, k);
        is_mantissa(t.subrange(0, k)) && is_exponent(t.subrange(k + 1, t.len() as int))
    })
    ||| !(exists|k: int| is_first_mark(t, k)) && is_mantissa(t)
}

pub open spec fn numeric_outcome(x: Json) -> Option<Failure> {
    if x is Null || (x is Str && is_float_literal(x->Str_0)) {
        None
    } else {
        Some(Failure::Numeric(x))
    }
}

/// What `str::to_lowercase` returns for a string.
pub uninterp spec fn lower_of(s: Seq<char>) -> Seq<char>;

/// Relies on `str::to_lowercase`: the lower-case form of a string, which depends on its
/// characters alone.
#[verifier::external_body]
fn lowercase(s: &str) -> (r: String)
    ensures
        r@ == lower_of(s@),
{
    s.to_lowercase()
}

pub open spec fn is_accepted_word(w: Seq<char>) -> bool {
    w == "yes"@ || w == "on"@ || w == "1"@ || w == "true"@
}

pub open spec fn accepted_outcome(x: Json) -> Option<Failure> {
    match x {
        Json::Null => None,
        Json::Str(s) => if is_accepted_word(lower_of(s)) {
            None
        } else {
            Some(Failure::Accepted(x))
        },
        Json::Bool(b) => if b {
            None
        } else {
            Some(Failure::Accepted(x))
        },
        Json::Number(n) => if !(n is Float) && crate::number::mantissa_of(n) == 1 {
            None
        } else {
            Some(Failure::Accepted(x))
        },
        _ => type_failure("string, bool, or number"@, x),
    }
}

/// The segment of `s` that starts at `from` and ends before the next `.` (or at the end).
pub open spec fn segment_after(s: Seq<char>, from: int) -> Seq<char> {
    let rest = s.subrange(from, s.len() as int);
    let d = text::index_of(rest, '.');
    if d < 0 {
        rest
    } else {
        rest.subrange(0, d)
    }
}

/// The checks of an address, in order: one `@`; a `.` in the domain; a second domain label
/// of two bytes or more; the domain among the allowed ones, if a list is given; a local part
/// of three bytes or more.
pub open spec fn email_outcome(allowed: Option<Seq<Seq<char>>>, x: Json) -> Option<Failure> {
    match x {
        Json::Null => None,
        Json::Str(s) => {
            let at = text::index_of(s, '@');
            let name = s.subrange(0, at);
            let domain = s.subrange(at + 1, s.len() as int);
            let dot = text::index_of(domain, '.');
            if text::count_of(s, '@') != 1 {
                Some(Failure::Email(s))
            } else if dot < 0 {
                Some(Failure::Email(s))
            } else if text::byte_len(segment_after(domain, dot + 1)) < 2 {
                Some(Failure::Email(s))
            } else if allowed is Some && !allowed->0.contains(domain) {
                Some(Failure::EmailDomain(domain))
            } else if text::byte_len(name) < 3 {
                Some(Failure::Email(s))
            } else {
                None
            }
        },
        _ => type_failure("string"@, x),
    }
}

pub open spec fn regex_outcome(source: Seq<char>, message: Option<Seq<char>>, x: Json) -> Option<
    Failure,
> {
    match x {
        Json::Null => None,
        Json::Str(s) => if crate::pattern::regex_finds(source, s) {
            None
        } else {
            Some(
                Failure::Regex(
                    match message {
                        Some(m) => m,
                        None => s,
                    },
                ),
            )
        },
        _ => type_failure("string"@, x),
    }
}

/// The pattern that web addresses are matched against.
pub const URL_PATTERN: &'static str = r#"(?i)\b((?:https?://|www\d{0,3}[.]|[a-z0-9.\-]+[.][a-z]{2,4}/)(?:[^\s()<>]+|\(([^\s()<>]+|(\([^\s()<>]+\)))*\))+(?:\(([^\s()<>]+|(\([^\s()<>]+\)))*\)|[^\s`!()\[\]{};:'\".,<>?«»“”‘’]))"#;

pub open spec fn url_outcome(x: Json) -> Option<Failure> {
    match x {
        Json::Null => None,
        Json::Str(s) => if crate::pattern::regex_compiles(URL_PATTERN@)
            && crate::pattern::regex_finds(URL_PATTERN@, s) {
            None
        } else {
            Some(Failure::Url(s))
        },
        _ => type_failure("string"@, x),
    }
}

/// One to three ASCII digits writing a number up to 255.
pub open spec fn is_octet(t: Seq<char>) -> bool {
    1 <= t.len() <= 3 && text::all_digits(t) && text::digits_value(t) <= 255
}

/// Four octets separated by dots, and nothing else.
pub open spec fn is_ipv4(s: Seq<char>) -> bool {
    let d1 = text::index_of(s, '.');
    let r1 = s.subrange(d1 + 1, s.len() as int);
    let d2 = text::index_of(r1, '.');
    let r2 = r1.subrange(d2 + 1, r1.len() as int);
    let d3 = text::index_of(r2, '.');
    let r3 = r2.subrange(d3 + 1, r2.len() as int);
    &&& d1 >= 0 && d2 >= 0 && d3 >= 0
    &&& text::index_of(r3, '.') < 0
    &&& is_octet(s.subrange(0, d1))
    &&& is_octet(r1.subrange(0, d2))
    &&& is_octet(r2.subrange(0, d3))
    &&& is_octet(r3)
}

pub open spec fn ip_outcome(x: Json) -> Option<Failure> {
    match x {
        Json::Null => None,
        Json::Str(s) => if is_ipv4(s) {
            None
        } else {
            Some(Failure::Ip(s))
        },
        _ => type_failure("string"@, x),
    }
}

/// The extension of a file name: what follows its last dot, or the whole name.
pub open spec fn extension_of(s: Seq<char>) -> Seq<char> {
    let k = text::last_index_of(s, '.');
    if k < 0 {
        s
    } else {
        s.subrange(k + 1, s.len() as int)
    }
}

pub open spec fn extension_outcome(allowed: Seq<Seq<char>>, x: Json) -> Option<Failure> {
    match x {
        Json::Null => None,
        Json::Str(s) => if allowed.contains(extension_of(s)) {
            None
        } else {
            Some(Failure::Extension(allowed))
        },
        _ => type_failure("string"@, x),
    }
}

/// The synchronous form of the uniqueness check, which cannot consult the store: it
/// refuses every present value.
pub open spec fn unique_sync_outcome(x: Json) -> Option<Failure> {
    if x is Null {
        None
    } else {
        Some(Failure::Custom("Async validation required"@))
    }
}

// ---- The checks themselves ----

fn type_error(expected: &str, got: &Value) -> (r: ValidationError)
    ensures
        r@ == Failure::Type(expected@, got@),
{
    ValidationError::TypeError { expected: String::from_str(expected), got: got.duplicate() }
}

pub fn check_required(x: &Value) -> (r: ValidationResult)
    ensures
        crate::error::failure_of(r) == required_outcome(x@),
{
    if x.is_null() {
        Err(ValidationError::Required)
    } else {
        Ok(())
    }
}

pub fn check_kind(k: &Kind, x: &Value) -> (r: ValidationResult)
    ensures
        crate::error::failure_of(r) == kind_outcome(*k, x@),
{
    let ok = match (k, x) {
        (_, Value::Null) => true,
        (Kind::String, Value::String(_)) => true,
        (Kind::Array, Value::Array(_)) => true,
        (Kind::Object, Value::Object(_)) => true,
        (Kind::Boolean, Value::Bool(_)) => true,
        (Kind::Float, Value::Number(n)) => n.is_f64(),
        (Kind::Integer, Value::Number(n)) => n.is_i64(),
        _ => false,
    };
    if ok {
        Ok(())
    } else {
        let name = match k {
            Kind::String => "string",
            Kind::Array => "array",
            Kind::Object => "object",
            Kind::Boolean => "bool",
            Kind::Float => "float",
            Kind::Integer => "int",
        };
        Err(type_error(name, x))
    }
}

pub fn check_size(b: &SizeBound, n: usize, x: &Value) -> (r: ValidationResult)
    ensures
        crate::error::failure_of(r) == size_outcome(*b, n as nat, x@),
{
    if x.is_null() {
        return Ok(());
    }
    match x.size() {
        None => Err(type_error("string, array, or object", x)),
        Some(len) => match b {
            SizeBound::Exactly => if len == n {
                Ok(())
            } else {
                Err(ValidationError::LengthError { expected: n, got: len })
            },
            SizeBound::AtLeast => if len >= n {
                Ok(())
            } else {
                Err(ValidationError::MinLengthError { expected: n, got: len })
            },
            SizeBound::AtMost => if len <= n {
                Ok(())
            } else {
                Err(ValidationError::MaxLengthError { expected: n, got: len })
            },
        },
    }
}

pub fn check_equal(expected: &Value, x: &Value) -> (r: ValidationResult)
    ensures
        crate::error::failure_of(r) == equal_outcome(expected@, x@),
{
    if x.is_null() || x.equals(expected) {
        Ok(())
    } else {
        Err(ValidationError::EqualError { expected: expected.duplicate(), got: x.duplicate() })
    }
}

pub fn check_min_value(min: Number, x: &Value) -> (r: ValidationResult)
    ensures
        crate::error::failure_of(r) == min_value_outcome(min, x@),
{
    match x {
        Value::Null => Ok(()),
        Value::Number(n) => if min.le(n) {
            Ok(())
        } else {
            Err(ValidationError::MinValueError { expected: min, got: *n })
        },
        _ => Err(type_error("number", x)),
    }
}

pub fn check_max_value(max: Number, x: &Value) -> (r: ValidationResult)
    ensures
        crate::error::failure_of(r) == max_value_outcome(max, x@),
{
    match x {
        Value::Null => Ok(()),
        Value::Number(n) => if n.le(&max) {
            Ok(())
        } else {
            Err(ValidationError::MaxValueError { expected: max, got: *n })
        },
        _ => Err(type_error("number", x)),
    }
}

/// Copies of a list of nodes.
pub fn duplicate_all(xs: &Vec<Value>) -> (r: Vec<Value>)
    ensures
        crate::error::views(r@) == crate::error::views(xs@),
{
    let mut out: Vec<Value> = Vec::new();
    let mut i: usize = 0;
    while i < xs.len()
        invariant
            i <= xs.len(),
            out@.len() == i,
            forall|j: int| 0 <= j < i ==> #[trigger] out@[j]@ == xs@[j]@,
        decreases xs.len() - i,
    {
        out.push(xs[i].duplicate());
        i += 1;
    }
    assert(crate::error::views(out@) =~= crate::error::views(xs@));
    out
}

/// Whether `x` is alike to some node of `xs`.
pub fn contains_value(xs: &Vec<Value>, x: &Value) -> (r: bool)
    ensures
        r == crate::error::views(xs@).contains(x@),
{
    let mut i: usize = 0;
    while i < xs.len()
        invariant
            i <= xs.len(),
            forall|j: int| 0 <= j < i ==> #[trigger] xs@[j]@ != x@,
        decreases xs.len() - i,
    {
        if xs[i].equals(x) {
            assert(crate::error::views(xs@)[i as int] == x@);
            return true;
        }
        i += 1;
    }
    assert(!crate::error::views(xs@).contains(x@)) by {
        if crate::error::views(xs@).contains(x@) {
            let j = choose|j: int|
                0 <= j < crate::error::views(xs@).len() && crate::error::views(xs@)[j] == x@;
            assert(xs@[j]@ == x@);
        }
    }
    false
}

pub fn check_in(allowed: &Vec<Value>, x: &Value) -> (r: ValidationResult)
    ensures
        crate::error::failure_of(r) == in_outcome(crate::error::views(allowed@), x@),
{
    if x.is_null() || contains_value(allowed, x) {
        Ok(())
    } else {
        Err(ValidationError::InError(duplicate_all(allowed)))
    }
}

pub fn check_not_in(excluded: &Vec<Value>, x: &Value) -> (r: ValidationResult)
    ensures
        crate::error::failure_of(r) == not_in_outcome(crate::error::views(excluded@), x@),
{
    if x.is_null() || !contains_value(excluded, x) {
        Ok(())
    } else {
        Err(ValidationError::NotInError(duplicate_all(excluded)))
    }
}

/// `s` without a leading sign.
fn strip_sign(s: &str) -> (r: &str)
    ensures
        r@ == unsigned(s@),
{
    let n = s.unicode_len();
    if n > 0 && (s.get_char(0) == '+' || s.get_char(0) == '-') {
        s.substring_char(1, n)
    } else {
        s
    }
}

fn mantissa_ok(m: &str) -> (r: bool)
    ensures
        r == is_mantissa(m@),
{
    let n = m.unicode_len();
    let mut i: usize = 0;
    let mut digit_seen = false;
    while i < n
        invariant
            n == m@.len(),
            i <= n,
            forall|k: int| 0 <= k < i ==> text::is_digit(#[trigger] m@[k]) || m@[k] == '.',
            digit_seen == exists|k: int| 0 <= k < i && text::is_digit(#[trigger] m@[k]),
        decreases n - i,
    {
        let ch = m.get_char(i);
        if '0' <= ch && ch <= '9' {
            digit_seen = true;
        } else if ch != '.' {
            return false;
        }
        i += 1;
    }
    digit_seen && text::count(m, '.') <= 1
}

fn exponent_ok(e: &str) -> (r: bool)
    ensures
        r == is_exponent(e@),
{
    text::is_digit_run(strip_sign(e))
}

/// Whether Rust's `f64::from_str` accepts the text (see `is_float_literal`).
pub fn float_literal(s: &str) -> (r: bool)
    ensures
        r == is_float_literal(s@),
{
    let t = strip_sign(s);
    if text::spells_word(t, "inf") || text::spells_word(t, "infinity") || text::spells_word(t, "nan") {
        return true;
    }
    let n = t.unicode_len();
    let mut k: usize = 0;
    while k < n
        invariant
            n == t@.len(),
            k <= n,
            t@ == unsigned(s@),
            !text::spells(t@, "inf"@),
            !text::spells(t@, "infinity"@),
            !text::spells(t@, "nan"@),
            forall|j: int| 0 <= j < k ==> !is_exp_mark(#[trigger] t@[j]),
        decreases n - k,
    {
        let ch = t.get_char(k);
        if ch == 'e' || ch == 'E' {
            assert(is_first_mark(t@, k as int));
            let ok = mantissa_ok(t.substring_char(0, k)) && exponent_ok(t.substring_char(k + 1, n));
            proof {
                let c = choose|c: int| is_first_mark(t@, c);
                assert(c == k);
            }
            return ok;
        }
        k += 1;
    }
    assert(!exists|c: int| is_first_mark(t@, c));
    mantissa_ok(t)
}

pub fn check_numeric(x: &Value) -> (r: ValidationResult)
    ensures
        crate::error::failure_of(r) == numeric_outcome(x@),
{
    match x {
        Value::Null => Ok(()),
        Value::String(s) => if float_literal(s.as_str()) {
            Ok(())
        } else {
            Err(ValidationError::NumericError(x.duplicate()))
        },
        _ => Err(ValidationError::NumericError(x.duplicate())),
    }
}

pub fn check_accepted(x: &Value) -> (r: ValidationResult)
    ensures
        crate::error::failure_of(r) == accepted_outcome(x@),
{
    let ok = match x {
        Value::Null => true,
        Value::String(s) => {
            let low = lowercase(s.as_str());
            let w = low.as_str();
            crate::value::same_text(w, "yes") || crate::value::same_text(w, "on")
                || crate::value::same_text(w, "1") || crate::value::same_text(w, "true")
        },
        Value::Bool(b) => *b,
        Value::Number(n) => match n {
            Number::Int(i) => *i == 1,
            Number::UInt(u) => *u == 1,
            Number::Float(_) => false,
        },
        _ => {
            return Err(type_error("string, bool, or number", x));
        },
    };
    if ok {
        Ok(())
    } else {
        Err(ValidationError::AcceptedError(x.duplicate()))
    }
}

/// Whether some string of `xs` holds the characters of `t`.
pub fn contains_text(xs: &Vec<String>, t: &str) -> (r: bool)
    ensures
        r == crate::error::texts(xs@).contains(t@),
{
    let mut i: usize = 0;
    while i < xs.len()
        invariant
            i <= xs.len(),
            forall|j: int| 0 <= j < i ==> #[trigger] xs@[j]@ != t@,
        decreases xs.len() - i,
    {
        if crate::value::same_text(xs[i].as_str(), t) {
            assert(crate::error::texts(xs@)[i as int] == t@);
            return true;
        }
        i += 1;
    }
    assert(!crate::error::texts(xs@).contains(t@)) by {
        if crate::error::texts(xs@).contains(t@) {
            let j = choose|j: int|
                0 <= j < crate::error::texts(xs@).len() && crate::error::texts(xs@)[j] == t@;
            assert(xs@[j]@ == t@);
        }
    }
    false
}

/// Copies of a list of strings.
pub fn copy_texts(xs: &Vec<String>) -> (r: Vec<String>)
    ensures
        crate::error::texts(r@) == crate::error::texts(xs@),
{
    let mut out: Vec<String> = Vec::new();
    let mut i: usize = 0;
    while i < xs.len()
        invariant
            i <= xs.len(),
            out@.len() == i,
            forall|j: int| 0 <= j < i ==> #[trigger] out@[j]@ == xs@[j]@,
        decreases xs.len() - i,
    {
        out.push(xs[i].clone());
        i += 1;
    }
    assert(crate::error::texts(out@) =~= crate::error::texts(xs@));
    out
}

/// The segment of `s` from `from` to the next dot or the end.
fn segment(s: &str, from: usize) -> (r: &str)
    requires
        from <= s@.len(),
    ensures
        r@ == segment_after(s@, from as int),
{
    let rest = s.substring_char(from, s.unicode_len());
    match text::find(rest, '.') {
        Some(d) => rest.substring_char(0, d),
        None => rest,
    }
}

pub fn check_email(allowed: &Option<Vec<String>>, x: &Value) -> (r: ValidationResult)
    ensures
        crate::error::failure_of(r) == email_outcome(
            match allowed {
                Some(v) => Some(crate::error::texts(v@)),
                None => None,
            },
            x@,
        ),
{
    let s = match x {
        Value::Null => {
            return Ok(());
        },
        Value::String(s) => s,
        _ => {
            return Err(type_error("string", x));
        },
    };
    let t = s.as_str();
    let n = t.unicode_len();
    if text::count(t, '@') != 1 {
        return Err(ValidationError::EmailError(s.clone()));
    }
    let at = match text::find(t, '@') {
        Some(at) => at,
        None => {
            proof {
                text::lemma_count_absent(t@, '@');
            }
            return Err(ValidationError::EmailError(s.clone()));
        },
    };
    let name = t.substring_char(0, at);
    let domain = t.substring_char(at + 1, n);
    let dot = match text::find(domain, '.') {
        Some(d) => d,
        None => {
            return Err(ValidationError::EmailError(s.clone()));
        },
    };
    if text::utf8_len(segment(domain, dot + 1)) < 2 {
        return Err(ValidationError::EmailError(s.clone()));
    }
    match allowed {
        Some(list) => {
            if !contains_text(list, domain) {
                return Err(ValidationError::EmailDomainError(String::from_str(domain)));
            }
        },
        None => {},
    }
    if text::utf8_len(name) < 3 {
        return Err(ValidationError::EmailError(s.clone()));
    }
    Ok(())
}

pub fn check_regex(p: &Pattern, message: &Option<String>, x: &Value) -> (r: ValidationResult)
    ensures
        crate::error::failure_of(r) == regex_outcome(
            p.source(),
            match message {
                Some(m) => Some(m@),
                None => None,
            },
            x@,
        ),
{
    match x {
        Value::Null => Ok(()),
        Value::String(s) => if p.is_match(s.as_str()) {
            Ok(())
        } else {
            match message {
                Some(m) => Err(ValidationError::RegexError(m.clone())),
                None => Err(ValidationError::RegexError(s.clone())),
            }
        },
        _ => Err(type_error("string", x)),
    }
}

pub fn check_url(x: &Value) -> (r: ValidationResult)
    ensures
        crate::error::failure_of(r) == url_outcome(x@),
{
    match x {
        Value::Null => Ok(()),
        Value::String(s) => match Pattern::new(URL_PATTERN) {
            Ok(p) => if p.is_match(s.as_str()) {
                Ok(())
            } else {
                Err(ValidationError::UrlError(s.clone()))
            },
            Err(_) => Err(ValidationError::UrlError(s.clone())),
        },
        _ => Err(type_error("string", x)),
    }
}

/// Whether `t` is one to three ASCII digits writing at most 255.
fn octet_ok(t: &str) -> (r: bool)
    ensures
        r == is_octet(t@),
{
    let n = t.unicode_len();
    if n < 1 || n > 3 || !text::is_digit_run(t) {
        return false;
    }
    let mut v: u32 = 0;
    let mut i: usize = 0;
    while i < n
        invariant
            n == t@.len(),
            1 <= n <= 3,
            i <= n,
            text::all_digits(t@),
            v == text::digits_value(t@.subrange(0, i as int)),
            v < crate::number::pow10(i as nat),
        decreases n - i,
    {
        let ch = t.get_char(i);
        assert(text::is_digit(t@[i as int]));
        assert(t@.subrange(0, i + 1).drop_last() =~= t@.subrange(0, i as int));
        proof {
            assert(crate::number::pow10((i + 1) as nat) == 10 * crate::number::pow10(i as nat));
            assert(crate::number::pow10(0) == 1);
            assert(crate::number::pow10(1) == 10);
            assert(crate::number::pow10(2) == 100);
            crate::number::lemma_pow10_mono(i as nat, 2);
        }
        v = v * 10 + ((ch as u32) - ('0' as u32));
        i += 1;
    }
    assert(t@.subrange(0, n as int) =~= t@);
    v <= 255
}

/// Whether `s` is a dotted-quad IPv4 address (see `is_ipv4`).
pub fn ipv4(s: &str) -> (r: bool)
    ensures
        r == is_ipv4(s@),
{
    let n = s.unicode_len();
    let d1 = match text::find(s, '.') {
        Some(d) => d,
        None => {
            return false;
        },
    };
    let r1 = s.substring_char(d1 + 1, n);
    let d2 = match text::find(r1, '.') {
        Some(d) => d,
        None => {
            return false;
        },
    };
    let r2 = r1.substring_char(d2 + 1, r1.unicode_len());
    let d3 = match text::find(r2, '.') {
        Some(d) => d,
        None => {
            return false;
        },
    };
    let r3 = r2.substring_char(d3 + 1, r2.unicode_len());
    if text::find(r3, '.').is_some() {
        return false;
    }
    octet_ok(s.substring_char(0, d1)) && octet_ok(r1.substring_char(0, d2)) && octet_ok(
        r2.substring_char(0, d3),
    ) && octet_ok(r3)
}

pub fn check_ip(x: &Value) -> (r: ValidationResult)
    ensures
        crate::error::failure_of(r) == ip_outcome(x@),
{
    match x {
        Value::Null => Ok(()),
        Value::String(s) => if ipv4(s.as_str()) {
            Ok(())
        } else {
            Err(ValidationError::IpError(s.clone()))
        },
        _ => Err(type_error("string", x)),
    }
}

pub fn check_extension(allowed: &Vec<String>, x: &Value) -> (r: ValidationResult)
    ensures
        crate::error::failure_of(r) == extension_outcome(crate::error::texts(allowed@), x@),
{
    match x {
        Value::Null => Ok(()),
        Value::String(s) => {
            let t = s.as_str();
            let n = t.unicode_len();
            let ext = match text::rfind(t, '.') {
                Some(k) => t.substring_char(k + 1, n),
                None => t,
            };
            if contains_text(allowed, ext) {
                Ok(())
            } else {
                Err(ValidationError::ExtensionError(copy_texts(allowed)))
            }
        },
        _ => Err(type_error("string", x)),
    }
}

pub fn check_unique_sync(x: &Value) -> (r: ValidationResult)
    ensures
        crate::error::failure_of(r) == unique_sync_outcome(x@),
{
    if x.is_null() {
        Ok(())
    } else {
        Err(ValidationError::Custom(String::from_str("Async validation required")))
    }
}

} // verus!
