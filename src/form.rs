//! Whole-document validation: each registered field path is resolved in the document,
//! given its default, validated, and the results gathered field by field.
use vstd::prelude::*;
use crate::error::{Failure, ValidationError};
use crate::rules::{UniqueQuery, Validator};
use crate::value::{Json, Value};

verus! {

broadcast use vstd::std_specs::vec::group_vec_axioms;

/// The node a dotted path leads to: one key lookup per segment, null when a key is missing
/// or a node on the way is not an object.
pub open spec fn resolve(data: Json, path: Seq<char>) -> Json
    decreases path.len(),
{
    let d = crate::text::index_of(path, '.');
    if 0 <= d < path.len() {
        resolve(
            crate::value::json_field(data, path.subrange(0, d)),
            path.subrange(d + 1, path.len() as int),
        )
    } else {
        crate::value::json_field(data, path)
    }
}

/// The value a field's validator is run on: the resolved node, or the default of a chain
/// when the node is null.
pub open spec fn field_input(v: Validator, raw: Json) -> Json {
    match v {
        Validator::Rules(r) => crate::rules::substituted(r, raw),
        _ => raw,
    }
}

/// What has been gathered after the first `k` fields: the accepted values, the failures,
/// and whether processing has stopped.
pub open spec fn gather(
    names: Seq<Seq<char>>,
    inputs: Seq<Json>,
    fails: Seq<Option<Failure>>,
    stop_on_error: bool,
    k: int,
) -> (Seq<(Seq<char>, Json)>, Seq<(Seq<char>, Seq<Failure>)>, bool)
    decreases k,
{
    if k <= 0 {
        (Seq::empty(), Seq::empty(), false)
    } else {
        let prev = gather(names, inputs, fails, stop_on_error, k - 1);
        if prev.2 {
            prev
        } else {
            match fails[k - 1] {
                None => (prev.0.push((names[k - 1], inputs[k - 1])), prev.1, false),
                Some(f) => (prev.0, prev.1.push((names[k - 1], seq![f])), stop_on_error),
            }
        }
    }
}

/// The result of a validation whose fields had `fails`: the accepted values when no field
/// failed, else the failures.
pub open spec fn settle(
    names: Seq<Seq<char>>,
    inputs: Seq<Json>,
    fails: Seq<Option<Failure>>,
    stop_on_error: bool,
) -> Result<Seq<(Seq<char>, Json)>, Seq<(Seq<char>, Seq<Failure>)>> {
    let g = gather(names, inputs, fails, stop_on_error, names.len() as int);
    if g.1.len() == 0 {
        Ok(g.0)
    } else {
        Err(g.1)
    }
}

/// Once processing has stopped, later fields change nothing.
pub proof fn lemma_gather_stopped(
    names: Seq<Seq<char>>,
    inputs: Seq<Json>,
    fails: Seq<Option<Failure>>,
    stop_on_error: bool,
    k: int,
    m: int,
)
    requires
        0 <= k <= m,
        gather(names, inputs, fails, stop_on_error, k).2,
    ensures
        gather(names, inputs, fails, stop_on_error, m) == gather(
            names,
            inputs,
            fails,
            stop_on_error,
            k,
        ),
    decreases m - k,
{
    if m > k {
        lemma_gather_stopped(names, inputs, fails, stop_on_error, k, m - 1);
    }
}

/// `i` is the first position of `x` in `s`.
pub open spec fn is_first_position<A>(s: Seq<A>, x: A, i: int) -> bool {
    &&& 0 <= i < s.len()
    &&& s[i] == x
    &&& forall|k: int| 0 <= k < i ==> s[k] != x
}

/// The first position of `x` in `s`, when it occurs there.
pub open spec fn first_position<A>(s: Seq<A>, x: A) -> int {
    choose|i: int| is_first_position(s, x, i)
}

/// The values a validation accepted, by field path, in the order of the fields.
pub struct ValidatedData {
    entries: Vec<(String, Value)>,
}

/// The failures of a validation, by field path, in the order of the fields.
pub struct FieldErrors {
    entries: Vec<(String, Vec<ValidationError>)>,
}

impl View for ValidatedData {
    type V = Seq<(Seq<char>, Json)>;

    closed spec fn view(&self) -> Seq<(Seq<char>, Json)> {
        Seq::new(self.entries@.len(), |i: int| (self.entries@[i].0@, self.entries@[i].1@))
    }
}

/// The failures of a list of errors.
pub open spec fn failures(es: Seq<ValidationError>) -> Seq<Failure> {
    Seq::new(es.len(), |i: int| es[i]@)
}

impl View for FieldErrors {
    type V = Seq<(Seq<char>, Seq<Failure>)>;

    closed spec fn view(&self) -> Seq<(Seq<char>, Seq<Failure>)> {
        Seq::new(
            self.entries@.len(),
            |i: int| (self.entries@[i].0@, failures(self.entries@[i].1@)),
        )
    }
}

impl ValidatedData {
    pub fn new() -> (r: ValidatedData)
        ensures
            r@ == Seq::<(Seq<char>, Json)>::empty(),
    {
        let r = ValidatedData { entries: Vec::new() };
        assert(r@ =~= Seq::<(Seq<char>, Json)>::empty());
        r
    }

    fn push(&mut self, name: String, value: Value)
        ensures
            final(self)@ == old(self)@.push((name@, value@)),
    {
        self.entries.push((name, value));
        assert(final(self)@ =~= old(self)@.push((name@, value@)));
    }

    /// The number of accepted fields.
    pub fn len(&self) -> (r: usize)
        ensures
            r == self@.len(),
    {
        self.entries.len()
    }

    pub fn is_empty(&self) -> (r: bool)
        ensures
            r == (self@.len() == 0),
    {
        self.entries.len() == 0
    }

    /// The accepted value of the first field named `name`.
    pub fn get(&self, name: &str) -> (r: Option<&Value>)
        ensures
            match r {
                Some(v) => exists|i: int|
                    0 <= i < self@.len() && self@[i].0 == name@ && self@[i].1 == v@ && forall|k: int|
                        0 <= k < i ==> self@[k].0 != name@,
                None => forall|k: int| 0 <= k < self@.len() ==> self@[k].0 != name@,
            },
    {
        let mut i: usize = 0;
        while i < self.entries.len()
            invariant
                i <= self.entries.len(),
                forall|k: int| 0 <= k < i ==> self@[k].0 != name@,
            decreases self.entries.len() - i,
        {
            if crate::value::same_text(self.entries[i].0.as_str(), name) {
                assert(self@[i as int].0 == name@);
                return Some(&self.entries[i].1);
            }
            i += 1;
        }
        None
    }

    /// The accepted fields, in order.
    pub fn entries(&self) -> (r: &Vec<(String, Value)>)
        ensures
            r@.len() == self@.len(),
            forall|i: int| 0 <= i < r@.len() ==> (#[trigger] r@[i]).0@ == self@[i].0 && r@[i].1@ == self@[i].1,
    {
        &self.entries
    }
}

impl FieldErrors {
    pub fn new() -> (r: FieldErrors)
        ensures
            r@ == Seq::<(Seq<char>, Seq<Failure>)>::empty(),
    {
        let r = FieldErrors { entries: Vec::new() };
        assert(r@ =~= Seq::<(Seq<char>, Seq<Failure>)>::empty());
        r
    }

    fn push_one(&mut self, name: String, error: ValidationError)
        ensures
            final(self)@ == old(self)@.push((name@, seq![error@])),
    {
        let ghost e = error@;
        let mut v: Vec<ValidationError> = Vec::new();
        v.push(error);
        assert(failures(v@) =~= seq![e]);
        self.entries.push((name, v));
        assert(final(self)@ =~= old(self)@.push((name@, seq![e])));
    }

    /// The number of fields that failed.
    pub fn len(&self) -> (r: usize)
        ensures
            r == self@.len(),
    {
        self.entries.len()
    }

    pub fn is_empty(&self) -> (r: bool)
        ensures
            r == (self@.len() == 0),
    {
        self.entries.len() == 0
    }

    /// The failures of the first field named `name`.
    pub fn get(&self, name: &str) -> (r: Option<&Vec<ValidationError>>)
        ensures
            match r {
                Some(v) => exists|i: int|
                    0 <= i < self@.len() && self@[i].0 == name@ && self@[i].1 == failures(v@)
                        && forall|k: int| 0 <= k < i ==> self@[k].0 != name@,
                None => forall|k: int| 0 <= k < self@.len() ==> self@[k].0 != name@,
            },
    {
        let mut i: usize = 0;
        while i < self.entries.len()
            invariant
                i <= self.entries.len(),
                forall|k: int| 0 <= k < i ==> self@[k].0 != name@,
            decreases self.entries.len() - i,
        {
            if crate::value::same_text(self.entries[i].0.as_str(), name) {
                assert(self@[i as int].0 == name@);
                return Some(&self.entries[i].1);
            }
            i += 1;
        }
        None
    }

    /// The failed fields, in order.
    pub fn entries(&self) -> (r: &Vec<(String, Vec<ValidationError>)>)
        ensures
            r@.len() == self@.len(),
            forall|i: int| 0 <= i < r@.len() ==> (#[trigger] r@[i]).0@ == self@[i].0 && failures(r@[i].1@) == self@[i].1,
    {
        &self.entries
    }
}

/// The view of a validation's result.
pub open spec fn result_view(r: Result<ValidatedData, FieldErrors>) -> Result<
    Seq<(Seq<char>, Json)>,
    Seq<(Seq<char>, Seq<Failure>)>,
> {
    match r {
        Ok(d) => Ok(d@),
        Err(e) => Err(e@),
    }
}

/// Validates documents field by field. Each field path has one validator; a path registered
/// again replaces its validator and keeps its place.
pub struct FormValidator {
    break_on_error: bool,
    field_validators: Vec<(String, Validator)>,
}

impl FormValidator {
    /// The registered paths, in order.
    pub closed spec fn names(&self) -> Seq<Seq<char>> {
        Seq::new(self.field_validators@.len(), |i: int| self.field_validators@[i].0@)
    }

    /// The validator of each registered path.
    pub closed spec fn validators(&self) -> Seq<Validator> {
        Seq::new(self.field_validators@.len(), |i: int| self.field_validators@[i].1)
    }

    /// Whether validation stops at the first field that fails.
    pub closed spec fn stops_on_error(&self) -> bool {
        self.break_on_error
    }

    /// The values each field's validator is run on, for a document.
    pub open spec fn inputs(&self, data: Json) -> Seq<Json> {
        Seq::new(
            self.names().len(),
            |i: int| field_input(self.validators()[i], resolve(data, self.names()[i])),
        )
    }

    /// Whether a validation of `data` may give `result`: the fields, in order, report what
    /// their validators may report on their inputs, and the reports are gathered up to the
    /// end or to where processing stopped.
    pub open spec fn may_give(
        &self,
        data: Json,
        result: Result<Seq<(Seq<char>, Json)>, Seq<(Seq<char>, Seq<Failure>)>>,
    ) -> bool {
        exists|fails: Seq<Option<Failure>>|
            fits_all_sync(*self, data, fails) && result == #[trigger] settle(
                self.names(),
                self.inputs(data),
                fails,
                self.stops_on_error(),
            )
    }

    /// A validator that records the failures of every field.
    pub fn new() -> (r: FormValidator)
        ensures
            r.names().len() == 0,
            r.validators().len() == 0,
            !r.stops_on_error(),
    {
        FormValidator { break_on_error: false, field_validators: Vec::new() }
    }

    /// A validator that stops at the first field that fails.
    pub fn break_on_first_error() -> (r: FormValidator)
        ensures
            r.names().len() == 0,
            r.validators().len() == 0,
            r.stops_on_error(),
    {
        FormValidator { break_on_error: true, field_validators: Vec::new() }
    }

    /// Registers `validator` for the path `field_name` (dots separate nested keys).
    pub fn add(self, field_name: &str, validator: Validator) -> (r: FormValidator)
        ensures
            r.stops_on_error() == self.stops_on_error(),
            self.names().contains(field_name@) ==> {
                let i = first_position(self.names(), field_name@);
                &&& r.names() == self.names()
                &&& r.validators() == self.validators().update(i, validator)
            },
            !self.names().contains(field_name@) ==> {
                &&& r.names() == self.names().push(field_name@)
                &&& r.validators() == self.validators().push(validator)
            },
    {
        let mut s = self;
        let ghost names0 = s.names();
        let ghost vals0 = s.validators();
        let mut i: usize = 0;
        while i < s.field_validators.len()
            invariant
                i <= s.field_validators.len(),
                names0 == s.names(),
                vals0 == s.validators(),
                names0 == self.names(),
                vals0 == self.validators(),
                s.stops_on_error() == self.stops_on_error(),
                forall|k: int| 0 <= k < i ==> s.names()[k] != field_name@,
            decreases s.field_validators.len() - i,
        {
            if crate::value::same_text(s.field_validators[i].0.as_str(), field_name) {
                proof {
                    assert(is_first_position(names0, field_name@, i as int));
                    let j = first_position(names0, field_name@);
                    assert(j == i);
                }
                let name = s.field_validators[i].0.clone();
                s.field_validators.set(i, (name, validator));
                assert(s.names() =~= names0);
                assert(s.validators() =~= vals0.update(i as int, validator));
                return s;
            }
            i += 1;
        }
        assert(!names0.contains(field_name@));
        s.field_validators.push((String::from_str(field_name), validator));
        assert(s.names() =~= names0.push(field_name@));
        assert(s.validators() =~= vals0.push(validator));
        s
    }

    /// Validates a document: each field in order is resolved, defaulted and validated.
    /// Returns the accepted values when no field failed, else the failures by field.
    pub fn validate(&self, form_data: &Value) -> (r: Result<ValidatedData, FieldErrors>)
        ensures
            self.may_give(form_data@, result_view(r)),
    {
        let ghost names = self.names();
        let ghost inputs = self.inputs(form_data@);
        let ghost mut fails: Seq<Option<Failure>> = Seq::empty();
        let ghost brk = self.stops_on_error();
        let mut valid = ValidatedData::new();
        let mut errors = FieldErrors::new();
        let n = self.field_validators.len();
        let mut i: usize = 0;
        let mut stopped = false;
        while i < n && !stopped
            invariant
                n == self.field_validators@.len(),
                i <= n,
                names == self.names(),
                inputs == self.inputs(form_data@),
                brk == self.stops_on_error(),
                fails.len() == i,
                forall|k: int|
                    0 <= k < i ==> crate::rules::reports(
                        self.validators()[k],
                        inputs[k],
                        #[trigger] fails[k],
                    ),
                (valid@, errors@, stopped) == gather(names, inputs, fails, brk, i as int),
            decreases n - i,
        {
            let name = &self.field_validators[i].0;
            let validator = &self.field_validators[i].1;
            let null = Value::Null;
            let raw: &Value = match resolve_path(form_data, name.as_str()) {
                Some(v) => v,
                None => &null,
            };
            let x = field_value(validator, raw);
            assert(*validator == self.validators()[i as int]);
            assert(name@ == names[i as int]);
            assert(x@ == inputs[i as int]);
            let r = validator.validate(x);
            let ghost before = fails;
            proof {
                fails = fails.push(crate::error::failure_of(r));
                lemma_gather_prefix(names, inputs, before, fails, brk, i as int);
            }
            match r {
                Ok(()) => {
                    valid.push(name.clone(), x.duplicate());
                },
                Err(e) => {
                    errors.push_one(name.clone(), e);
                    if self.break_on_error {
                        stopped = true;
                    }
                },
            }
            i += 1;
        }
        proof {
            if stopped {
                lemma_gather_stopped(names, inputs, fails, brk, i as int, n as int);
            }
            assert(fits_all_sync(*self, form_data@, fails));
        }
        let r = if errors.is_empty() {
            Ok(valid)
        } else {
            Err(errors)
        };
        assert(result_view(r) == settle(names, inputs, fails, brk));
        r
    }
}

/// Whether `fails` is what the fields of a validation may have reported, up to the end or
/// to where processing stopped.
pub open spec fn fits_all_sync(fv: FormValidator, data: Json, fails: Seq<Option<Failure>>) -> bool {
    &&& fails.len() <= fv.names().len()
    &&& forall|i: int|
        0 <= i < fails.len() ==> crate::rules::reports(
            fv.validators()[i],
            fv.inputs(data)[i],
            #[trigger] fails[i],
        )
    &&& fails.len() == fv.names().len() || gather(
        fv.names(),
        fv.inputs(data),
        fails,
        fv.stops_on_error(),
        fails.len() as int,
    ).2
}

/// Whether `f` is what a field with validator `v` and input `x` may report asynchronously:
/// the store's verdict when it is asked, else what the validator may report.
pub open spec fn fits(v: Validator, x: Json, f: Option<Failure>) -> bool {
    if crate::rules::needs_lookup(v, x) {
        exists|answer: Result<u64, mongodb::error::Error>| f == crate::rules::unique_verdict(answer)
    } else {
        crate::rules::async_reports(v, x, f)
    }
}

/// Whether `fails` is what the fields of an asynchronous validation reported, up to the
/// end or to where it stopped.
pub open spec fn fits_all(fv: FormValidator, data: Json, fails: Seq<Option<Failure>>) -> bool {
    &&& fails.len() <= fv.names().len()
    &&& forall|i: int|
        0 <= i < fails.len() ==> fits(fv.validators()[i], fv.inputs(data)[i], #[trigger] fails[i])
    &&& fails.len() == fv.names().len() || gather(
        fv.names(),
        fv.inputs(data),
        fails,
        fv.stops_on_error(),
        fails.len() as int,
    ).2
}

/// An asynchronous validation in progress. Fields are processed in order; one whose
/// validator must ask the store waits for its answer.
pub struct AsyncRun {
    next: usize,
    valid: ValidatedData,
    errors: FieldErrors,
    stopped: bool,
    waiting: bool,
    fails: Ghost<Seq<Option<Failure>>>,
}

impl AsyncRun {
    /// What the fields processed so far reported.
    pub closed spec fn reported(&self) -> Seq<Option<Failure>> {
        self.fails@
    }

    /// Whether a field waits for the store's answer.
    pub closed spec fn is_waiting(&self) -> bool {
        self.waiting
    }

    /// The run is consistent with validating `data` with `fv`.
    pub closed spec fn inv(&self, fv: FormValidator, data: Json) -> bool {
        let names = fv.names();
        let inputs = fv.inputs(data);
        &&& self.next <= names.len()
        &&& self.fails@.len() == self.next
        &&& forall|i: int|
            0 <= i < self.next ==> fits(fv.validators()[i], inputs[i], #[trigger] self.fails@[i])
        &&& (self.valid@, self.errors@, self.stopped) == gather(
            names,
            inputs,
            self.fails@,
            fv.stops_on_error(),
            self.next as int,
        )
        &&& self.waiting ==> !self.stopped && self.next < names.len() && crate::rules::needs_lookup(
            fv.validators()[self.next as int],
            inputs[self.next as int],
        )
    }

    /// Whether the run has finished: no field waits, and every field was processed or
    /// processing stopped.
    pub closed spec fn finished(&self, fv: FormValidator) -> bool {
        !self.waiting && (self.stopped || self.next == fv.names().len())
    }

    /// Whether a field waits for the store's answer.
    pub fn waiting(&self) -> (r: bool)
        ensures
            r == self.is_waiting(),
    {
        self.waiting
    }
}

/// Whether two lists of reports agree on their first `k` entries.
pub open spec fn agree_upto(f1: Seq<Option<Failure>>, f2: Seq<Option<Failure>>, k: int) -> bool {
    forall|i: int| 0 <= i < k ==> f1[i] == f2[i]
}

/// What has been gathered after `k` fields depends on the first `k` reports only.
pub proof fn lemma_gather_prefix(
    names: Seq<Seq<char>>,
    inputs: Seq<Json>,
    f1: Seq<Option<Failure>>,
    f2: Seq<Option<Failure>>,
    stop_on_error: bool,
    k: int,
)
    requires
        agree_upto(f1, f2, k),
    ensures
        gather(names, inputs, f1, stop_on_error, k) == gather(names, inputs, f2, stop_on_error, k),
    decreases k,
{
    if k > 0 {
        lemma_gather_prefix(names, inputs, f1, f2, stop_on_error, k - 1);
    }
}

impl FormValidator {
    /// Starts an asynchronous validation of `form_data`.
    pub fn start_async(&self, form_data: &Value) -> (r: AsyncRun)
        ensures
            r.inv(*self, form_data@),
            !r.is_waiting(),
            r.reported().len() == 0,
    {
        let r = AsyncRun {
            next: 0,
            valid: ValidatedData::new(),
            errors: FieldErrors::new(),
            stopped: false,
            waiting: false,
            fails: Ghost(Seq::empty()),
        };
        r
    }

    /// Processes fields until one must ask the store, and returns its question; returns
    /// `None` when the run has finished. Every field processed here reports its
    /// asynchronous outcome.
    pub fn async_next(&self, run: &mut AsyncRun, form_data: &Value) -> (q: Option<UniqueQuery>)
        requires
            old(run).inv(*self, form_data@),
            !old(run).is_waiting(),
        ensures
            final(run).inv(*self, form_data@),
            q is Some <==> final(run).is_waiting(),
            q is None ==> final(run).finished(*self),
            final(run).reported().len() >= old(run).reported().len(),
            final(run).reported().subrange(0, old(run).reported().len() as int) == old(run).reported(),
            forall|i: int|
                old(run).reported().len() <= i < final(run).reported().len() ==> crate::rules::async_reports(
                    self.validators()[i],
                    self.inputs(form_data@)[i],
                    #[trigger] final(run).reported()[i],
                ),
            q is Some ==> {
                let i = final(run).reported().len() as int;
                let v = self.validators()[i];
                &&& crate::rules::needs_lookup(v, self.inputs(form_data@)[i])
                &&& q->0.value@ == self.inputs(form_data@)[i]
                &&& q->0.collection@ == v->Unique_0.collection@
                &&& q->0.field@ == v->Unique_0.field@
                &&& q->0.exclude == v->Unique_0.exclude
            },
    {
        let ghost names = self.names();
        let ghost inputs = self.inputs(form_data@);
        let ghost brk = self.stops_on_error();
        let ghost start = run.fails@;
        let n = self.field_validators.len();
        while run.next < n && !run.stopped
            invariant
                n == self.field_validators@.len(),
                names == self.names(),
                inputs == self.inputs(form_data@),
                brk == self.stops_on_error(),
                run.inv(*self, form_data@),
                !run.waiting,
                start == old(run).fails@,
                run.fails@.len() >= start.len(),
                run.fails@.subrange(0, start.len() as int) == start,
                forall|i: int|
                    start.len() <= i < run.fails@.len() ==> crate::rules::async_reports(
                        self.validators()[i],
                        inputs[i],
                        #[trigger] run.fails@[i],
                    ),
            decreases n - run.next,
        {
            let i = run.next;
            let name = &self.field_validators[i].0;
            let validator = &self.field_validators[i].1;
            let null = Value::Null;
            let raw: &Value = match resolve_path(form_data, name.as_str()) {
                Some(v) => v,
                None => &null,
            };
            let x = field_value(validator, raw);
            assert(*validator == self.validators()[i as int]);
            assert(name@ == names[i as int]);
            assert(x@ == inputs[i as int]);
            match validator.lookup(x) {
                Some(q) => {
                    run.waiting = true;
                    return Some(q);
                },
                None => {},
            }
            let r = validator.validate_async_local(x);
            let ghost f = crate::error::failure_of(r);
            let ghost before = run.fails@;
            match r {
                Ok(()) => {
                    run.valid.push(name.clone(), x.duplicate());
                },
                Err(e) => {
                    run.errors.push_one(name.clone(), e);
                    if self.break_on_error {
                        run.stopped = true;
                    }
                },
            }
            run.fails = Ghost(before.push(f));
            proof {
                lemma_gather_prefix(names, inputs, before, run.fails@, brk, i as int);
                assert(run.fails@.subrange(0, start.len() as int) =~= start);
            }
            run.next = i + 1;
        }
        None
    }

    /// Records the store's answer for the waiting field.
    pub fn async_answer(
        &self,
        run: &mut AsyncRun,
        form_data: &Value,
        answer: Result<u64, mongodb::error::Error>,
    )
        requires
            old(run).inv(*self, form_data@),
            old(run).is_waiting(),
        ensures
            final(run).inv(*self, form_data@),
            !final(run).is_waiting(),
            final(run).reported() == old(run).reported().push(crate::rules::unique_verdict(answer)),
    {
        let ghost names = self.names();
        let ghost inputs = self.inputs(form_data@);
        let ghost brk = self.stops_on_error();
        let n = self.field_validators.len();
        let i = run.next;
        assert(i < n);
        let name = &self.field_validators[i].0;
        let validator = &self.field_validators[i].1;
        let null = Value::Null;
        let raw: &Value = match resolve_path(form_data, name.as_str()) {
            Some(v) => v,
            None => &null,
        };
        let x = field_value(validator, raw);
        assert(name@ == names[i as int]);
        assert(x@ == inputs[i as int]);
        let r = crate::rules::judge_unique(&answer);
        let ghost before = run.fails@;
        match r {
            Ok(()) => {
                run.valid.push(name.clone(), x.duplicate());
            },
            Err(e) => {
                run.errors.push_one(name.clone(), e);
                if self.break_on_error {
                    run.stopped = true;
                }
            },
        }
        run.fails = Ghost(before.push(crate::rules::unique_verdict(answer)));
        proof {
            lemma_gather_prefix(names, inputs, before, run.fails@, brk, i as int);
            assert(fits(self.validators()[i as int], inputs[i as int], run.fails@[i as int]));
        }
        run.next = i + 1;
        run.waiting = false;
    }

    /// The result of a finished run: the accepted values when no field failed, else the
    /// failures by field; gathered from what the fields reported.
    pub fn async_finish(&self, run: AsyncRun, form_data: &Value) -> (r: Result<
        ValidatedData,
        FieldErrors,
    >)
        requires
            run.inv(*self, form_data@),
            run.finished(*self),
        ensures
            fits_all(*self, form_data@, run.reported()),
            result_view(r) == settle(
                self.names(),
                self.inputs(form_data@),
                run.reported(),
                self.stops_on_error(),
            ),
    {
        proof {
            if run.stopped {
                lemma_gather_stopped(
                    self.names(),
                    self.inputs(form_data@),
                    run.fails@,
                    self.stops_on_error(),
                    run.next as int,
                    self.names().len() as int,
                );
            }
        }
        if run.errors.is_empty() {
            Ok(run.valid)
        } else {
            Err(run.errors)
        }
    }
}

/// The value a field's validator is run on (see `field_input`).
fn field_value<'a>(validator: &'a Validator, raw: &'a Value) -> (r: &'a Value)
    ensures
        r@ == field_input(*validator, raw@),
{
    match validator {
        Validator::Rules(rules) => match rules.default_value() {
            Some(d) => if raw.is_null() {
                d
            } else {
                raw
            },
            None => raw,
        },
        _ => raw,
    }
}

/// The node `path` leads to in `data` (see `resolve`); `None` stands for null.
pub fn resolve_path<'a>(data: &'a Value, path: &str) -> (r: Option<&'a Value>)
    ensures
        match r {
            Some(v) => v@ == resolve(data@, path@),
            None => resolve(data@, path@) is Null,
        },
{
    let mut cur: Option<&Value> = Some(data);
    let mut rest: &str = path;
    loop
        invariant
            resolve(data@, path@) == resolve(
                match cur {
                    Some(v) => v@,
                    None => Json::Null,
                },
                rest@,
            ),
        decreases rest@.len(),
    {
        let n = rest.unicode_len();
        match crate::text::find(rest, '.') {
            Some(d) => {
                let key = rest.substring_char(0, d);
                cur = match cur {
                    Some(v) => v.get(key),
                    None => None,
                };
                rest = rest.substring_char(d + 1, n);
            },
            None => {
                return match cur {
                    Some(v) => v.get(rest),
                    None => None,
                };
            },
        }
    }
}

} // verus!
