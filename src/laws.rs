//! Properties that hold of every validator and every validation.
use vstd::prelude::*;
use crate::error::Failure;
use crate::form::{FieldErrors, FormValidator, ValidatedData};
use crate::rules::Validator;
use crate::value::Json;

verus! {

/// Every built-in check accepts null, except `required`, which refuses exactly null.
/// (Caller-written checks and chains report what their members make them.)
pub proof fn law_null_passes_builtins(v: Validator, x: Json, f: Option<Failure>)
    requires
        !(v is Custom),
        !(v is Rules),
        crate::rules::reports(v, x, f),
    ensures
        v is Required ==> (f is Some <==> x is Null),
        !(v is Required) && x is Null ==> f is None,
{
}

/// A chain without a default whose members all accept null accepts null.
pub proof fn law_chain_passes_null(v: Validator, f: Option<Failure>)
    requires
        v is Rules,
        v->Rules_0.default_view() is None,
        forall|i: int, g: Option<Failure>|
            0 <= i < v->Rules_0.members().len() && #[trigger] crate::rules::reports(
                v->Rules_0.members()[i],
                Json::Null,
                g,
            ) ==> g is None,
        crate::rules::reports(v, Json::Null, f),
    ensures
        f is None,
{
    lemma_chain_null(v->Rules_0, 0, f);
}

proof fn lemma_chain_null(r: crate::rules::Rules, i: int, f: Option<Failure>)
    requires
        0 <= i,
        forall|k: int, g: Option<Failure>|
            0 <= k < r.members().len() && #[trigger] crate::rules::reports(
                r.members()[k],
                Json::Null,
                g,
            ) ==> g is None,
        crate::rules::chain_reports(r, Json::Null, i, f),
    ensures
        f is None,
    decreases r.members().len() - i,
{
    if i < r.members().len() {
        if crate::rules::reports(r.members()[i], Json::Null, None) && crate::rules::chain_reports(
            r,
            Json::Null,
            i + 1,
            f,
        ) {
            lemma_chain_null(r, i + 1, f);
        } else {
            assert(crate::rules::reports(r.members()[i], Json::Null, f));
        }
    }
}

/// A validator other than the uniqueness check never asks the store, and may report
/// asynchronously exactly what it may report synchronously, whatever the store.
pub proof fn law_async_parity(v: Validator, x: Json, f: Option<Failure>)
    requires
        !(v is Unique),
    ensures
        !crate::rules::needs_lookup(v, x),
        crate::rules::async_reports(v, x, f) == crate::rules::reports(v, x, f),
{
}

/// When no uniqueness check is registered directly on a field, whatever the store answers,
/// a finished asynchronous validation gives a result that the synchronous validation may
/// give.
pub proof fn law_form_async_parity(fv: FormValidator, data: Json, fails: Seq<Option<Failure>>)
    requires
        crate::form::fits_all(fv, data, fails),
        forall|i: int| 0 <= i < fv.names().len() ==> !(#[trigger] fv.validators()[i] is Unique),
    ensures
        fv.may_give(data, crate::form::settle(fv.names(), fv.inputs(data), fails, fv.stops_on_error())),
{
    assert forall|i: int| 0 <= i < fails.len() implies crate::rules::reports(
        fv.validators()[i],
        fv.inputs(data)[i],
        #[trigger] fails[i],
    ) by {
        assert(crate::form::fits(fv.validators()[i], fv.inputs(data)[i], fails[i]));
    }
    assert(crate::form::fits_all_sync(fv, data, fails));
}

/// Whether no caller-written check occurs among a validator's fields.
pub open spec fn all_builtin(fv: FormValidator) -> bool {
    forall|i: int| 0 <= i < fv.names().len() ==> crate::rules::is_builtin(#[trigger] fv.validators()[i])
}

/// Validation keeps no state between calls: for a validator without caller-written checks,
/// two validations of the same document give the same result.
pub proof fn law_validate_repeatable(
    fv: FormValidator,
    data: Json,
    first: Result<ValidatedData, FieldErrors>,
    second: Result<ValidatedData, FieldErrors>,
)
    requires
        all_builtin(fv),
        fv.may_give(data, crate::form::result_view(first)),
        fv.may_give(data, crate::form::result_view(second)),
    ensures
        crate::form::result_view(first) == crate::form::result_view(second),
{
    let f1 = choose|f: Seq<Option<Failure>>|
        crate::form::fits_all_sync(fv, data, f) && crate::form::result_view(first) == #[trigger] crate::form::settle(
            fv.names(),
            fv.inputs(data),
            f,
            fv.stops_on_error(),
        );
    let f2 = choose|f: Seq<Option<Failure>>|
        crate::form::fits_all_sync(fv, data, f) && crate::form::result_view(second) == #[trigger] crate::form::settle(
            fv.names(),
            fv.inputs(data),
            f,
            fv.stops_on_error(),
        );
    if f1.len() <= f2.len() {
        lemma_same_settle(fv, data, f1, f2);
    } else {
        lemma_same_settle(fv, data, f2, f1);
    }
}

proof fn lemma_same_settle(fv: FormValidator, data: Json, f1: Seq<Option<Failure>>, f2: Seq<Option<Failure>>)
    requires
        all_builtin(fv),
        crate::form::fits_all_sync(fv, data, f1),
        crate::form::fits_all_sync(fv, data, f2),
        f1.len() <= f2.len(),
    ensures
        crate::form::settle(fv.names(), fv.inputs(data), f1, fv.stops_on_error())
            == crate::form::settle(fv.names(), fv.inputs(data), f2, fv.stops_on_error()),
{
    let names = fv.names();
    let inputs = fv.inputs(data);
    let brk = fv.stops_on_error();
    let n = names.len() as int;
    {
        let m = f1.len() as int;
        assert forall|i: int| 0 <= i < m implies f1[i] == f2[i] by {
            assert(crate::rules::is_builtin(fv.validators()[i]));
            crate::rules::lemma_reports_unique(fv.validators()[i], inputs[i], f1[i], f2[i]);
        }
        crate::form::lemma_gather_prefix(names, inputs, f1, f2, brk, m);
        if m < n {
            crate::form::lemma_gather_stopped(names, inputs, f1, brk, m, n);
            crate::form::lemma_gather_stopped(names, inputs, f2, brk, m, n);
        }
    }
}

} // verus!
