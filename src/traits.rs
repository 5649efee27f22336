//! Checks that callers write themselves.
use vstd::prelude::*;
use crate::error::ValidationResult;
use crate::value::Value;

verus! {

/// A check written by a caller, for use as a rule. Nothing is assumed of what it reports.
pub trait Check {
    fn check(&self, value: &Value) -> ValidationResult;
}

} // verus!
