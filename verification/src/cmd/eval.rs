//! The on-demand evaluation entry point: parse a condition, evaluate it
//! against the usage store, and map the outcome to a process exit code.
use vstd::prelude::*;
use crate::db;
use crate::db::Db;
use crate::expressions::check_condition;
use crate::expressions::parser::parse_condition;
use crate::expressions::parser::spec_parse_condition;

verus! {

/// Why an on-demand evaluation failed.
#[derive(Debug)]
pub enum EvalFailure {
    /// The condition text is not of the grammar; the field holds the
    /// diagnostic.
    Parse(String),
    /// The usage store could not be read.
    Ledger(db::Error),
}

/// Parse `condition_str` and evaluate it for `app_id` against the store at
/// the current local time. Fails with `Parse` exactly when the text is not
/// of the condition grammar, and with `Ledger` when the store fails.
pub fn eval_outcome(condition_str: &str, store: &Db, app_id: &str) -> (r: Result<
    bool,
    EvalFailure,
>)
    ensures
        (r matches Err(f) && f is Parse) == (spec_parse_condition(condition_str@) is None),
{
    match parse_condition(condition_str) {
        Err(msg) => Err(EvalFailure::Parse(msg)),
        Ok(condition) => match check_condition(&condition, store, app_id) {
            Ok(b) => Ok(b),
            Err(e) => Err(EvalFailure::Ledger(e)),
        },
    }
}

/// The exit code of the evaluation entry point: `0` for a true condition,
/// `1` for a false one, `2` for malformed condition text, `3` for a store
/// failure.
pub fn exit_code(outcome: &Result<bool, EvalFailure>) -> (code: u8)
    ensures
        (outcome matches Ok(b) && b == true) ==> code == 0,
        (outcome matches Ok(b) && b == false) ==> code == 1,
        (outcome matches Err(f) && f is Parse) ==> code == 2,
        (outcome matches Err(f) && f is Ledger) ==> code == 3,
{
    match outcome {
        Ok(true) => 0,
        Ok(false) => 1,
        Err(EvalFailure::Parse(_)) => 2,
        Err(EvalFailure::Ledger(_)) => 3,
    }
}

} // verus!
