//! How an operation talks to the script engine.
//!
//! An operation is a function from the replies it has had so far to its next step: a script to
//! evaluate, whose reply is then added to the others, or its result.

use vstd::prelude::*;

use crate::error::{Error, ErrorView};

verus! {

/// What an operation does next.
#[derive(Debug)]
pub enum Step<T> {
    /// Evaluate a script in the page and come back with its reply.
    Evaluate(String),
    /// The operation is over.
    Finish(T),
}

impl<T> Step<T> {
    /// The step is to evaluate `script`.
    pub open spec fn asks(self, script: Seq<char>) -> bool {
        match self {
            Step::Evaluate(s) => s@ == script,
            Step::Finish(_) => false,
        }
    }
}

impl<T> Step<Result<T, Error>> {
    /// The operation is over and has failed with `error`.
    pub open spec fn fails(self, error: ErrorView) -> bool {
        match self {
            Step::Finish(Err(e)) => e@ == error,
            _ => false,
        }
    }
}

/// A step asks for the script that it holds and for no other, and a step that asks is no failure.
pub proof fn steps_ask_for_their_script<T>(
    step: Step<Result<T, Error>>,
    script: Seq<char>,
    error: ErrorView,
)
    ensures
        step.asks(script) <==> step is Evaluate && step->Evaluate_0@ == script,
        step.fails(error) <==> step is Finish && step->Finish_0 is Err && step->Finish_0->Err_0@
            == error,
        !(step.asks(script) && step.fails(error)),
{
}

} // verus!
