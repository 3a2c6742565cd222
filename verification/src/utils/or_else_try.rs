//! A value that is asked for only where it is missing.

use vstd::prelude::*;

use crate::domain::adapters::prompt::filled;
use crate::domain::adapters::Prompter;
use crate::domain::errors::UserInputError;
use crate::domain::models::copy_text;

verus! {

/// The value given, or else what the prompt came back with when it was
/// asked `question` with nothing to fall back on: an answer, no answer,
/// or a failure. The question is asked only where no value is given.
pub fn or_else_try<P: Prompter>(given: &Option<String>, prompt: &P, question: &str) -> (value:
    Result<Option<String>, UserInputError>)
    ensures
        given is Some ==> value == Ok::<Option<String>, UserInputError>(*given),
        given is None ==> call_ensures(P::text, (prompt, question, None::<String>), value),
        value matches Ok(field) ==> filled(prompt, question@, *given, field),
{
    match given {
        Some(_) => Ok(copy_text(given)),
        None => prompt.text(question, None),
    }
}

} // verus!
