//! Questions to the user.

use vstd::prelude::*;

use crate::domain::errors::UserInputError;

verus! {

/// One of the choices that a selection offers.
#[derive(Debug, Clone, PartialEq, Eq)]
pub struct SelectItem<T> {
    pub name: String,
    pub value: T,
    pub description: Option<String>,
}

/// The interactive prompt.
pub trait Prompter {
    /// Asks for a line of text under the heading `name`. No answer is an
    /// answer too.
    fn text(&self, name: &str, default: Option<String>) -> Result<Option<String>, UserInputError>;

    /// Asks the user to pick one of `options` under the heading `name`.
    /// What is picked is one of the options.
    fn select<T>(&self, name: &str, options: Vec<SelectItem<T>>) -> (picked: Result<
        SelectItem<T>,
        UserInputError,
    >)
        ensures
            picked matches Ok(item) ==> options@.contains(item),
    ;
}

/// The prompt, asked for a line of text under `heading` with nothing to
/// fall back on, came back with `answer`.
pub open spec fn answers<P: Prompter>(
    prompt: &P,
    heading: Seq<char>,
    answer: Result<Option<String>, UserInputError>,
) -> bool {
    exists|question: &str| #[trigger]
        call_ensures(P::text, (prompt, question, None::<String>), answer) && question@
            == heading
}

/// `field` is the value given, or else the prompt's answer under
/// `heading`.
pub open spec fn filled<P: Prompter>(
    prompt: &P,
    heading: Seq<char>,
    given: Option<String>,
    field: Option<String>,
) -> bool {
    match given {
        Some(_) => field == given,
        None => answers(prompt, heading, Ok(field)),
    }
}

/// No value was given, and the prompt, asked under `heading`, failed with
/// `error`.
pub open spec fn unanswered<P: Prompter>(
    prompt: &P,
    heading: Seq<char>,
    given: Option<String>,
    error: UserInputError,
) -> bool {
    given is None && answers(prompt, heading, Err(error))
}

/// What becomes of ticket, scope and link where the user may be asked:
/// each is the value given, or else the prompt's answer under "Ticket:",
/// "Scope:" or "Link:". They are asked for in this order, and the first
/// question that fails is the failure of the whole.
pub open spec fn completed<P: Prompter>(
    prompt: &P,
    ticket: Option<String>,
    scope: Option<String>,
    link: Option<String>,
    got: Result<(Option<String>, Option<String>, Option<String>), UserInputError>,
) -> bool {
    match got {
        Ok((got_ticket, got_scope, got_link)) => {
            &&& filled(prompt, "Ticket:"@, ticket, got_ticket)
            &&& filled(prompt, "Scope:"@, scope, got_scope)
            &&& filled(prompt, "Link:"@, link, got_link)
        },
        Err(error) => {
            ||| unanswered(prompt, "Ticket:"@, ticket, error)
            ||| {
                &&& exists|got_ticket: Option<String>|
                    filled(prompt, "Ticket:"@, ticket, got_ticket)
                &&& unanswered(prompt, "Scope:"@, scope, error)
            }
            ||| {
                &&& exists|got_ticket: Option<String>|
                    filled(prompt, "Ticket:"@, ticket, got_ticket)
                &&& exists|got_scope: Option<String>| filled(prompt, "Scope:"@, scope, got_scope)
                &&& unanswered(prompt, "Link:"@, link, error)
            }
        },
    }
}

} // verus!
