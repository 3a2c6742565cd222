//! What `checkout` takes.

use vstd::prelude::*;

use crate::domain::adapters::prompt::completed;
use crate::domain::adapters::Prompter;
use crate::domain::commands::Checkout;
use crate::domain::errors::UserInputError;
use crate::domain::models::copy_text;
use crate::entry::Interactive;
use crate::utils::or_else_try::or_else_try;

verus! {

/// The arguments of `checkout`.
#[derive(Debug, Clone, PartialEq, Eq)]
pub struct Arguments {
    /// Name of the branch to check out or to make.
    pub name: String,
    /// Ticket that the branch is about.
    pub ticket: Option<String>,
    /// The part of the code that the changes touch.
    pub scope: Option<String>,
    /// Link to the ticket.
    pub link: Option<String>,
}

/// `domain` is `args` with, at most, values where `args` has none.
pub open spec fn completes(domain: Checkout, args: Arguments) -> bool {
    &&& domain.name == args.name
    &&& args.ticket is Some ==> domain.ticket == args.ticket
    &&& args.scope is Some ==> domain.scope == args.scope
    &&& args.link is Some ==> domain.link == args.link
}

/// Ticket, scope and link of what came out, or the failure.
pub open spec fn asked(domain: Result<Checkout, UserInputError>) -> Result<
    (Option<String>, Option<String>, Option<String>),
    UserInputError,
> {
    match domain {
        Ok(made) => Ok((made.ticket, made.scope, made.link)),
        Err(error) => Err(error),
    }
}

/// What the arguments come to. Where the user may not be asked, they
/// stand as they are. Where the user may be asked, what was not given is
/// what the prompt answered, and a question that failed is the failure.
pub open spec fn settled<P: Prompter>(
    prompt: &P,
    interactive: Interactive,
    args: Arguments,
    domain: Result<Checkout, UserInputError>,
) -> bool {
    match interactive {
        Interactive::Disable => domain == Ok::<Checkout, UserInputError>(
            Checkout {
                name: args.name,
                ticket: args.ticket,
                scope: args.scope,
                link: args.link,
            },
        ),
        Interactive::Enable => {
            &&& completed(prompt, args.ticket, args.scope, args.link, asked(domain))
            &&& domain matches Ok(made) ==> completes(made, args)
        },
    }
}

impl Arguments {
    /// What is to be checked out. Where the user may be asked, each of
    /// ticket, scope and link that was not given is asked for, in this
    /// order, and the first failed question fails the whole. Where the
    /// user may not be asked, the arguments stand as they are.
    pub fn try_into_domain<P: Prompter>(&self, prompt: &P, interactive: &Interactive) -> (domain:
        Result<Checkout, UserInputError>)
        ensures
            *interactive == Interactive::Disable ==> domain == Ok::<Checkout, UserInputError>(
                Checkout {
                    name: self.name,
                    ticket: self.ticket,
                    scope: self.scope,
                    link: self.link,
                },
            ),
            self.ticket is Some && self.scope is Some && self.link is Some ==> domain is Ok,
            domain matches Ok(checkout) ==> completes(checkout, *self),
            *interactive == Interactive::Enable ==> completed(
                prompt,
                self.ticket,
                self.scope,
                self.link,
                asked(domain),
            ),
            settled(prompt, *interactive, *self, domain),
    {
        match interactive {
            Interactive::Enable => {
                let ticket = match or_else_try(&self.ticket, prompt, "Ticket:") {
                    Ok(value) => value,
                    Err(error) => {
                        return Err(error);
                    },
                };
                let scope = match or_else_try(&self.scope, prompt, "Scope:") {
                    Ok(value) => value,
                    Err(error) => {
                        return Err(error);
                    },
                };
                let link = match or_else_try(&self.link, prompt, "Link:") {
                    Ok(value) => value,
                    Err(error) => {
                        return Err(error);
                    },
                };
                Ok(Checkout { name: self.name.clone(), ticket, scope, link })
            },
            Interactive::Disable => Ok(
                Checkout {
                    name: self.name.clone(),
                    ticket: copy_text(&self.ticket),
                    scope: copy_text(&self.scope),
                    link: copy_text(&self.link),
                },
            ),
        }
    }
}

} // verus!
