//! What `checkout` does.

use vstd::prelude::*;

use super::args::{settled, Arguments};
use crate::app_context::AppContext;
use crate::domain::adapters::{Git, Prompter, Store};
use crate::domain::commands::checkout;
use crate::domain::commands::checkout::{checked_out, failure};
use crate::domain::commands::Checkout;
use crate::domain::errors::Errors;
use crate::entry::Interactive;
use crate::domain::models::BranchView;

verus! {

/// What a checkout with `args` does: git has the branch checked out and
/// the table of branches holds its record, with the values given or asked
/// for; or else it fails, by a question or as a checkout fails, and leaves
/// the table as it was.
pub open spec fn outcome<G: Git, P: Prompter>(
    git: &G,
    prompt: &P,
    interactive: Interactive,
    before: Seq<BranchView>,
    after: Seq<BranchView>,
    args: Arguments,
    done: Result<(), Errors>,
) -> bool {
    match done {
        Ok(()) => exists|domain: Checkout|
            settled(prompt, interactive, args, Ok(domain)) && #[trigger] checked_out(
                git,
                before,
                after,
                domain,
            ),
        Err(error) => {
            &&& after == before
            &&& match error {
                Errors::UserInput(inner) => settled(prompt, interactive, args, Err(inner)),
                _ => exists|domain: Checkout|
                    settled(prompt, interactive, args, Ok(domain)) && #[trigger] failure(
                        git,
                        domain,
                        error,
                    ),
            }
        },
    }
}

/// Completes the arguments, by asking where that is allowed, and has the
/// branch checked out and its record stored. A failed question is a
/// failure of the user's input. Whatever fails, the store is as it was.
pub fn handler<G: Git, S: Store, P: Prompter>(
    context: &mut AppContext<G, S>,
    args: Arguments,
    prompt: &P,
) -> (done: Result<(), Errors>)
    ensures
        outcome(
            &old(context).git,
            prompt,
            old(context).interactive,
            old(context).store.branches(),
            final(context).store.branches(),
            args,
            done,
        ),
        final(context).store.configs() == old(context).store.configs(),
        final(context).git == old(context).git,
        final(context).config == old(context).config,
        final(context).interactive == old(context).interactive,
{
    let domain = match args.try_into_domain(prompt, &context.interactive) {
        Ok(domain) => domain,
        Err(error) => {
            return Err(Errors::UserInput(error));
        },
    };
    let ghost asked = domain;
    match checkout::handler(&context.git, &mut context.store, domain) {
        Ok(_) => {
            assert(checked_out(
                &old(context).git,
                old(context).store.branches(),
                context.store.branches(),
                asked,
            ));
            Ok(())
        },
        Err(error) => {
            assert(failure(&old(context).git, asked, error));
            Err(error)
        },
    }
}

} // verus!
