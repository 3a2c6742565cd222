//! What `commit` does.

use vstd::prelude::*;

use super::args::{settled, Arguments};
use crate::app_context::AppContext;
use crate::config::AppConfig;
use crate::domain::adapters::{Git, Prompter, Store};
use crate::domain::commands::{commit, CommitArgs};
use crate::domain::errors::Errors;
use crate::entry::Interactive;

verus! {

/// What a commit with `args` comes to. Arguments that cannot be settled
/// fail as they do: a template that is unknown, or missing where the
/// user may not be asked, or a selection that failed. Else the commit is
/// what `commit::outcome` describes for the settled arguments.
pub open spec fn outcome<G: Git, S: Store, P: Prompter>(
    git: &G,
    store: &S,
    prompter: &P,
    config: AppConfig,
    interactive: Interactive,
    args: Arguments,
    done: Result<(), Errors>,
) -> bool {
    match done {
        Ok(()) => exists|asked: CommitArgs, contents: String|
            {
                &&& settled(prompter, config, interactive, args, Ok(asked))
                &&& #[trigger] commit::outcome(git, config@, store, asked, Ok(contents))
            },
        Err(error) => {
            ||| error matches Errors::UserInput(inner) && settled(
                prompter,
                config,
                interactive,
                args,
                Err(inner),
            )
            ||| exists|asked: CommitArgs|
                {
                    &&& settled(prompter, config, interactive, args, Ok(asked))
                    &&& #[trigger] commit::outcome(git, config@, store, asked, Err(error))
                }
        },
    }
}

/// Settles the template, by asking where that is allowed, and commits
/// with the message made from it. A template that is missing or unknown
/// is a failure of the user's input, and then git is not asked anything.
pub fn handler<G: Git, S: Store, P: Prompter>(
    context: &AppContext<G, S>,
    args: Arguments,
    prompter: &P,
) -> (done: Result<(), Errors>)
    ensures
        outcome(
            &context.git,
            &context.store,
            prompter,
            context.config,
            context.interactive,
            args,
            done,
        ),
{
    let commit = match args.try_into_domain(&context.config, prompter, &context.interactive) {
        Ok(commit) => commit,
        Err(error) => {
            return Err(Errors::UserInput(error));
        },
    };
    let ghost asked = commit;
    match commit::handler(&context.git, &context.store, &context.config, commit) {
        Ok(contents) => {
            assert(commit::outcome(
                &context.git,
                context.config@,
                &context.store,
                asked,
                Ok(contents),
            ));
            Ok(())
        },
        Err(error) => {
            assert(commit::outcome(
                &context.git,
                context.config@,
                &context.store,
                asked,
                Err(error),
            ));
            Err(error)
        },
    }
}

} // verus!
