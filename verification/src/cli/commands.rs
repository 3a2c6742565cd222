//! The commands of the tool.

use vstd::prelude::*;

use crate::app_context::AppContext;
use crate::cli::{checkout, commit, context};
use crate::domain::adapters::{Git, Prompter, Store};
use crate::domain::errors::Errors;

verus! {

/// One of the commands on branches and commits, with its arguments.
#[derive(Debug, Clone, PartialEq, Eq)]
pub enum Command {
    /// Commit staged changes with a message made from a template.
    Commit(commit::Arguments),
    /// Check out an existing branch or make a new one, and store what it
    /// is for.
    Checkout(checkout::Arguments),
    /// Store what the current branch is for.
    Context(context::Arguments),
}

impl Command {
    /// Carries the command out. A commit leaves the store as it is; the
    /// other two write one record of a branch, or none where they fail.
    /// The configurations are never touched.
    pub fn execute<G: Git, S: Store, P: Prompter>(
        self,
        context: &mut AppContext<G, S>,
        prompt: &P,
    ) -> (done: Result<(), Errors>)
        ensures
            match self {
                Command::Commit(args) => {
                    &&& commit::handler::outcome(
                        &old(context).git,
                        &old(context).store,
                        prompt,
                        old(context).config,
                        old(context).interactive,
                        args,
                        done,
                    )
                    &&& final(context).store.branches() == old(context).store.branches()
                },
                Command::Checkout(args) => checkout::handler::outcome(
                    &old(context).git,
                    prompt,
                    old(context).interactive,
                    old(context).store.branches(),
                    final(context).store.branches(),
                    args,
                    done,
                ),
                Command::Context(args) => context::handler::outcome(
                    &old(context).git,
                    prompt,
                    old(context).interactive,
                    old(context).store.branches(),
                    final(context).store.branches(),
                    args,
                    done,
                ),
            },
            final(context).store.configs() == old(context).store.configs(),
    {
        match self {
            Command::Commit(args) => commit::handler(&*context, args, prompt),
            Command::Checkout(args) => checkout::handler(context, args, prompt),
            Command::Context(args) => context::handler(context, args, prompt),
        }
    }
}

} // verus!
