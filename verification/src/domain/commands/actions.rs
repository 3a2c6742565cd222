//! The commands, carried out on the collaborators of a context.

use vstd::prelude::*;

use crate::app_context::AppContext;
use crate::config::AppConfig;
use crate::domain::adapters::{Git, Store};
use crate::domain::commands::actor::Actor;
use crate::domain::commands::checkout::{checked_out, failure};
use crate::domain::commands::context::noted;
use crate::domain::commands::{checkout, commit, context, Checkout, CommitArgs, Context};
use crate::domain::errors::Errors;
use crate::domain::keyed::upsert;
use crate::domain::models::Branch;

verus! {

/// The commands on one context.
pub struct Actions<'a, C: Git, S: Store> {
    context: &'a mut AppContext<C, S>,
}

impl<'a, C: Git, S: Store> Actions<'a, C, S> {
    /// The store that the commands work on.
    pub closed spec fn store(&self) -> S {
        self.context.store
    }

    /// The git that the commands work with.
    pub closed spec fn git(&self) -> C {
        self.context.git
    }

    /// The templates that commits are made from.
    pub closed spec fn config(&self) -> AppConfig {
        self.context.config
    }

    /// The commands on `context`.
    pub fn new(context: &'a mut AppContext<C, S>) -> (actions: Actions<'a, C, S>)
        ensures
            actions.store() == old(context).store,
            actions.git() == old(context).git,
            actions.config() == old(context).config,
    {
        Actions { context }
    }
}

impl<'a, C: Git, S: Store> Actor for Actions<'a, C, S> {
    /// Stores the record of the current branch with the values given, as
    /// `context::handler` does on the context's git and store.
    fn context(&mut self, args: Context) -> (done: Result<Branch, Errors>)
        ensures
            match done {
                Ok(branch) => {
                    &&& final(self).store().branches() == upsert(
                        old(self).store().branches(),
                        branch@,
                    )
                    &&& noted(
                        &old(self).git(),
                        old(self).store().branches(),
                        final(self).store().branches(),
                        args,
                    )
                },
                Err(error) => {
                    &&& final(self).store().branches() == old(self).store().branches()
                    &&& context::failure(&old(self).git(), error)
                },
            },
            final(self).store().configs() == old(self).store().configs(),
            final(self).config() == old(self).config(),
            final(self).git() == old(self).git(),
    {
        context::handler(&self.context.git, &mut self.context.store, args)
    }

    /// Checks the branch out and stores its record, as
    /// `checkout::handler` does on the context's git and store.
    fn checkout(&mut self, args: Checkout) -> (done: Result<Branch, Errors>)
        ensures
            match done {
                Ok(branch) => {
                    &&& final(self).store().branches() == upsert(
                        old(self).store().branches(),
                        branch@,
                    )
                    &&& checked_out(
                        &old(self).git(),
                        old(self).store().branches(),
                        final(self).store().branches(),
                        args,
                    )
                },
                Err(error) => {
                    &&& final(self).store().branches() == old(self).store().branches()
                    &&& failure(&old(self).git(), args, error)
                },
            },
            final(self).store().configs() == old(self).store().configs(),
            final(self).config() == old(self).config(),
            final(self).git() == old(self).git(),
    {
        checkout::handler(&self.context.git, &mut self.context.store, args)
    }

    /// Commits with the message made from the template that `args`
    /// names, as `commit::handler` does on the context's git, store and
    /// templates. The store is left as it is.
    fn commit(&mut self, args: CommitArgs) -> (done: Result<String, Errors>)
        ensures
            final(self).store() == old(self).store(),
            final(self).config() == old(self).config(),
            commit::outcome(
                &old(self).git(),
                old(self).config()@,
                &old(self).store(),
                args,
                done,
            ),
            final(self).git() == old(self).git(),
    {
        commit::handler(&self.context.git, &self.context.store, &self.context.config, args)
    }
}

} // verus!
