//! What a command works with.

use vstd::prelude::*;

use crate::config::AppConfig;
use crate::domain::adapters::{Git, Store};
use crate::domain::errors::{Errors, PersistError};
use crate::entry::Interactive;

verus! {

/// What closing the context comes to when closing its store came to
/// `closed`: the same, a failure being one of the store.
pub open spec fn passed_on(closed: Result<(), PersistError>) -> Result<(), Errors> {
    match closed {
        Ok(()) => Ok(()),
        Err(error) => Err(Errors::PersistError(error)),
    }
}

/// The collaborators of a command and the configuration in effect.
pub struct AppContext<C: Git, S: Store> {
    pub store: S,
    pub git: C,
    pub config: AppConfig,
    pub interactive: Interactive,
}

impl<C: Git, S: Store> AppContext<C, S> {
    /// The context made of its parts. The user may be asked for what is
    /// missing unless `interactive` is set otherwise afterwards.
    pub fn new(git: C, store: S, config: AppConfig) -> (made: Result<AppContext<C, S>, Errors>)
        ensures
            made == Ok::<AppContext<C, S>, Errors>(
                AppContext { store, git, config, interactive: Interactive::Enable },
            ),
    {
        Ok(AppContext { store, git, config, interactive: Interactive::Enable })
    }

    /// Gives the store up. A store that cannot be closed fails as a
    /// failure of the store.
    pub fn close(self) -> (done: Result<(), Errors>)
        ensures
            done matches Err(error) ==> error is PersistError,
            exists|closed: Result<(), PersistError>|
                #[trigger] call_ensures(S::close, (self.store,), closed) && done == passed_on(
                    closed,
                ),
    {
        let closed = self.store.close();
        match closed {
            Ok(()) => Ok(()),
            Err(error) => Err(Errors::PersistError(error)),
        }
    }
}

} // verus!
