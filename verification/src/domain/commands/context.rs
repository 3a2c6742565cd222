//! Saying what the current branch is for.

use vstd::prelude::*;

use crate::domain::adapters::git::{
    fails_to_name_branch, fails_to_name_repository, names_branch, names_repository,
};
use crate::domain::adapters::{Git, Store};
use crate::domain::errors::{Errors, GitError};
use crate::domain::keyed::upsert;
use crate::domain::models::{new_branch, Branch, BranchView, Timestamp};
use crate::utils::string::text_of;

verus! {

/// What the user gave about the current branch.
#[derive(Debug, Clone, PartialEq, Eq)]
pub struct Context {
    /// Ticket that the branch is about.
    pub ticket: Option<String>,
    /// The part of the code that the changes touch.
    pub scope: Option<String>,
    /// Link to the ticket.
    pub link: Option<String>,
}

/// The table `after` is the table `before` with the record of the branch
/// and the repository that git named written to it, made at some moment
/// with the values of `args`.
pub open spec fn noted<G: Git>(
    git: &G,
    before: Seq<BranchView>,
    after: Seq<BranchView>,
    args: Context,
) -> bool {
    exists|created: Timestamp, name: Seq<char>, repo: Seq<char>|
        {
            &&& names_branch(git, name)
            &&& names_repository(git, repo)
            &&& after == upsert(
                before,
                #[trigger] new_branch(
                    created,
                    name,
                    repo,
                    text_of(args.ticket),
                    text_of(args.link),
                    text_of(args.scope),
                ),
            )
        }
}

/// Git failed to name the repository or the branch that is checked out.
pub open spec fn withholds_names<G: Git>(git: &G) -> bool {
    ||| exists|error: GitError| fails_to_name_repository(git, error)
    ||| exists|error: GitError| fails_to_name_branch(git, error)
}

/// How `context` fails. `Read`: git failed to name the repository or the
/// branch. Else git named both, and the store refused the record.
pub open spec fn failure<G: Git>(git: &G, error: Errors) -> bool {
    ||| error == Errors::Git(GitError::Read) && withholds_names(git)
    ||| {
        &&& error is PersistError
        &&& exists|repo: Seq<char>| names_repository(git, repo)
        &&& exists|name: Seq<char>| names_branch(git, name)
    }
}

/// Stores the record of the current branch with the values given: the
/// branch and the repository are the ones that git names. Where git
/// fails to name either, the failure is `Read`, and a store that refuses
/// the record fails as the store says. When anything fails, the store is
/// as it was.
pub fn handler<G: Git, S: Store>(git: &G, store: &mut S, args: Context) -> (done: Result<
    Branch,
    Errors,
>)
    ensures
        match done {
            Ok(branch) => {
                &&& exists|name: Seq<char>, repo: Seq<char>|
                    {
                        &&& names_branch(git, name)
                        &&& names_repository(git, repo)
                        &&& branch@ == #[trigger] new_branch(
                            branch.created,
                            name,
                            repo,
                            text_of(args.ticket),
                            text_of(args.link),
                            text_of(args.scope),
                        )
                    }
                &&& final(store).branches() == upsert(old(store).branches(), branch@)
                &&& noted(git, old(store).branches(), final(store).branches(), args)
            },
            Err(error) => {
                &&& final(store).branches() == old(store).branches()
                &&& failure(git, error)
            },
        },
        final(store).configs() == old(store).configs(),
{
    let repo_name = match git.repository_name() {
        Ok(name) => name,
        Err(inner) => {
            assert(fails_to_name_repository(git, inner));
            return Err(Errors::Git(GitError::Read));
        },
    };
    let branch_name = match git.branch_name() {
        Ok(name) => name,
        Err(inner) => {
            assert(fails_to_name_branch(git, inner));
            return Err(Errors::Git(GitError::Read));
        },
    };
    assert(names_repository(git, repo_name@));
    assert(names_branch(git, branch_name@));
    let branch = Branch::new(
        branch_name.as_str(),
        repo_name.as_str(),
        args.ticket,
        args.link,
        args.scope,
    );
    match store.persist_branch(&branch) {
        Ok(()) => Ok(branch),
        Err(error) => Err(Errors::PersistError(error)),
    }
}

} // verus!
