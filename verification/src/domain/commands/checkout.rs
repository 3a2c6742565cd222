//! Checking out a branch and remembering what it is for.

use vstd::prelude::*;

use crate::domain::adapters::git::{
    checks_out, fails_to_name_repository, names_repository, refuses_checkout,
};
use crate::domain::adapters::{CheckoutStatus, Git, Store};
use crate::domain::errors::{Errors, GitError};
use crate::domain::keyed::upsert;
use crate::domain::models::{new_branch, Branch, BranchView, Timestamp};
use crate::utils::string::text_of;

verus! {

/// What the user gave for a checkout.
#[derive(Debug, Clone, PartialEq, Eq)]
pub struct Checkout {
    /// Name of the branch to check out or to make.
    pub name: String,
    /// Ticket that the branch is about.
    pub ticket: Option<String>,
    /// The part of the code that the changes touch.
    pub scope: Option<String>,
    /// Link to the ticket.
    pub link: Option<String>,
}

/// Git has the branch `name` checked out: it made the branch, or it
/// failed to make it and then checked it out.
pub open spec fn switched_to<G: Git>(git: &G, name: Seq<char>) -> bool {
    ||| checks_out(git, name, CheckoutStatus::New)
    ||| refuses_checkout(git, name, CheckoutStatus::New) && checks_out(
        git,
        name,
        CheckoutStatus::Existing,
    )
}

/// The table `after` is the table `before` with the record of a checkout
/// written to it: git has the branch `args.name` checked out, and the
/// record is that of this branch in the repository that git named, made
/// at some moment, with the values of `args`.
pub open spec fn checked_out<G: Git>(
    git: &G,
    before: Seq<BranchView>,
    after: Seq<BranchView>,
    args: Checkout,
) -> bool {
    &&& switched_to(git, args.name@)
    &&& exists|created: Timestamp, repo: Seq<char>|
        {
            &&& names_repository(git, repo)
            &&& after == upsert(
                before,
                #[trigger] new_branch(
                    created,
                    args.name@,
                    repo,
                    text_of(args.ticket),
                    text_of(args.link),
                    text_of(args.scope),
                ),
            )
        }
}

/// How a checkout fails. `Write`: git could neither make the branch nor
/// check it out. `Read`: git has the branch checked out but failed to
/// name the repository. Else the store refused the record, after git had
/// the branch checked out and had named the repository.
pub open spec fn failure<G: Git>(git: &G, args: Checkout, error: Errors) -> bool {
    ||| {
        &&& error == Errors::Git(GitError::Write)
        &&& refuses_checkout(git, args.name@, CheckoutStatus::New)
        &&& refuses_checkout(git, args.name@, CheckoutStatus::Existing)
    }
    ||| {
        &&& error == Errors::Git(GitError::Read)
        &&& switched_to(git, args.name@)
        &&& exists|inner: GitError| fails_to_name_repository(git, inner)
    }
    ||| {
        &&& error is PersistError
        &&& switched_to(git, args.name@)
        &&& exists|repo: Seq<char>| names_repository(git, repo)
    }
}

/// Makes the branch, or checks it out where it cannot be made, and stores
/// its record. The record is stored only after git has the branch checked
/// out and has told the repository's name. A branch that can neither be
/// made nor checked out fails as `Write`, a repository without a name as
/// `Read`, and a store that refuses the record as the store says. When
/// anything fails, the store is as it was.
pub fn handler<G: Git, S: Store>(git: &G, store: &mut S, args: Checkout) -> (done: Result<
    Branch,
    Errors,
>)
    ensures
        match done {
            Ok(branch) => {
                &&& exists|repo: Seq<char>|
                    {
                        &&& names_repository(git, repo)
                        &&& branch@ == #[trigger] new_branch(
                            branch.created,
                            args.name@,
                            repo,
                            text_of(args.ticket),
                            text_of(args.link),
                            text_of(args.scope),
                        )
                    }
                &&& final(store).branches() == upsert(old(store).branches(), branch@)
                &&& checked_out(git, old(store).branches(), final(store).branches(), args)
            },
            Err(error) => {
                &&& final(store).branches() == old(store).branches()
                &&& failure(git, args, error)
            },
        },
        final(store).configs() == old(store).configs(),
{
    let name = args.name.as_str();
    let create = git.checkout(name, CheckoutStatus::New);
    assert(call_ensures(G::checkout, (git, name, CheckoutStatus::New), create));
    match create {
        Ok(()) => {
            assert(checks_out(git, args.name@, CheckoutStatus::New));
        },
        Err(_) => {
            assert(refuses_checkout(git, args.name@, CheckoutStatus::New));
            let existing = git.checkout(name, CheckoutStatus::Existing);
            assert(call_ensures(G::checkout, (git, name, CheckoutStatus::Existing), existing));
            match existing {
                Ok(()) => {
                    assert(checks_out(git, args.name@, CheckoutStatus::Existing));
                },
                Err(_) => {
                    assert(refuses_checkout(git, args.name@, CheckoutStatus::Existing));
                    return Err(Errors::Git(GitError::Write));
                },
            }
        },
    }
    assert(switched_to(git, args.name@));
    let repo_name = match git.repository_name() {
        Ok(name) => name,
        Err(inner) => {
            assert(fails_to_name_repository(git, inner));
            return Err(Errors::Git(GitError::Read));
        },
    };
    assert(names_repository(git, repo_name@));
    let branch = Branch::new(
        args.name.as_str(),
        repo_name.as_str(),
        args.ticket,
        args.link,
        args.scope,
    );
    match store.persist_branch(&branch) {
        Ok(()) => Ok(branch),
        Err(error) => Err(Errors::PersistError(error)),
    }
}

} // verus!
