//! Committing with a message made from a template.

use vstd::prelude::*;

use crate::config::{template_named, AppConfig, TemplateView};
use crate::domain::adapters::git::{
    commits_with, fails_to_commit_with, fails_to_name_branch, fails_to_name_repository,
    fails_to_name_template_file, fails_to_write_template, names_branch, names_repository,
    names_template_file, writes_template,
};
use crate::domain::adapters::{CommitMsgStatus, Git, Store};
use crate::domain::commands::args::{record_of, CommitArgs};
use crate::domain::errors::{Errors, GitError, LookupError, UserInputError};
use crate::domain::models::{copy_text, Branch};
use crate::utils::string::{none_if_empty, present, text_of};

verus! {

/// Whether git may take the message as it is: it may where the user gave
/// a message that is not blank.
pub open spec fn status_for(message: Option<Seq<char>>) -> CommitMsgStatus {
    if present(message) is Some {
        CommitMsgStatus::Completed
    } else {
        CommitMsgStatus::InComplete
    }
}

/// Whether git may take the message as it is.
pub fn message_status(message: &Option<String>) -> (status: CommitMsgStatus)
    ensures
        status == status_for(text_of(*message)),
{
    match none_if_empty(copy_text(message)) {
        Some(_) => CommitMsgStatus::Completed,
        None => CommitMsgStatus::InComplete,
    }
}

/// The record to fall back on when the store answered `found`: the one
/// that was found, or none where the store found none or failed.
pub open spec fn soft(found: Result<Branch, LookupError>) -> Option<Branch> {
    match found {
        Ok(record) => Some(record),
        Err(_) => None,
    }
}

/// The record to fall back on: the one that was found, or none where the
/// store found none or failed.
pub fn fallback(found: Result<Branch, LookupError>) -> (branch: Option<Branch>)
    ensures
        branch == soft(found),
{
    match found {
        Ok(record) => Some(record),
        Err(_) => None,
    }
}

/// `branch` is what the store answered, taken softly, when it was asked
/// for the record of the branch and the repository that git named.
pub open spec fn looked_up<G: Git, S: Store>(git: &G, store: &S, branch: Option<Branch>) -> bool {
    exists|name: &str, repo: &str, found: Result<Branch, LookupError>|
        {
            &&& names_branch(git, name@)
            &&& names_repository(git, repo@)
            &&& #[trigger] call_ensures(S::get_branch, (store, name, repo), found)
            &&& branch == soft(found)
        }
}

/// Git failed with `error` to name the branch that is checked out, or it
/// named the branch and failed with `error` to name the repository.
pub open spec fn unnamed<G: Git>(git: &G, error: GitError) -> bool {
    ||| fails_to_name_branch(git, error)
    ||| fails_to_name_repository(git, error) && exists|name: Seq<char>| names_branch(git, name)
}

/// The record of the current branch: git is asked for the branch and for
/// the repository, and the store for the record of the two. A failure of
/// git is passed on. A store that finds no record, or fails, is none:
/// the answer is then no record.
fn current_branch<G: Git, S: Store>(git: &G, store: &S) -> (found: Result<Option<Branch>, GitError>)
    ensures
        match found {
            Ok(branch) => looked_up(git, store, branch),
            Err(error) => unnamed(git, error),
        },
{
    let branch = match git.branch_name() {
        Ok(name) => name,
        Err(error) => {
            return Err(error);
        },
    };
    assert(names_branch(git, branch@));
    let repo = match git.repository_name() {
        Ok(name) => name,
        Err(error) => {
            return Err(error);
        },
    };
    assert(names_repository(git, repo@));
    let name = branch.as_str();
    let repository = repo.as_str();
    let found = store.get_branch(name, repository);
    assert(call_ensures(S::get_branch, (store, name, repository), found));
    Ok(fallback(found))
}

/// Git wrote `contents` to the file that it named for the message of the
/// next commit, and committed with that file.
pub open spec fn committed<G: Git>(git: &G, contents: Seq<char>, status: CommitMsgStatus) -> bool {
    exists|path: Seq<char>|
        {
            &&& names_template_file(git, path)
            &&& #[trigger] writes_template(git, path, contents)
            &&& commits_with(git, path, status)
        }
}

/// How git fails a commit with `error`: it does not name the branch or
/// the repository; or it does not name the file for the message; or it
/// names the file and does not write it, which counts as `Write`; or it
/// writes the file and does not commit with it.
pub open spec fn git_failure<G: Git>(git: &G, status: CommitMsgStatus, error: GitError) -> bool {
    ||| unnamed(git, error)
    ||| fails_to_name_template_file(git, error)
    ||| error == GitError::Write && exists|path: Seq<char>, contents: Seq<char>|
        names_template_file(git, path) && #[trigger] fails_to_write_template(git, path, contents)
    ||| exists|path: Seq<char>|
        names_template_file(git, path) && #[trigger] fails_to_commit_with(
            git,
            path,
            status,
            error,
        )
}

/// What a commit comes to. An unknown template fails as an invalid
/// command that names it, and nothing else fails as one of the user's
/// input. A message that was committed is the message that the template
/// yields for the values given and for the record of the current branch
/// as the store answered for it, a store that found none or failed
/// counting as no record; git has written the message to its file and
/// has committed with it, an empty message being allowed where the user
/// gave one that is not blank. Any other failure is git's.
pub open spec fn outcome<G: Git, S: Store>(
    git: &G,
    templates: Seq<TemplateView>,
    store: &S,
    commit: CommitArgs,
    done: Result<String, Errors>,
) -> bool {
    match template_named(templates, commit.template@) {
        None => {
            &&& done matches Err(Errors::UserInput(UserInputError::InvalidCommand { name }))
            &&& name@ == commit.template@
        },
        Some(template) => match done {
            Ok(contents) => {
                &&& exists|branch: Option<Branch>|
                    {
                        &&& contents@ == #[trigger] commit.message_for(
                            template.content,
                            record_of(branch),
                        )
                        &&& looked_up(git, store, branch)
                    }
                &&& committed(git, contents@, status_for(text_of(commit.message)))
            },
            Err(error) => {
                &&& error matches Errors::Git(inner)
                &&& git_failure(git, status_for(text_of(commit.message)), inner)
            },
        },
    }
}

/// Makes the message from the template that `commit` names, writes it to
/// git's template file and commits with it. An unknown template fails
/// before git or the store is asked anything, and a git that does not
/// name the branch or the repository fails the commit. A branch without
/// a record, or one whose record cannot be read, is no failure: the
/// message is then made from the given values alone.
pub fn handler<G: Git, S: Store>(git: &G, store: &S, config: &AppConfig, commit: CommitArgs) -> (done:
    Result<String, Errors>)
    ensures
        outcome(git, config@, store, commit, done),
{
    let template = match config.get_template_config(commit.template.as_str()) {
        Ok(template) => template.content.clone(),
        Err(error) => {
            return Err(Errors::UserInput(error));
        },
    };
    let branch = match current_branch(git, store) {
        Ok(branch) => branch,
        Err(error) => {
            return Err(Errors::Git(error));
        },
    };
    let ghost record = branch;
    let ghost status = status_for(text_of(commit.message));
    let contents = commit.commit_message(template, branch);
    assert(contents@ == commit.message_for(template@, record_of(record)));
    let template_file = match git.template_file_path() {
        Ok(path) => path,
        Err(error) => {
            return Err(Errors::Git(error));
        },
    };
    assert(names_template_file(git, template_file@));
    let file = template_file.as_str();
    let text = contents.as_str();
    let written = git.write_template(file, text);
    assert(call_ensures(G::write_template, (git, file, text), written));
    if written.is_err() {
        assert(fails_to_write_template(git, template_file@, contents@));
        return Err(Errors::Git(GitError::Write));
    }
    assert(writes_template(git, template_file@, contents@));
    let status = message_status(&commit.message);
    let done = git.commit_with_template(file, status);
    assert(call_ensures(G::commit_with_template, (git, file, status), done));
    match done {
        Ok(()) => {
            assert(commits_with(git, template_file@, status));
            Ok(contents)
        },
        Err(error) => {
            assert(fails_to_commit_with(git, template_file@, status, error));
            Err(Errors::Git(error))
        },
    }
}

} // verus!
