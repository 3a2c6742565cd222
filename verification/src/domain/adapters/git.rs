//! The version-control tool, as far as the commands need it.

use vstd::prelude::*;

use crate::domain::errors::GitError;

verus! {

/// Whether a checkout makes the branch or expects it to be there.
#[derive(Debug, Clone, Copy, PartialEq, Eq, Structural)]
pub enum CheckoutStatus {
    New,
    Existing,
}

/// Whether the message of a commit is complete as it comes out of the
/// template, so that git may take it even if it is empty.
#[derive(Debug, Clone, Copy, PartialEq, Eq, Structural)]
pub enum CommitMsgStatus {
    Completed,
    InComplete,
}

/// The operations on the repository. Each of them may fail, and none of
/// them promises anything about what it returns.
pub trait Git {
    /// The root directory of the current repository.
    fn root_directory(&self) -> Result<String, GitError>;

    /// The name of the current repository.
    fn repository_name(&self) -> Result<String, GitError>;

    /// The name of the branch that is checked out.
    fn branch_name(&self) -> Result<String, GitError>;

    /// Checks out the branch `name`, making it first if `status` says so.
    fn checkout(&self, name: &str, status: CheckoutStatus) -> Result<(), GitError>;

    /// The path of the file that holds the message of the next commit.
    fn template_file_path(&self) -> Result<String, GitError>;

    /// Writes `contents` to the file at `template`.
    fn write_template(&self, template: &str, contents: &str) -> Result<(), GitError>;

    /// Commits with the file at `template` as the message to start from.
    fn commit_with_template(&self, template: &str, completed: CommitMsgStatus) -> Result<
        (),
        GitError,
    >;
}

/// Git, asked for the branch that is checked out, answered `name`.
pub open spec fn names_branch<G: Git>(git: &G, name: Seq<char>) -> bool {
    exists|told: String| #[trigger]
        call_ensures(G::branch_name, (git,), Ok::<String, GitError>(told)) && told@ == name
}

/// Git, asked for the repository, answered `name`.
pub open spec fn names_repository<G: Git>(git: &G, name: Seq<char>) -> bool {
    exists|told: String| #[trigger]
        call_ensures(G::repository_name, (git,), Ok::<String, GitError>(told)) && told@ == name
}

/// Git, asked for the branch that is checked out, failed with `error`.
pub open spec fn fails_to_name_branch<G: Git>(git: &G, error: GitError) -> bool {
    call_ensures(G::branch_name, (git,), Err::<String, GitError>(error))
}

/// Git, asked for the repository, failed with `error`.
pub open spec fn fails_to_name_repository<G: Git>(git: &G, error: GitError) -> bool {
    call_ensures(G::repository_name, (git,), Err::<String, GitError>(error))
}

/// Git, asked to check out the branch `name`, did so.
pub open spec fn checks_out<G: Git>(git: &G, name: Seq<char>, status: CheckoutStatus) -> bool {
    exists|branch: &str, done: Result<(), GitError>| #[trigger]
        call_ensures(G::checkout, (git, branch, status), done) && done is Ok && branch@ == name
}

/// Git, asked to check out the branch `name`, failed.
pub open spec fn refuses_checkout<G: Git>(git: &G, name: Seq<char>, status: CheckoutStatus) -> bool {
    exists|branch: &str, done: Result<(), GitError>| #[trigger]
        call_ensures(G::checkout, (git, branch, status), done) && done is Err && branch@ == name
}

/// Git, asked for the file that holds the message of the next commit,
/// answered `path`.
pub open spec fn names_template_file<G: Git>(git: &G, path: Seq<char>) -> bool {
    exists|told: String| #[trigger]
        call_ensures(G::template_file_path, (git,), Ok::<String, GitError>(told)) && told@
            == path
}

/// Git, asked for the file that holds the message of the next commit,
/// failed with `error`.
pub open spec fn fails_to_name_template_file<G: Git>(git: &G, error: GitError) -> bool {
    call_ensures(G::template_file_path, (git,), Err::<String, GitError>(error))
}

/// Git wrote `contents` to the file at `template`.
pub open spec fn writes_template<G: Git>(git: &G, template: Seq<char>, contents: Seq<char>) -> bool {
    exists|file: &str, text: &str, done: Result<(), GitError>| #[trigger]
        call_ensures(G::write_template, (git, file, text), done) && done is Ok && file@
            == template && text@ == contents
}

/// Git failed to write `contents` to the file at `template`.
pub open spec fn fails_to_write_template<G: Git>(
    git: &G,
    template: Seq<char>,
    contents: Seq<char>,
) -> bool {
    exists|file: &str, text: &str, done: Result<(), GitError>| #[trigger]
        call_ensures(G::write_template, (git, file, text), done) && done is Err && file@
            == template && text@ == contents
}

/// Git committed with the file at `template` as the message to start
/// from.
pub open spec fn commits_with<G: Git>(
    git: &G,
    template: Seq<char>,
    completed: CommitMsgStatus,
) -> bool {
    exists|file: &str, done: Result<(), GitError>| #[trigger]
        call_ensures(G::commit_with_template, (git, file, completed), done) && done is Ok
            && file@ == template
}

/// Git, asked to commit with the file at `template`, failed with `error`.
pub open spec fn fails_to_commit_with<G: Git>(
    git: &G,
    template: Seq<char>,
    completed: CommitMsgStatus,
    error: GitError,
) -> bool {
    exists|file: &str| #[trigger]
        call_ensures(G::commit_with_template, (git, file, completed), Err::<(), GitError>(error))
            && file@ == template
}

} // verus!
