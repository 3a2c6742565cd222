//! What is said to git, and what is made of its answers. Running git is
//! left to the caller.

use vstd::prelude::*;

use crate::config::{join, joined};
use crate::domain::adapters::{CheckoutStatus, CommitMsgStatus};
use crate::utils::string::{from_chars, to_chars, trim, trim_text, trimmed};

verus! {

/// The arguments and answers of the git command line.
pub struct Git;

/// The texts that a vector of strings stands for.
pub open spec fn texts(args: Seq<String>) -> Seq<Seq<char>> {
    args.map_values(|arg: String| arg@)
}

/// What follows the last slash of `path`: all of it where there is no
/// slash.
pub open spec fn last_segment(path: Seq<char>) -> Seq<char>
    decreases path.len(),
{
    if path.len() == 0 || path.last() == '/' {
        Seq::empty()
    } else {
        last_segment(path.drop_last()).push(path.last())
    }
}

/// What stands behind the place `from` is the last segment if it holds no
/// slash and a slash, or nothing, stands before it.
proof fn lemma_last_segment(path: Seq<char>, from: int)
    requires
        0 <= from <= path.len(),
        forall|i: int| from <= i < path.len() ==> path[i] != '/',
        from > 0 ==> path[from - 1] == '/',
    ensures
        last_segment(path) == path.skip(from),
    decreases path.len() - from,
{
    if from < path.len() {
        let front = path.drop_last();
        lemma_last_segment(front, from);
        assert(front.skip(from).push(path.last()) =~= path.skip(from));
    } else {
        assert(path.skip(from) =~= Seq::<char>::empty());
    }
}

/// The arguments of the checkout of `name`.
pub open spec fn checkout_words(name: Seq<char>, status: CheckoutStatus) -> Seq<Seq<char>> {
    match status {
        CheckoutStatus::New => seq!["checkout"@, "-b"@, name],
        CheckoutStatus::Existing => seq!["checkout"@, name],
    }
}

/// The arguments of a commit with the template file `template`. An empty
/// message is allowed where the message counts as complete.
pub open spec fn commit_words(template: Seq<char>, completed: CommitMsgStatus) -> Seq<Seq<char>> {
    match completed {
        CommitMsgStatus::Completed => seq![
            "commit"@,
            "--template"@,
            template,
            "--allow-empty-message"@,
        ],
        CommitMsgStatus::InComplete => seq!["commit"@, "--template"@, template],
    }
}

impl Git {
    /// The root directory that git's answer names: the answer, trimmed.
    pub fn root_directory(answer: &str) -> (root: String)
        ensures
            root@ == trim(answer@),
    {
        trim_text(answer)
    }

    /// The name of the repository whose root directory is `root`: what
    /// follows the last slash, trimmed.
    pub fn repository_name(root: &str) -> (name: String)
        ensures
            name@ == trim(last_segment(root@)),
    {
        let chars = to_chars(root);
        let mut from: usize = chars.len();
        while from > 0 && chars[from - 1] != '/'
            invariant
                from <= chars.len(),
                forall|i: int| from <= i < chars.len() ==> chars[i] != '/',
            decreases from,
        {
            from -= 1;
        }
        let mut segment: Vec<char> = Vec::new();
        let mut i: usize = from;
        while i < chars.len()
            invariant
                from <= i <= chars.len(),
                segment@ == chars@.subrange(from as int, i as int),
            decreases chars.len() - i,
        {
            segment.push(chars[i]);
            i += 1;
        }
        proof {
            lemma_last_segment(chars@, from as int);
            assert(chars@.subrange(from as int, chars.len() as int) =~= chars@.skip(from as int));
        }
        from_chars(&trimmed(&segment))
    }

    /// The path of the file that holds the message of the next commit, in
    /// the repository whose root directory is `root`.
    pub fn template_file_path(root: &str) -> (path: String)
        ensures
            path@ == joined(joined(root@, ".git"@), "GIT_KIT_COMMIT_TEMPLATE"@),
    {
        let directory = join(root, ".git");
        join(directory.as_str(), "GIT_KIT_COMMIT_TEMPLATE")
    }

    /// The arguments with which git checks out the branch `name`.
    pub fn checkout_arguments(name: &str, status: CheckoutStatus) -> (args: Vec<String>)
        ensures
            texts(args@) == checkout_words(name@, status),
    {
        let mut args: Vec<String> = Vec::new();
        args.push("checkout".to_owned());
        match status {
            CheckoutStatus::New => {
                args.push("-b".to_owned());
            },
            CheckoutStatus::Existing => {},
        }
        args.push(name.to_owned());
        assert(texts(args@) =~= checkout_words(name@, status));
        args
    }

    /// The arguments with which git commits from the template file
    /// `template`.
    pub fn commit_arguments(template: &str, completed: CommitMsgStatus) -> (args: Vec<String>)
        ensures
            texts(args@) == commit_words(template@, completed),
    {
        let mut args: Vec<String> = Vec::new();
        args.push("commit".to_owned());
        args.push("--template".to_owned());
        args.push(template.to_owned());
        match completed {
            CommitMsgStatus::Completed => {
                args.push("--allow-empty-message".to_owned());
            },
            CommitMsgStatus::InComplete => {},
        }
        assert(texts(args@) =~= commit_words(template@, completed));
        args
    }
}

} // verus!
