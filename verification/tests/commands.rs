use std::cell::RefCell;

use git_kit::adapters::tables::Tables;
use git_kit::app_context::AppContext;
use git_kit::config::{AppConfig, CommitConfig, TemplateConfig};
use git_kit::domain::adapters::{CheckoutStatus, CommitMsgStatus, Git, Store};
use git_kit::domain::commands::commit::{fallback, message_status};
use git_kit::domain::commands::{
    checkout, commit, context, Actions, Actor, Checkout, CommitArgs, Context,
};
use git_kit::domain::errors::{Errors, GitError, LookupError, PersistError, UserInputError};
use git_kit::domain::models::{Branch, Timestamp};

struct GitCommandMock {
    repo: Result<String, GitError>,
    branch_name: Result<String, GitError>,
    checkout_res: fn(&str, CheckoutStatus) -> Result<(), GitError>,
    commit_res: fn(&str, CommitMsgStatus) -> Result<(), GitError>,
    template_file_path: fn() -> Result<String, GitError>,
    written: RefCell<Vec<(String, String)>>,
    checkouts: RefCell<Vec<(String, CheckoutStatus)>>,
}

impl GitCommandMock {
    fn fake() -> GitCommandMock {
        GitCommandMock {
            repo: Ok("git-kit".to_string()),
            branch_name: Ok("feature-parser".to_string()),
            checkout_res: |_, _| Ok(()),
            commit_res: |_, _| Ok(()),
            template_file_path: || Ok("/tmp/git-kit/.git/GIT_KIT_COMMIT_TEMPLATE".to_string()),
            written: RefCell::new(Vec::new()),
            checkouts: RefCell::new(Vec::new()),
        }
    }
}

impl Git for GitCommandMock {
    fn root_directory(&self) -> Result<String, GitError> {
        panic!("Did not expect Git 'root_directory' to be called.");
    }

    fn repository_name(&self) -> Result<String, GitError> {
        self.repo.clone()
    }

    fn branch_name(&self) -> Result<String, GitError> {
        self.branch_name.clone()
    }

    fn checkout(&self, name: &str, status: CheckoutStatus) -> Result<(), GitError> {
        self.checkouts.borrow_mut().push((name.to_string(), status));
        (self.checkout_res)(name, status)
    }

    fn template_file_path(&self) -> Result<String, GitError> {
        (self.template_file_path)()
    }

    fn write_template(&self, template: &str, contents: &str) -> Result<(), GitError> {
        self.written.borrow_mut().push((template.to_string(), contents.to_string()));
        Ok(())
    }

    fn commit_with_template(
        &self,
        template: &str,
        completed: CommitMsgStatus,
    ) -> Result<(), GitError> {
        (self.commit_res)(template, completed)
    }
}

fn fake_template() -> (String, TemplateConfig) {
    let config = TemplateConfig {
        description: "a template".to_string(),
        content: "[{ticket_num}] message: '{message}', scope: '{scope}', link: '{link}'".into(),
    };

    ("bug".to_string(), config)
}

fn fake_config() -> AppConfig {
    AppConfig { commit: CommitConfig { templates: vec![fake_template()] } }
}

fn fake_context(git: GitCommandMock, config: AppConfig) -> AppContext<GitCommandMock, Tables> {
    AppContext::new(git, Tables::new(), config).unwrap()
}

fn fake_checkout_args() -> Checkout {
    Checkout {
        name: "feature-parser".to_string(),
        ticket: Some("JIRA-7".to_string()),
        link: Some("https://tickets/JIRA-7".to_string()),
        scope: Some("parser".to_string()),
    }
}

fn fake_context_args() -> Context {
    Context {
        ticket: Some("JIRA-8".to_string()),
        scope: Some("lexer".to_string()),
        link: None,
    }
}

fn fake_commit_args() -> CommitArgs {
    CommitArgs {
        template: "bug".to_string(),
        ticket: Some("JIRA-9".to_string()),
        message: Some("mend the lexer".to_string()),
        scope: Some("lexer".to_string()),
    }
}

#[test]
fn checkout_success_with_ticket() {
    let command = Checkout { ticket: Some("JIRA-7".to_string()), ..fake_checkout_args() };
    let git_commands = GitCommandMock {
        repo: Ok("git-kit".to_string()),
        branch_name: Ok(command.name.clone()),
        ..GitCommandMock::fake()
    };
    let mut context = fake_context(git_commands, fake_config());

    {
        let mut actions = Actions::new(&mut context);
        actions.checkout(command.clone()).unwrap();
    }

    let branch = context.store.get_branch(&command.name, "git-kit").unwrap();
    let name = format!("{}-{}", "git-kit", "feature-parser");
    let expected = Branch { name, ticket: Some(command.ticket.unwrap()), ..branch.clone() };
    assert_eq!(branch, expected);
    context.close().unwrap();
}

#[test]
fn checkout_with_branch_already_exists_does_not_error() {
    let command = fake_checkout_args();
    let git_commands = GitCommandMock {
        repo: Ok("git-kit".to_string()),
        branch_name: Ok(command.name.clone()),
        checkout_res: |_, status| {
            if status == CheckoutStatus::New {
                Err(GitError::Write)
            } else {
                Ok(())
            }
        },
        ..GitCommandMock::fake()
    };
    let mut context = fake_context(git_commands, fake_config());

    {
        let mut actions = Actions::new(&mut context);
        actions.checkout(command.clone()).unwrap();
    }

    let branch = context.store.get_branch(&command.name, "git-kit").unwrap();
    let name = format!("{}-{}", "git-kit", "feature-parser");
    let expected = Branch {
        name,
        ticket: Some(command.ticket.unwrap()),
        link: command.link,
        scope: command.scope,
        created: branch.created,
        data: None,
    };
    assert_eq!(branch, expected);
    assert_eq!(
        *context.git.checkouts.borrow(),
        vec![
            ("feature-parser".to_string(), CheckoutStatus::New),
            ("feature-parser".to_string(), CheckoutStatus::Existing),
        ]
    );
    context.close().unwrap();
}

#[test]
fn checkout_on_fail_to_checkout_branch_nothing_is_persisted() {
    let command = fake_checkout_args();
    let git_commands = GitCommandMock {
        repo: Ok("git-kit".to_string()),
        branch_name: Ok(command.name.clone()),
        checkout_res: |_, _| Err(GitError::Write),
        ..GitCommandMock::fake()
    };
    let mut context = fake_context(git_commands, fake_config());

    let result = {
        let mut actions = Actions::new(&mut context);
        actions.checkout(command.clone())
    };

    assert!(result.is_err());
    assert_eq!(result.unwrap_err(), Errors::Git(GitError::Write));
    let error = context
        .store
        .get_branch(&command.name, "git-kit")
        .expect_err("Expected error as there should be no stored branches.");
    assert_eq!(error.to_string(), "Query returned no rows");
    assert_eq!(error, LookupError::NoRows);
    context.close().unwrap();
}

#[test]
fn checkout_success_without_ticket_uses_branch_name() {
    let command = Checkout { ticket: None, ..fake_checkout_args() };
    let git_commands = GitCommandMock {
        repo: Ok("git-kit".to_string()),
        branch_name: Ok(command.name.clone()),
        ..GitCommandMock::fake()
    };
    let mut context = fake_context(git_commands, fake_config());

    {
        let mut actions = Actions::new(&mut context);
        actions.checkout(command.clone()).unwrap();
    }

    let branch = context.store.get_branch(&command.name, "git-kit").unwrap();
    let name = format!("{}-{}", "git-kit", "feature-parser");
    let expected = Branch {
        name,
        ticket: Some(command.name),
        scope: command.scope,
        link: command.link,
        data: None,
        created: branch.created,
    };
    assert_eq!(branch, expected);
    context.close().unwrap();
}

#[test]
fn current_success() {
    let command = Context { ticket: Some("JIRA-8".to_string()), ..fake_context_args() };
    let git_commands = GitCommandMock {
        repo: Ok("git-kit".to_string()),
        branch_name: Ok("feature-lexer".to_string()),
        ..GitCommandMock::fake()
    };
    let mut context = fake_context(git_commands, fake_config());

    {
        let mut actions = Actions::new(&mut context);
        actions.context(command.clone()).unwrap();
    }

    let branch = context.store.get_branch("feature-lexer", "git-kit").unwrap();
    let name = format!("{}-{}", "git-kit", "feature-lexer");
    let expected = Branch {
        name,
        ticket: Some(command.ticket.unwrap()),
        link: command.link,
        scope: command.scope,
        ..branch.clone()
    };
    assert_eq!(branch, expected);
    context.close().unwrap();
}

#[test]
fn commands_checkout_success_with_ticket() {
    let command = Checkout { ticket: Some("JIRA-7".to_string()), ..fake_checkout_args() };
    let git = GitCommandMock::fake();
    let mut store = Tables::new();

    let made = checkout::handler(&git, &mut store, command.clone()).unwrap();

    let branch = store.get_branch(&command.name, "git-kit").unwrap();
    let name = format!("{}-{}", "git-kit", "feature-parser");
    assert_eq!(&branch.name, &name);
    assert_eq!(branch.ticket, Some(command.ticket.unwrap()));
    assert_eq!(branch, made);
}

#[test]
fn commands_checkout_with_branch_already_exists_does_not_error() {
    let command = fake_checkout_args();
    let git = GitCommandMock {
        checkout_res: |_, status| {
            if status == CheckoutStatus::New {
                Err(GitError::Write)
            } else {
                Ok(())
            }
        },
        ..GitCommandMock::fake()
    };
    let mut store = Tables::new();

    checkout::handler(&git, &mut store, command.clone()).unwrap();

    let branch = store.get_branch(&command.name, "git-kit").unwrap();
    let name = format!("{}-{}", "git-kit", "feature-parser");
    assert_eq!(&branch.name, &name);
    assert_eq!(branch.ticket, Some(command.ticket.unwrap()));
}

#[test]
fn commands_checkout_on_fail_to_checkout_branch_nothing_is_persisted() {
    let command = fake_checkout_args();
    let git = GitCommandMock {
        checkout_res: |_, _| Err(GitError::Write),
        ..GitCommandMock::fake()
    };
    let mut store = Tables::new();

    let result = checkout::handler(&git, &mut store, command.clone());

    assert!(result.is_err());
    let error = store
        .get_branch(&command.name, "git-kit")
        .expect_err("Expected error as there should be no stored branches.");
    assert_eq!(error.to_string(), "Query returned no rows");
}

#[test]
fn commands_checkout_success_without_ticket_uses_branch_name() {
    let command = Checkout { ticket: None, ..fake_checkout_args() };
    let git = GitCommandMock::fake();
    let mut store = Tables::new();

    checkout::handler(&git, &mut store, command.clone()).unwrap();

    let branch = store.get_branch(&command.name, "git-kit").unwrap();
    let name = format!("{}-{}", "git-kit", "feature-parser");
    assert_eq!(&branch.name, &name);
    assert_eq!(branch.ticket, Some(command.name));
}

#[test]
fn commands_current_success() {
    let command = fake_context_args();
    let git = GitCommandMock {
        branch_name: Ok("feature-lexer".to_string()),
        ..GitCommandMock::fake()
    };
    let mut store = Tables::new();

    context::handler(&git, &mut store, command.clone()).unwrap();

    let branch = store.get_branch("feature-lexer", "git-kit").unwrap();
    let name = format!("{}-{}", "git-kit", "feature-lexer");
    assert_eq!(&branch.name, &name);
    assert_eq!(branch.ticket, command.ticket);
}

#[test]
fn checkout_fails_as_read_when_the_repository_is_unknown() {
    let git = GitCommandMock { repo: Err(GitError::Write), ..GitCommandMock::fake() };
    let mut store = Tables::new();

    let error = checkout::handler(&git, &mut store, fake_checkout_args()).unwrap_err();

    assert_eq!(error, Errors::Git(GitError::Read));
    assert!(store.get_branch("feature-parser", "git-kit").is_err());
}

#[test]
fn context_fails_as_read_when_the_branch_is_unknown() {
    let git = GitCommandMock { branch_name: Err(GitError::Write), ..GitCommandMock::fake() };
    let mut store = Tables::new();

    let error = context::handler(&git, &mut store, fake_context_args()).unwrap_err();

    assert_eq!(error, Errors::Git(GitError::Read));
}

#[test]
fn checkout_stores_the_moment_of_creation() {
    let git = GitCommandMock::fake();
    let mut store = Tables::new();

    let made = checkout::handler(&git, &mut store, fake_checkout_args()).unwrap();

    // 2020-01-01T00:00:00Z
    assert!(made.created.secs > 1_577_836_800);
    assert!(made.created.nanos < 2_000_000_000);
}

#[test]
fn commit_message_with_all_arguments_are_injected_into_the_template_with_nothing_persisted() {
    let git_mock = GitCommandMock {
        commit_res: |_, complete| {
            assert_eq!(CommitMsgStatus::Completed, complete);
            Ok(())
        },
        ..GitCommandMock::fake()
    };
    let mut context = fake_context(git_mock, fake_config());
    let args = CommitArgs {
        ticket: Some("JIRA-9".to_string()),
        message: Some("mend the lexer".to_string()),
        scope: Some("lexer".to_string()),
        ..fake_commit_args()
    };

    let contents = {
        let mut actions = Actions::new(&mut context);
        actions.commit(args.clone()).expect("Error performing 'commit' action")
    };

    let expected = format!(
        "[{}] message: '{}', scope: '{}', link: '{}'",
        args.ticket.clone().unwrap(),
        args.message.clone().unwrap(),
        args.scope.unwrap(),
        ""
    );
    assert_eq!(expected, contents);
    assert!(context.store.get_branch("feature-parser", "git-kit").is_err());
    assert_eq!(
        *context.git.written.borrow(),
        vec![("/tmp/git-kit/.git/GIT_KIT_COMMIT_TEMPLATE".to_string(), expected)]
    );
    context.close().unwrap();
}

#[test]
fn commit_message_with_no_args_or_stored_branch_defaults_correctly() {
    let git_mock = GitCommandMock {
        commit_res: |_, complete| {
            assert_eq!(CommitMsgStatus::InComplete, complete);
            Ok(())
        },
        ..GitCommandMock::fake()
    };
    let mut context = fake_context(git_mock, fake_config());
    let args =
        CommitArgs { ticket: None, message: None, scope: None, template: "bug".to_string() };

    let contents = {
        let mut actions = Actions::new(&mut context);
        actions.commit(args.clone()).expect("Error performing 'commit' action")
    };

    assert_eq!("message: '', scope: '', link: ''", contents);
    context.close().unwrap();
}

#[test]
fn commit_message_with_no_commit_args_defaults_to_stored_branch_values() {
    let args = CommitArgs {
        template: "bug".to_string(),
        message: Some("mend the lexer".to_string()),
        ticket: None,
        scope: None,
    };
    let mut context = fake_context(GitCommandMock::fake(), fake_config());
    let branch = Branch {
        link: Some("https://tickets/7".to_string()),
        scope: Some("parser".to_string()),
        ..Branch::at(
            Timestamp { secs: 1_700_000_000, nanos: 1 },
            "feature-parser",
            "git-kit",
            None,
            None,
            None,
        )
    };
    context.store.persist_branch(&branch).unwrap();

    let commit_message = {
        let mut actions = Actions::new(&mut context);
        actions.commit(args.clone()).expect("Error performing 'commit' action")
    };

    let expected = format!(
        "[{}] message: '{}', scope: '{}', link: '{}'",
        "feature-parser",
        args.message.unwrap(),
        branch.scope.unwrap(),
        branch.link.unwrap()
    );
    assert_eq!(expected.trim(), commit_message);
    context.close().unwrap();
}

#[test]
fn commit_with_unknown_template_asks_git_nothing() {
    let git = GitCommandMock {
        template_file_path: || panic!("Did not expect Git 'template_file_path' to be called."),
        branch_name: Err(GitError::Read),
        ..GitCommandMock::fake()
    };
    let store = Tables::new();
    let args = CommitArgs { template: "chore".to_string(), ..fake_commit_args() };

    let error = commit::handler(&git, &store, &fake_config(), args).unwrap_err();

    assert_eq!(
        error,
        Errors::UserInput(UserInputError::InvalidCommand { name: "chore".to_string() })
    );
    assert!(git.written.borrow().is_empty());
}

#[test]
fn commit_without_a_named_branch_fails_as_git_says() {
    let git = GitCommandMock { branch_name: Err(GitError::Read), ..GitCommandMock::fake() };
    let store = Tables::new();

    let error = commit::handler(&git, &store, &fake_config(), fake_commit_args()).unwrap_err();

    assert_eq!(error, Errors::Git(GitError::Read));
    assert!(git.written.borrow().is_empty());
}

#[test]
fn commit_without_a_named_repository_fails_as_git_says() {
    let git = GitCommandMock { repo: Err(GitError::Write), ..GitCommandMock::fake() };
    let store = Tables::new();

    let error = commit::handler(&git, &store, &fake_config(), fake_commit_args()).unwrap_err();

    assert_eq!(error, Errors::Git(GitError::Write));
    assert!(git.written.borrow().is_empty());
}

#[test]
fn commit_without_a_stored_record_uses_the_given_values() {
    let git = GitCommandMock::fake();
    let mut store = Tables::new();
    store
        .persist_branch(&Branch::at(
            Timestamp { secs: 1, nanos: 2 },
            "another-branch",
            "git-kit",
            Some("JIRA-1".to_string()),
            None,
            None,
        ))
        .unwrap();

    let contents = commit::handler(&git, &store, &fake_config(), fake_commit_args()).unwrap();

    assert_eq!(contents, "[JIRA-9] message: 'mend the lexer', scope: 'lexer', link: ''");
}

#[test]
fn commit_that_git_refuses_fails_as_git_says() {
    let git = GitCommandMock { commit_res: |_, _| Err(GitError::Write), ..GitCommandMock::fake() };
    let store = Tables::new();

    let error = commit::handler(&git, &store, &fake_config(), fake_commit_args()).unwrap_err();

    assert_eq!(error, Errors::Git(GitError::Write));
}

#[test]
fn message_status_is_completed_for_a_message_that_is_not_blank() {
    assert_eq!(message_status(&Some("mend".to_string())), CommitMsgStatus::Completed);
    assert_eq!(message_status(&Some(" mend ".to_string())), CommitMsgStatus::Completed);
    assert_eq!(message_status(&Some(String::new())), CommitMsgStatus::InComplete);
    assert_eq!(message_status(&Some(" \n".to_string())), CommitMsgStatus::InComplete);
    assert_eq!(message_status(&None), CommitMsgStatus::InComplete);
}

#[test]
fn fallback_takes_a_record_that_was_found_and_nothing_else() {
    let record = Branch::at(Timestamp { secs: 1, nanos: 2 }, "b", "r", None, None, None);

    assert_eq!(fallback(Ok(record.clone())), Some(record));
    assert_eq!(fallback(Err(LookupError::NoRows)), None);
    assert_eq!(fallback(Err(LookupError::Store(PersistError::Unknown))), None);
}

#[test]
fn get_template_config_by_name_key() {
    let templates = [
        ("bug", "🐛"),
        ("feature", "✨"),
        ("refactor", "🧹"),
        ("break", "⚠️"),
        ("deps", "📦"),
        ("docs", "📖"),
        ("test", "🧪"),
    ];
    let config = AppConfig {
        commit: CommitConfig {
            templates: templates
                .iter()
                .map(|(name, sign)| {
                    (
                        name.to_string(),
                        TemplateConfig {
                            description: format!("{name} changes"),
                            content: format!("{{ticket_num}} {sign} {{message}}"),
                        },
                    )
                })
                .collect(),
        },
    };

    for (name, content) in templates {
        let template_config = config.get_template_config(name).unwrap();
        assert!(template_config.content.contains(content))
    }
}
