use std::cell::RefCell;

use git_kit::adapters::tables::Tables;
use git_kit::app_context::AppContext;
use git_kit::cli::config::args::prompt_configuration_select;
use git_kit::cli::config::handler::{local_config_warning, Outcome, Report};
use git_kit::cli::config::{ConfigAdd, ConfigSet};
use git_kit::cli::{checkout, commit, config, context, Command};
use git_kit::config::{AppConfig, CommitConfig, TemplateConfig};
use git_kit::domain::adapters::{
    CheckoutStatus, CommitMsgStatus, Git, Prompter, SelectItem, Store,
};
use git_kit::domain::commands::{Checkout, CommitArgs, Context};
use git_kit::domain::errors::{Errors, GitError, PersistError, UserInputError};
use git_kit::domain::models::{Config, ConfigKey, ConfigStatus};
use git_kit::entry::Interactive;
use git_kit::utils::or_else_try::or_else_try;

struct PromptTest {
    select_item_name: Result<String, UserInputError>,
    text_result: Result<Option<String>, UserInputError>,
    asked: RefCell<Vec<String>>,
}

impl PromptTest {
    fn silent() -> PromptTest {
        PromptTest {
            select_item_name: Err(UserInputError::Validation { name: "select".into() }),
            text_result: Err(UserInputError::Validation { name: "text".into() }),
            asked: RefCell::new(Vec::new()),
        }
    }

    fn answering(text: Option<&str>) -> PromptTest {
        PromptTest { text_result: Ok(text.map(|text| text.to_string())), ..PromptTest::silent() }
    }

    fn picking(name: &str) -> PromptTest {
        PromptTest { select_item_name: Ok(name.to_string()), ..PromptTest::silent() }
    }
}

impl Prompter for PromptTest {
    fn text(&self, name: &str, _: Option<String>) -> Result<Option<String>, UserInputError> {
        self.asked.borrow_mut().push(name.to_string());
        match &self.text_result {
            Ok(option) => Ok(option.clone()),
            Err(_) => Err(UserInputError::Validation { name: name.into() }),
        }
    }

    fn select<T>(
        &self,
        name: &str,
        options: Vec<SelectItem<T>>,
    ) -> Result<SelectItem<T>, UserInputError> {
        self.asked.borrow_mut().push(name.to_string());
        match &self.select_item_name {
            Ok(name) => options
                .into_iter()
                .find(|i| i.name == name.clone())
                .ok_or(UserInputError::Validation { name: name.into() }),
            Err(_) => Err(UserInputError::Validation { name: name.into() }),
        }
    }
}

struct GitTest {
    checkout: Result<(), GitError>,
}

impl Git for GitTest {
    fn root_directory(&self) -> Result<String, GitError> {
        Ok("/home/dev/git-kit".to_string())
    }

    fn repository_name(&self) -> Result<String, GitError> {
        Ok("git-kit".to_string())
    }

    fn branch_name(&self) -> Result<String, GitError> {
        Ok("main".to_string())
    }

    fn checkout(&self, _: &str, _: CheckoutStatus) -> Result<(), GitError> {
        self.checkout
    }

    fn template_file_path(&self) -> Result<String, GitError> {
        Ok("/home/dev/git-kit/.git/GIT_KIT_COMMIT_TEMPLATE".to_string())
    }

    fn write_template(&self, _: &str, _: &str) -> Result<(), GitError> {
        Ok(())
    }

    fn commit_with_template(&self, _: &str, _: CommitMsgStatus) -> Result<(), GitError> {
        Ok(())
    }
}

fn fake_template(description: &str) -> TemplateConfig {
    TemplateConfig { description: description.into(), content: "[{ticket_num}] {message}".into() }
}

fn fake_template_config(selected: Option<(String, TemplateConfig)>) -> AppConfig {
    let mut templates = vec![
        ("option-1".to_string(), fake_template("option-1")),
        ("option-2".to_string(), fake_template("option-2")),
        ("option-3".to_string(), fake_template("option-3")),
    ];
    if let Some(entry) = selected {
        templates.push(entry);
    }

    AppConfig { commit: CommitConfig { templates } }
}

fn fake_args() -> commit::Arguments {
    commit::Arguments {
        template: Some("option-1".to_string()),
        ticket: Some("JIRA-4".to_string()),
        scope: Some("cli".to_string()),
        message: Some("wire the prompt".to_string()),
    }
}

fn fake_config(name: &str) -> Config {
    Config {
        key: ConfigKey::User(name.to_string()),
        path: String::new(),
        status: ConfigStatus::Active,
    }
}

fn fake_context(checkout: Result<(), GitError>) -> AppContext<GitTest, Tables> {
    AppContext::new(GitTest { checkout }, Tables::new(), fake_template_config(None)).unwrap()
}

#[test]
fn try_into_domain_with_no_interactive_prompts() {
    let key = "picked".to_string();
    let value = fake_template(&key);
    let args = commit::Arguments { template: Some(key.clone()), ..fake_args() };
    let config = fake_template_config(Some((key.clone(), value.clone())));
    let prompt = PromptTest::silent();

    let actual = args.clone().try_into_domain(&config, &prompt, &Interactive::Disable).unwrap();

    let expected = CommitArgs {
        template: key.clone(),
        ticket: args.ticket.clone(),
        scope: args.scope.clone(),
        message: args.message.clone(),
    };
    assert_eq!(value.content, config.get_template_config(&actual.template).unwrap().content);
    assert_eq!(expected.message, actual.message);
    assert_eq!(expected.scope, actual.scope);
    assert_eq!(expected.ticket, actual.ticket);
    assert_eq!(expected, actual);
    assert!(prompt.asked.borrow().is_empty());
}

#[test]
fn try_into_domain_with_interactive_prompt_is_used_if_none() {
    let key = "picked".to_string();
    let value = fake_template(&key);
    let args = commit::Arguments { template: None, ticket: None, scope: None, message: None };
    let config = fake_template_config(Some((key.clone(), value.clone())));
    let prompt = PromptTest {
        select_item_name: Ok(key.clone()),
        text_result: Ok(Some("answer".to_string())),
        asked: RefCell::new(Vec::new()),
    };

    let actual = args.clone().try_into_domain(&config, &prompt, &Interactive::Enable).unwrap();

    assert_eq!(
        value.description,
        config.get_template_config(&actual.template).unwrap().description
    );
    assert_eq!(actual.template, key);
    assert_eq!(args.message, actual.message);
    assert_eq!(args.scope, actual.scope);
    assert_eq!(args.ticket, actual.ticket);
    assert_eq!(*prompt.asked.borrow(), vec!["Template:".to_string()]);
}

#[test]
fn try_into_domain_with_interactive_prompt_is_not_used_if_value_is_already_provided() {
    let key = "picked".to_string();
    let value = fake_template(&key);
    let args = commit::Arguments {
        template: Some(key.clone()),
        ticket: Some("JIRA-4".to_string()),
        scope: Some("cli".to_string()),
        message: Some("wire the prompt".to_string()),
    };
    let config = fake_template_config(Some((key.clone(), value.clone())));
    let prompt = PromptTest::silent();

    let actual = args.clone().try_into_domain(&config, &prompt, &Interactive::Enable).unwrap();

    assert_eq!(
        value.description,
        config.get_template_config(&actual.template).unwrap().description
    );
    assert_eq!(args.message, actual.message);
    assert_eq!(args.scope, actual.scope);
    assert_eq!(args.ticket, actual.ticket);
    assert!(prompt.asked.borrow().is_empty());
}

#[test]
fn try_into_domain_with_interactive_prompt_disabled_and_no_template_provided_an_error_is_thrown() {
    let args = commit::Arguments { template: None, ..fake_args() };
    let config = fake_template_config(None);
    let prompt = PromptTest::silent();

    let error = args.clone().try_into_domain(&config, &prompt, &Interactive::Disable).unwrap_err();

    assert_eq!(error, UserInputError::Required { name: "template".to_string() });
    assert_eq!(error.to_string(), "error: 'template' is required");
    assert!(prompt.asked.borrow().is_empty());
}

#[test]
fn try_into_domain_with_an_unknown_template_is_an_invalid_command() {
    let args = commit::Arguments { template: Some("chore".to_string()), ..fake_args() };
    let prompt = PromptTest::silent();

    for interactive in [Interactive::Enable, Interactive::Disable] {
        let error = args
            .clone()
            .try_into_domain(&fake_template_config(None), &prompt, &interactive)
            .unwrap_err();

        assert_eq!(error, UserInputError::InvalidCommand { name: "chore".to_string() });
    }
}

#[test]
fn try_into_domain_with_a_failed_selection_fails_as_the_prompt_says() {
    let args = commit::Arguments { template: None, ..fake_args() };
    let prompt = PromptTest::silent();

    let error = args
        .try_into_domain(&fake_template_config(None), &prompt, &Interactive::Enable)
        .unwrap_err();

    assert_eq!(error, UserInputError::Validation { name: "Template:".to_string() });
}

#[test]
fn with_interactive_enabled_select_prompt_is_used() {
    let config = fake_config("picked");
    let selector = PromptTest::picking("picked");
    let configurations = vec![fake_config("one"), config.clone(), fake_config("three")];

    let selected =
        prompt_configuration_select(configurations, &selector, Interactive::Enable).unwrap();

    assert_eq!(config.key, selected);
}

#[test]
fn with_interactive_disabled_select_prompt_errors() {
    let config = fake_config("picked");
    let selector = PromptTest::picking("picked");
    let configurations = vec![fake_config("one"), config.clone(), fake_config("three")];

    let error =
        prompt_configuration_select(configurations, &selector, Interactive::Disable).unwrap_err();

    assert_eq!(error, UserInputError::Required { name: "name".to_string() });
    assert_eq!(error.to_string(), "error: 'name' is required");
    assert!(selector.asked.borrow().is_empty());
}

#[test]
fn or_else_try_asks_only_for_what_is_missing() {
    let prompt = PromptTest::answering(Some("answer"));

    assert_eq!(
        or_else_try(&Some("given".to_string()), &prompt, "Ticket:"),
        Ok(Some("given".to_string()))
    );
    assert!(prompt.asked.borrow().is_empty());
    assert_eq!(or_else_try(&None, &prompt, "Ticket:"), Ok(Some("answer".to_string())));
    assert_eq!(*prompt.asked.borrow(), vec!["Ticket:".to_string()]);
    assert_eq!(or_else_try(&None, &PromptTest::answering(None), "Ticket:"), Ok(None));
    assert_eq!(
        or_else_try(&None, &PromptTest::silent(), "Ticket:"),
        Err(UserInputError::Validation { name: "Ticket:".to_string() })
    );
}

#[test]
fn checkout_arguments_stand_as_they_are_when_not_interactive() {
    let args = checkout::Arguments {
        name: "feature".to_string(),
        ticket: None,
        scope: Some("cli".to_string()),
        link: None,
    };
    let prompt = PromptTest::silent();

    let domain = args.try_into_domain(&prompt, &Interactive::Disable).unwrap();

    assert_eq!(
        domain,
        Checkout {
            name: "feature".to_string(),
            ticket: None,
            scope: Some("cli".to_string()),
            link: None
        }
    );
    assert!(prompt.asked.borrow().is_empty());
}

#[test]
fn checkout_arguments_are_completed_by_asking() {
    let args = checkout::Arguments {
        name: "feature".to_string(),
        ticket: None,
        scope: Some("cli".to_string()),
        link: None,
    };
    let prompt = PromptTest::answering(Some("answer"));

    let domain = args.try_into_domain(&prompt, &Interactive::Enable).unwrap();

    assert_eq!(
        domain,
        Checkout {
            name: "feature".to_string(),
            ticket: Some("answer".to_string()),
            scope: Some("cli".to_string()),
            link: Some("answer".to_string()),
        }
    );
    assert_eq!(*prompt.asked.borrow(), vec!["Ticket:".to_string(), "Link:".to_string()]);
}

#[test]
fn checkout_arguments_fail_with_the_first_failed_question() {
    let args = checkout::Arguments {
        name: "feature".to_string(),
        ticket: Some("JIRA-4".to_string()),
        scope: None,
        link: None,
    };
    let prompt = PromptTest::silent();

    let error = args.try_into_domain(&prompt, &Interactive::Enable).unwrap_err();

    assert_eq!(error, UserInputError::Validation { name: "Scope:".to_string() });
    assert_eq!(*prompt.asked.borrow(), vec!["Scope:".to_string()]);
}

#[test]
fn context_arguments_stand_as_they_are_when_not_interactive() {
    let args = context::Arguments { ticket: Some("JIRA-4".to_string()), scope: None, link: None };

    let domain = args.try_into_domain(&PromptTest::silent(), &Interactive::Disable).unwrap();

    assert_eq!(domain, Context { ticket: Some("JIRA-4".to_string()), scope: None, link: None });
}

#[test]
fn context_arguments_are_completed_by_asking() {
    let args = context::Arguments { ticket: Some("JIRA-4".to_string()), scope: None, link: None };
    let prompt = PromptTest::answering(None);

    let domain = args.try_into_domain(&prompt, &Interactive::Enable).unwrap();

    assert_eq!(domain, Context { ticket: Some("JIRA-4".to_string()), scope: None, link: None });
    assert_eq!(*prompt.asked.borrow(), vec!["Scope:".to_string(), "Link:".to_string()]);
}

#[test]
fn config_add_needs_a_file_at_its_path() {
    let args = ConfigAdd { name: "work".to_string(), path: "work.yml".to_string() };

    assert_eq!(
        args.clone().try_into_domain(Some("/home/dev/work.yml".to_string())),
        Ok(Config {
            key: ConfigKey::User("work".to_string()),
            path: "/home/dev/work.yml".to_string(),
            status: ConfigStatus::Active,
        })
    );
    assert_eq!(
        args.try_into_domain(None),
        Err(UserInputError::Validation { name: "config path".to_string() })
    );
}

#[test]
fn config_set_takes_the_name_that_is_given() {
    let store = Tables::new();
    let prompt = PromptTest::silent();

    let key = ConfigSet { name: Some("work".to_string()) }
        .try_into_domain(&store, &prompt, &Interactive::Enable)
        .unwrap();
    let reserved = ConfigSet { name: Some("default".to_string()) }
        .try_into_domain(&store, &prompt, &Interactive::Disable)
        .unwrap();

    assert_eq!(key, ConfigKey::User("work".to_string()));
    assert_eq!(reserved, ConfigKey::Default);
    assert!(prompt.asked.borrow().is_empty());
}

#[test]
fn config_set_without_a_name_lets_the_user_pick() {
    let mut store = Tables::new();
    store.insert_config(fake_config("one")).unwrap();
    store.insert_config(fake_config("two")).unwrap();

    let key = ConfigSet { name: None }
        .try_into_domain(&store, &PromptTest::picking("two"), &Interactive::Enable)
        .unwrap();
    let error = ConfigSet { name: None }
        .try_into_domain(&store, &PromptTest::picking("two"), &Interactive::Disable)
        .unwrap_err();

    assert_eq!(key, ConfigKey::User("two".to_string()));
    assert_eq!(error, Errors::UserInput(UserInputError::Required { name: "name".to_string() }));
}

#[test]
fn config_handler_adds_a_configuration_as_the_active_one() {
    let mut store = Tables::new();
    let arguments = config::Arguments::Add(ConfigAdd {
        name: "work".to_string(),
        path: "work.yml".to_string(),
    });

    let report = config::handler(
        &mut store,
        &ConfigKey::Default,
        arguments,
        Some("/home/dev/work.yml".to_string()),
        &PromptTest::silent(),
        &Interactive::Disable,
    )
    .unwrap();

    assert_eq!(
        report,
        Report { warning: None, outcome: Outcome::Added(ConfigKey::User("work".to_string())) }
    );
    assert_eq!(
        store.get_configurations().unwrap(),
        vec![Config {
            key: ConfigKey::User("work".to_string()),
            path: "/home/dev/work.yml".to_string(),
            status: ConfigStatus::Active,
        }]
    );
}

#[test]
fn config_handler_adds_a_configuration_and_disables_the_others() {
    let mut store = Tables::new();
    store
        .insert_config(Config {
            key: ConfigKey::Default,
            path: "/etc/git-kit.yml".to_string(),
            status: ConfigStatus::Disabled,
        })
        .unwrap();
    store.insert_config(Config { path: "/home/dev/home.yml".into(), ..fake_config("home") }).unwrap();

    config::handler(
        &mut store,
        &ConfigKey::Default,
        config::Arguments::Add(ConfigAdd { name: "work".into(), path: "work.yml".into() }),
        Some("/home/dev/work.yml".to_string()),
        &PromptTest::silent(),
        &Interactive::Disable,
    )
    .unwrap();

    assert_eq!(
        store.get_configurations().unwrap(),
        vec![
            Config {
                key: ConfigKey::Default,
                path: "/etc/git-kit.yml".to_string(),
                status: ConfigStatus::Disabled,
            },
            Config {
                key: ConfigKey::User("home".to_string()),
                path: "/home/dev/home.yml".to_string(),
                status: ConfigStatus::Disabled,
            },
            Config {
                key: ConfigKey::User("work".to_string()),
                path: "/home/dev/work.yml".to_string(),
                status: ConfigStatus::Active,
            },
        ]
    );
}

#[test]
fn config_handler_refuses_to_add_without_a_file_or_under_the_default_key() {
    let mut store = Tables::new();
    let prompt = PromptTest::silent();

    let no_file = config::handler(
        &mut store,
        &ConfigKey::Default,
        config::Arguments::Add(ConfigAdd { name: "work".into(), path: "work.yml".into() }),
        None,
        &prompt,
        &Interactive::Disable,
    )
    .unwrap_err();
    let reserved = config::handler(
        &mut store,
        &ConfigKey::Default,
        config::Arguments::Add(ConfigAdd { name: "default".into(), path: "work.yml".into() }),
        Some("/home/dev/work.yml".to_string()),
        &prompt,
        &Interactive::Disable,
    )
    .unwrap_err();

    assert_eq!(
        no_file,
        Errors::UserInput(UserInputError::Validation { name: "config path".to_string() })
    );
    assert_eq!(
        reserved,
        Errors::UserInput(UserInputError::Validation { name: "config key".to_string() })
    );
    assert!(store.get_configurations().unwrap().is_empty());
}

#[test]
fn config_handler_switches_and_resets_the_active_configuration() {
    let mut store = Tables::new();
    store
        .insert_config(Config {
            key: ConfigKey::Default,
            path: "/etc/git-kit.yml".to_string(),
            status: ConfigStatus::Active,
        })
        .unwrap();
    store.insert_config(fake_config("work")).unwrap();
    let prompt = PromptTest::silent();

    let switched = config::handler(
        &mut store,
        &ConfigKey::Local,
        config::Arguments::Switch(ConfigSet { name: Some("work".to_string()) }),
        None,
        &prompt,
        &Interactive::Disable,
    )
    .unwrap();

    assert_eq!(
        switched,
        Report {
            warning: Some("'local' repository".to_string()),
            outcome: Outcome::Activated(ConfigKey::User("work".to_string())),
        }
    );
    assert_eq!(store.get_configuration(None).unwrap().key, ConfigKey::User("work".to_string()));

    let reset = config::handler(
        &mut store,
        &ConfigKey::Once,
        config::Arguments::Reset,
        None,
        &prompt,
        &Interactive::Disable,
    )
    .unwrap();

    assert_eq!(
        reset,
        Report {
            warning: Some("'once off' --config".to_string()),
            outcome: Outcome::Reset(ConfigKey::Default),
        }
    );
    assert_eq!(store.get_configuration(None).unwrap().key, ConfigKey::Default);
}

#[test]
fn config_handler_fails_to_switch_to_what_is_not_registered() {
    let mut store = Tables::new();
    store.insert_config(fake_config("work")).unwrap();

    let error = config::handler(
        &mut store,
        &ConfigKey::Default,
        config::Arguments::Switch(ConfigSet { name: Some("home".to_string()) }),
        None,
        &PromptTest::silent(),
        &Interactive::Disable,
    )
    .unwrap_err();
    let reset = config::handler(
        &mut store,
        &ConfigKey::Default,
        config::Arguments::Reset,
        None,
        &PromptTest::silent(),
        &Interactive::Disable,
    )
    .unwrap_err();

    assert_eq!(error, Errors::PersistError(PersistError::NotFound { name: "config".into() }));
    assert_eq!(reset, Errors::PersistError(PersistError::NotFound { name: "config".into() }));
    assert_eq!(store.get_configurations().unwrap(), vec![fake_config("work")]);
}

#[test]
fn config_handler_shows_the_active_configurations_first() {
    let mut store = Tables::new();
    let disabled = |name: &str| Config { status: ConfigStatus::Disabled, ..fake_config(name) };
    store.insert_config(disabled("one")).unwrap();
    store.insert_config(fake_config("two")).unwrap();
    store.insert_config(disabled("three")).unwrap();
    store.insert_config(fake_config("four")).unwrap();

    let report = config::handler(
        &mut store,
        &ConfigKey::User("two".to_string()),
        config::Arguments::Show,
        None,
        &PromptTest::silent(),
        &Interactive::Disable,
    )
    .unwrap();

    assert_eq!(
        report,
        Report {
            warning: None,
            outcome: Outcome::Listed(vec![
                fake_config("two"),
                fake_config("four"),
                disabled("one"),
                disabled("three"),
            ]),
        }
    );
}

#[test]
fn local_config_warning_names_what_overrides_the_registered_configurations() {
    assert_eq!(local_config_warning(&ConfigKey::Once), Some("'once off' --config".to_string()));
    assert_eq!(local_config_warning(&ConfigKey::Local), Some("'local' repository".to_string()));
    assert_eq!(local_config_warning(&ConfigKey::Default), None);
    assert_eq!(local_config_warning(&ConfigKey::User("work".to_string())), None);
}

#[test]
fn command_checkout_stores_the_branch() {
    let mut context = fake_context(Ok(()));
    context.interactive = Interactive::Disable;
    let command = Command::Checkout(checkout::Arguments {
        name: "feature".to_string(),
        ticket: Some("JIRA-4".to_string()),
        scope: None,
        link: None,
    });

    command.execute(&mut context, &PromptTest::silent()).unwrap();

    let branch = context.store.get_branch("feature", "git-kit").unwrap();
    assert_eq!(branch.name, "git-kit-feature");
    assert_eq!(branch.ticket, Some("JIRA-4".to_string()));
}

#[test]
fn command_checkout_that_fails_stores_nothing() {
    let mut context = fake_context(Err(GitError::Write));
    context.interactive = Interactive::Disable;
    let command = Command::Checkout(checkout::Arguments {
        name: "feature".to_string(),
        ticket: Some("JIRA-4".to_string()),
        scope: None,
        link: None,
    });

    let error = command.execute(&mut context, &PromptTest::silent()).unwrap_err();

    assert_eq!(error, Errors::Git(GitError::Write));
    assert!(context.store.get_branch("feature", "git-kit").is_err());
}

#[test]
fn command_context_stores_what_the_current_branch_is_for() {
    let mut context = fake_context(Ok(()));
    let command = Command::Context(context::Arguments {
        ticket: Some("JIRA-5".to_string()),
        scope: None,
        link: None,
    });

    command.execute(&mut context, &PromptTest::answering(Some("asked"))).unwrap();

    let branch = context.store.get_branch("main", "git-kit").unwrap();
    assert_eq!(branch.ticket, Some("JIRA-5".to_string()));
    assert_eq!(branch.scope, Some("asked".to_string()));
    assert_eq!(branch.link, Some("asked".to_string()));
}

#[test]
fn command_commit_needs_a_template() {
    let mut context = fake_context(Ok(()));
    context.interactive = Interactive::Disable;
    let missing = Command::Commit(commit::Arguments { template: None, ..fake_args() });
    let unknown =
        Command::Commit(commit::Arguments { template: Some("chore".into()), ..fake_args() });
    let known = Command::Commit(fake_args());

    assert_eq!(
        missing.execute(&mut context, &PromptTest::silent()),
        Err(Errors::UserInput(UserInputError::Required { name: "template".to_string() }))
    );
    assert_eq!(
        unknown.execute(&mut context, &PromptTest::silent()),
        Err(Errors::UserInput(UserInputError::InvalidCommand { name: "chore".to_string() }))
    );
    assert_eq!(known.execute(&mut context, &PromptTest::silent()), Ok(()));
}

#[test]
fn new_context_may_ask_the_user() {
    let context = fake_context(Ok(()));

    assert_eq!(context.interactive, Interactive::Enable);
    assert!(context.close().is_ok());
}
