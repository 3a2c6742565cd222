//! The configuration file: the commit templates by name, and which file
//! is read.

use vstd::prelude::*;

use crate::domain::errors::{framed, UserInputError};
use crate::domain::models::{Config, ConfigKey, ConfigStatus};
use crate::utils::string::{from_chars, same_text, to_chars};

verus! {

/// A commit template.
#[derive(Debug, Clone, PartialEq, Eq)]
pub struct TemplateConfig {
    pub description: String,
    /// The message, with tokens where the values go.
    pub content: String,
}

/// The commit templates, each with its name.
#[derive(Debug, Clone, PartialEq, Eq)]
pub struct CommitConfig {
    pub templates: Vec<(String, TemplateConfig)>,
}

/// What the configuration file holds.
#[derive(Debug, Clone, PartialEq, Eq)]
pub struct AppConfig {
    pub commit: CommitConfig,
}

/// A commit template as a mathematical value.
pub struct TemplateView {
    pub name: Seq<char>,
    pub description: Seq<char>,
    pub content: Seq<char>,
}

/// What one entry of the templates stands for.
pub open spec fn template_view(entry: (String, TemplateConfig)) -> TemplateView {
    TemplateView { name: entry.0@, description: entry.1.description@, content: entry.1.content@ }
}

impl View for AppConfig {
    type V = Seq<TemplateView>;

    open spec fn view(&self) -> Seq<TemplateView> {
        self.commit.templates@.map_values(|entry: (String, TemplateConfig)| template_view(entry))
    }
}

/// The place of the first template called `name`, or the number of
/// templates if none is called so.
pub open spec fn first_named(templates: Seq<TemplateView>, name: Seq<char>) -> int
    decreases templates.len(),
{
    if templates.len() == 0 {
        0
    } else if templates[0].name == name {
        0
    } else {
        1 + first_named(templates.skip(1), name)
    }
}

/// The first template called `name`.
pub open spec fn template_named(templates: Seq<TemplateView>, name: Seq<char>) -> Option<
    TemplateView,
> {
    let at = first_named(templates, name);
    if 0 <= at < templates.len() {
        Some(templates[at])
    } else {
        None
    }
}

/// The first place of a name is a place that holds it, behind places that
/// do not.
pub proof fn lemma_first_named(templates: Seq<TemplateView>, name: Seq<char>)
    ensures
        0 <= first_named(templates, name) <= templates.len(),
        first_named(templates, name) < templates.len() ==> templates[first_named(
            templates,
            name,
        )].name == name,
        forall|i: int|
            0 <= i < first_named(templates, name) ==> (#[trigger] templates[i]).name != name,
    decreases templates.len(),
{
    if templates.len() > 0 && templates[0].name != name {
        let rest = templates.skip(1);
        lemma_first_named(rest, name);
        assert forall|i: int| 0 <= i < first_named(templates, name) implies (
        #[trigger] templates[i]).name != name by {
            if i > 0 {
                assert(templates[i] == rest[i - 1]);
            }
        }
    }
}

/// A path and whether a file is there.
#[derive(Debug, Clone, PartialEq, Eq)]
pub struct Located {
    pub path: String,
    pub exists: bool,
}

/// The name of the configuration file.
pub open spec fn file_name() -> Seq<char> {
    ".git-kit.yml"@
}

/// `name` in the directory `directory`: a slash stands between the two
/// unless the directory is empty or ends in one.
pub open spec fn joined(directory: Seq<char>, name: Seq<char>) -> Seq<char> {
    if directory.len() == 0 || directory.last() == '/' {
        directory + name
    } else {
        directory + seq!['/'] + name
    }
}

/// `name` in the directory `directory`.
pub fn join(directory: &str, name: &str) -> (path: String)
    ensures
        path@ == joined(directory@, name@),
{
    let mut chars = to_chars(directory);
    if chars.len() > 0 && chars[chars.len() - 1] != '/' {
        chars.push('/');
    }
    let mut rest = to_chars(name);
    chars.append(&mut rest);
    from_chars(&chars)
}

/// The configuration in effect. A file given for this invocation comes
/// first, and it is an error if it is not there; then the file in the
/// repository, if it is there; then the registered configuration that is
/// active; then the built-in one.
pub open spec fn config_in_effect(
    user_config: Option<Located>,
    repo_config: Located,
    active: Option<Config>,
    default_path: String,
) -> Option<Config> {
    match user_config {
        Some(user) => if user.exists {
            Some(Config { key: ConfigKey::Once, path: user.path, status: ConfigStatus::Active })
        } else {
            None
        },
        None => if repo_config.exists {
            Some(
                Config {
                    key: ConfigKey::Local,
                    path: repo_config.path,
                    status: ConfigStatus::Active,
                },
            )
        } else {
            match active {
                Some(config) => Some(config),
                None => Some(
                    Config {
                        key: ConfigKey::Default,
                        path: default_path,
                        status: ConfigStatus::Active,
                    },
                ),
            }
        },
    }
}

/// What is said of a configuration file that was asked for and is not
/// there.
pub open spec fn missing_file_message(path: Seq<char>) -> Seq<char> {
    "Invalid config file path does not exist at '"@ + path + "'"@
}

/// The failure of a configuration file that was given for this invocation
/// and is not there.
#[derive(Debug, Clone, PartialEq, Eq)]
pub struct InvalidPath {
    /// The path as it was given.
    pub path: String,
}

impl InvalidPath {
    /// The failure in words.
    pub fn to_string(&self) -> (text: String)
        ensures
            text@ == missing_file_message(self.path@),
    {
        framed("Invalid config file path does not exist at '", self.path.as_str(), "'")
    }
}

impl AppConfig {
    /// The path of the built-in configuration file in the directory
    /// `config_dir`.
    pub fn config_path_default(config_dir: &str) -> (path: String)
        ensures
            path@ == joined(config_dir@, file_name()),
    {
        join(config_dir, ".git-kit.yml")
    }

    /// Whether a template is called `name`.
    pub fn validate_template(&self, name: &str) -> (valid: Result<(), UserInputError>)
        ensures
            match template_named(self@, name@) {
                Some(_) => valid is Ok,
                None => valid matches Err(UserInputError::InvalidCommand { name: unknown })
                    && unknown@ == name@,
            },
    {
        match self.get_template_config(name) {
            Ok(_) => Ok(()),
            Err(error) => Err(error),
        }
    }

    /// The template called `name`; the first one, should several be
    /// called so.
    pub fn get_template_config(&self, name: &str) -> (found: Result<
        &TemplateConfig,
        UserInputError,
    >)
        ensures
            match template_named(self@, name@) {
                Some(template) => found matches Ok(config) && config.content@ == template.content
                    && config.description@ == template.description,
                None => found matches Err(UserInputError::InvalidCommand { name: unknown })
                    && unknown@ == name@,
            },
    {
        let mut i: usize = 0;
        proof {
            lemma_first_named(self@, name@);
        }
        while i < self.commit.templates.len()
            invariant
                i <= self.commit.templates.len(),
                i <= first_named(self@, name@) <= self@.len(),
                self@.len() == self.commit.templates.len(),
                first_named(self@, name@) < self@.len() ==> self@[first_named(
                    self@,
                    name@,
                )].name == name@,
                forall|j: int|
                    0 <= j < first_named(self@, name@) ==> (#[trigger] self@[j]).name != name@,
            decreases self.commit.templates.len() - i,
        {
            if same_text(self.commit.templates[i].0.as_str(), name) {
                assert(self@[i as int].name == name@);
                return Ok(&self.commit.templates[i].1);
            }
            assert(self@[i as int].name != name@);
            i += 1;
        }
        Err(UserInputError::InvalidCommand { name: name.to_owned() })
    }

    /// The configuration in effect: the file given for this invocation,
    /// else the file in the repository, else the active registered
    /// configuration, else the built-in one. A file that was given and is
    /// not there is a failure that names its path; nothing else is tried
    /// in its place.
    pub fn get_config_path(
        user_config: Option<Located>,
        repo_config: Located,
        active: Option<Config>,
        default_path: String,
    ) -> (chosen: Result<Config, InvalidPath>)
        ensures
            match config_in_effect(user_config, repo_config, active, default_path) {
                Some(config) => chosen == Ok::<Config, InvalidPath>(config),
                None => chosen == Err::<Config, InvalidPath>(
                    InvalidPath { path: user_config->0.path },
                ),
            },
    {
        match user_config {
            Some(user) => {
                if user.exists {
                    Ok(Config::new(ConfigKey::Once, user.path, ConfigStatus::Active))
                } else {
                    Err(InvalidPath { path: user.path })
                }
            },
            None => {
                if repo_config.exists {
                    Ok(Config::new(ConfigKey::Local, repo_config.path, ConfigStatus::Active))
                } else {
                    match active {
                        Some(config) => Ok(config),
                        None => Ok(
                            Config::new(ConfigKey::Default, default_path, ConfigStatus::Active),
                        ),
                    }
                }
            },
        }
    }
}

} // verus!
