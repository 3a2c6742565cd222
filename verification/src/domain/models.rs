//! The records that are kept between invocations.

use vstd::prelude::*;

use crate::domain::keyed::Keyed;
use crate::utils::string::{from_chars, same_text, text_of, to_chars, trim, trimmed};

verus! {

/// A moment: whole seconds since 1970-01-01 00:00:00 UTC, and the
/// nanoseconds past that second.
#[derive(Debug, Clone, Copy, PartialEq, Eq, Structural)]
pub struct Timestamp {
    pub secs: i64,
    pub nanos: u32,
}

/// The moment that chrono reads out of an RFC 3339 text, if it reads one.
pub uninterp spec fn rfc3339_moment(text: Seq<char>) -> Option<(i64, u32)>;

/// The RFC 3339 text that chrono writes for a moment, if it can hold it.
pub uninterp spec fn rfc3339_text(secs: i64, nanos: u32) -> Option<Seq<char>>;

impl Timestamp {
    /// The moment as the pair that the texts are named by.
    pub open spec fn pair(&self) -> (i64, u32) {
        (self.secs, self.nanos)
    }

    /// `chrono::Utc::now`: the clock's reading, of which nothing is known
    /// beforehand. chrono takes the clock to be set to 1970 or later.
    #[verifier::external_body]
    pub(crate) fn now() -> Timestamp {
        let moment = chrono::Utc::now();
        Timestamp { secs: moment.timestamp(), nanos: moment.timestamp_subsec_nanos() }
    }

    /// `chrono::DateTime::parse_from_rfc3339`: the moment `text` denotes,
    /// in seconds and nanoseconds since 1970 UTC, or nothing where chrono
    /// rejects the text.
    #[verifier::external_body]
    pub(crate) fn parse(text: &str) -> (moment: Option<Timestamp>)
        ensures
            rfc3339_moment(text@) == match moment {
                Some(at) => Some(at.pair()),
                None => None,
            },
    {
        match chrono::DateTime::parse_from_rfc3339(text) {
            Ok(at) => Some(Timestamp { secs: at.timestamp(), nanos: at.timestamp_subsec_nanos() }),
            Err(_) => None,
        }
    }

    /// `chrono::DateTime::to_rfc3339` on the UTC date and time that
    /// `chrono::DateTime::from_timestamp` makes of the moment, or nothing
    /// where the moment is outside the dates that chrono can hold.
    #[verifier::external_body]
    pub(crate) fn format(&self) -> (text: Option<String>)
        ensures
            text_of(text) == rfc3339_text(self.secs, self.nanos),
    {
        match chrono::DateTime::from_timestamp(self.secs, self.nanos) {
            Some(at) => Some(at.to_rfc3339()),
            None => None,
        }
    }
}

/// What is remembered of a branch.
#[derive(Debug, Clone, PartialEq, Eq)]
pub struct Branch {
    /// The composite key: repository name, a hyphen, branch name.
    pub name: String,
    pub ticket: Option<String>,
    pub data: Option<Vec<u8>>,
    pub created: Timestamp,
    pub link: Option<String>,
    pub scope: Option<String>,
}

/// A branch record as a mathematical value.
pub struct BranchView {
    pub name: Seq<char>,
    pub ticket: Option<Seq<char>>,
    pub data: Option<Seq<u8>>,
    pub created: Timestamp,
    pub link: Option<Seq<char>>,
    pub scope: Option<Seq<char>>,
}

impl Keyed for BranchView {
    open spec fn key(&self) -> Seq<char> {
        self.name
    }
}

impl View for Branch {
    type V = BranchView;

    open spec fn view(&self) -> BranchView {
        BranchView {
            name: self.name@,
            ticket: text_of(self.ticket),
            data: match self.data {
                Some(bytes) => Some(bytes@),
                None => None,
            },
            created: self.created,
            link: text_of(self.link),
            scope: text_of(self.scope),
        }
    }
}

/// The key under which the branch `branch` of the repository `repo` is
/// stored: both names trimmed, with a hyphen between them.
pub open spec fn branch_key(repo: Seq<char>, branch: Seq<char>) -> Seq<char> {
    trim(repo) + seq!['-'] + trim(branch)
}

/// The record that a checkout of `name` in `repo` at the moment `created`
/// leaves: where no ticket is given, the branch's name stands for it.
pub open spec fn new_branch(
    created: Timestamp,
    name: Seq<char>,
    repo: Seq<char>,
    ticket: Option<Seq<char>>,
    link: Option<Seq<char>>,
    scope: Option<Seq<char>>,
) -> BranchView {
    BranchView {
        name: branch_key(repo, name),
        ticket: match ticket {
            Some(given) => Some(given),
            None => Some(name),
        },
        data: None,
        created,
        link,
        scope,
    }
}

/// A copy of an optional string.
pub fn copy_text(value: &Option<String>) -> (copy: Option<String>)
    ensures
        copy == *value,
{
    match value {
        Some(text) => Some(text.clone()),
        None => None,
    }
}

impl Branch {
    /// The key under which the branch `branch` of the repository `repo` is
    /// stored.
    pub fn key(repo: &str, branch: &str) -> (key: String)
        ensures
            key@ == branch_key(repo@, branch@),
    {
        let mut chars = trimmed(&to_chars(repo));
        chars.push('-');
        let mut rest = trimmed(&to_chars(branch));
        chars.append(&mut rest);
        from_chars(&chars)
    }

    /// The record of the branch `name` of `repo`, made at the moment
    /// `created`.
    pub fn at(
        created: Timestamp,
        name: &str,
        repo: &str,
        ticket: Option<String>,
        link: Option<String>,
        scope: Option<String>,
    ) -> (branch: Branch)
        ensures
            branch@ == new_branch(
                created,
                name@,
                repo@,
                text_of(ticket),
                text_of(link),
                text_of(scope),
            ),
    {
        let ticket = match ticket {
            Some(given) => given,
            None => name.to_owned(),
        };
        Branch { name: Self::key(repo, name), ticket: Some(ticket), data: None, created, link, scope }
    }

    /// The record of the branch `name` of `repo`, made now.
    pub fn new(
        name: &str,
        repo: &str,
        ticket: Option<String>,
        link: Option<String>,
        scope: Option<String>,
    ) -> (branch: Branch)
        ensures
            branch@ == new_branch(
                branch.created,
                name@,
                repo@,
                text_of(ticket),
                text_of(link),
                text_of(scope),
            ),
    {
        Self::at(Timestamp::now(), name, repo, ticket, link, scope)
    }

    /// A record equal to this one.
    pub fn duplicate(&self) -> (copy: Branch)
        ensures
            copy@ == self@,
    {
        Branch {
            name: self.name.clone(),
            ticket: copy_text(&self.ticket),
            data: match &self.data {
                Some(bytes) => Some(bytes.clone()),
                None => None,
            },
            created: self.created,
            link: copy_text(&self.link),
            scope: copy_text(&self.scope),
        }
    }
}

/// Whether a registered configuration is the one in effect.
#[derive(Debug, Clone, Copy, PartialEq, Eq, Structural)]
pub enum ConfigStatus {
    Active,
    Disabled,
}

/// The four kinds of key, without the name a user gave.
#[derive(Debug, Clone, Copy, PartialEq, Eq, Structural)]
pub enum ConfigKeyKind {
    Default,
    User,
    Local,
    Once,
}

/// The name under which a configuration is registered.
#[derive(Debug, Clone, PartialEq, Eq)]
pub enum ConfigKey {
    /// The built-in configuration.
    Default,
    /// A configuration the user registered under a name of their own.
    User(String),
    /// The configuration file found in the repository.
    Local,
    /// A configuration file given for one invocation only.
    Once,
}

/// The kind of key that the stored text `name` stands for.
pub open spec fn kind_of_name(name: Seq<char>) -> ConfigKeyKind {
    if name == "once"@ {
        ConfigKeyKind::Once
    } else if name == "default"@ {
        ConfigKeyKind::Default
    } else if name == "local"@ {
        ConfigKeyKind::Local
    } else {
        ConfigKeyKind::User
    }
}

impl ConfigKey {
    /// The text under which the key is stored.
    pub open spec fn name(&self) -> Seq<char> {
        match self {
            ConfigKey::Default => "default"@,
            ConfigKey::User(name) => name@,
            ConfigKey::Local => "local"@,
            ConfigKey::Once => "once"@,
        }
    }

    /// Which of the four kinds this key is.
    pub open spec fn kind(&self) -> ConfigKeyKind {
        match self {
            ConfigKey::Default => ConfigKeyKind::Default,
            ConfigKey::User(_) => ConfigKeyKind::User,
            ConfigKey::Local => ConfigKeyKind::Local,
            ConfigKey::Once => ConfigKeyKind::Once,
        }
    }

    /// The text under which the key is stored.
    pub fn to_name(&self) -> (name: String)
        ensures
            name@ == self.name(),
    {
        match self {
            ConfigKey::Default => "default".to_owned(),
            ConfigKey::User(name) => name.clone(),
            ConfigKey::Local => "local".to_owned(),
            ConfigKey::Once => "once".to_owned(),
        }
    }

    /// The key that the stored text `name` stands for: one of the three
    /// reserved words, or else a user's own name.
    pub fn from_name(name: String) -> (key: ConfigKey)
        ensures
            key.name() == name@,
            key.kind() == kind_of_name(name@),
    {
        if same_text(name.as_str(), "once") {
            ConfigKey::Once
        } else if same_text(name.as_str(), "default") {
            ConfigKey::Default
        } else if same_text(name.as_str(), "local") {
            ConfigKey::Local
        } else {
            ConfigKey::User(name)
        }
    }

    /// Whether this is the built-in configuration's key.
    pub fn is_default(&self) -> (yes: bool)
        ensures
            yes == (self.kind() == ConfigKeyKind::Default),
    {
        match self {
            ConfigKey::Default => true,
            _ => false,
        }
    }

    /// A key equal to this one.
    pub fn duplicate(&self) -> (copy: ConfigKey)
        ensures
            copy == *self,
    {
        match self {
            ConfigKey::Default => ConfigKey::Default,
            ConfigKey::User(name) => ConfigKey::User(name.clone()),
            ConfigKey::Local => ConfigKey::Local,
            ConfigKey::Once => ConfigKey::Once,
        }
    }
}

/// The text that stands for a status in a stored row.
pub open spec fn status_text(status: ConfigStatus) -> Seq<char> {
    match status {
        ConfigStatus::Active => "ACTIVE"@,
        ConfigStatus::Disabled => "DISABLED"@,
    }
}

/// The status that a stored text stands for, if it stands for one.
pub open spec fn status_of_text(text: Seq<char>) -> Option<ConfigStatus> {
    if text == "ACTIVE"@ {
        Some(ConfigStatus::Active)
    } else if text == "DISABLED"@ {
        Some(ConfigStatus::Disabled)
    } else {
        None
    }
}

/// A status that was written as text is the status that is read from it.
pub proof fn law_status_is_read_as_written(status: ConfigStatus)
    ensures
        status_of_text(status_text(status)) == Some(status),
{
    reveal_strlit("ACTIVE");
    reveal_strlit("DISABLED");
    assert("ACTIVE"@.len() != "DISABLED"@.len());
}

/// A key that was written as its name is read as a key of the same name;
/// and as a key of the same kind, unless a user's key bears one of the
/// three reserved names.
pub proof fn law_key_is_read_as_written(key: ConfigKey)
    ensures
        key.kind() != ConfigKeyKind::User ==> kind_of_name(key.name()) == key.kind(),
        key.kind() == ConfigKeyKind::User && key.name() != "once"@ && key.name() != "default"@
            && key.name() != "local"@ ==> kind_of_name(key.name()) == ConfigKeyKind::User,
{
    reveal_strlit("once");
    reveal_strlit("default");
    reveal_strlit("local");
    assert("once"@.len() == 4 && "default"@.len() == 7 && "local"@.len() == 5);
}

impl ConfigStatus {
    /// The text that stands for the status in a stored row.
    pub fn to_text(self) -> (text: String)
        ensures
            text@ == status_text(self),
    {
        match self {
            ConfigStatus::Active => "ACTIVE".to_owned(),
            ConfigStatus::Disabled => "DISABLED".to_owned(),
        }
    }

    /// The status that a stored text stands for; any text but the two
    /// known ones stands for none.
    pub fn from_text(text: &str) -> (status: Option<ConfigStatus>)
        ensures
            status == status_of_text(text@),
    {
        if same_text(text, "ACTIVE") {
            Some(ConfigStatus::Active)
        } else if same_text(text, "DISABLED") {
            Some(ConfigStatus::Disabled)
        } else {
            None
        }
    }
}

/// A registered configuration file.
#[derive(Debug, Clone, PartialEq, Eq)]
pub struct Config {
    pub key: ConfigKey,
    pub path: String,
    pub status: ConfigStatus,
}

/// A configuration as a mathematical value: its key by its name and its
/// kind, its path and its status.
pub struct ConfigView {
    pub key: Seq<char>,
    pub kind: ConfigKeyKind,
    pub path: Seq<char>,
    pub status: ConfigStatus,
}

impl Keyed for ConfigView {
    open spec fn key(&self) -> Seq<char> {
        self.key
    }
}

impl View for Config {
    type V = ConfigView;

    open spec fn view(&self) -> ConfigView {
        ConfigView {
            key: self.key.name(),
            kind: self.key.kind(),
            path: self.path@,
            status: self.status,
        }
    }
}

impl Config {
    /// The configuration of the file at `path`. That a file is there is
    /// for the caller to make sure of.
    pub fn new(key: ConfigKey, path: String, status: ConfigStatus) -> (config: Config)
        ensures
            config.key == key,
            config.path == path,
            config.status == status,
    {
        Config { key, path, status }
    }

    /// A configuration equal to this one.
    pub fn duplicate(&self) -> (copy: Config)
        ensures
            copy == *self,
    {
        Config { key: self.key.duplicate(), path: self.path.clone(), status: self.status }
    }
}

} // verus!
