//! The failures that the commands report, and how they are worded.

use vstd::prelude::*;
use vstd::string::StringExecFns;

verus! {

/// A failure while talking to git.
#[derive(Debug, Clone, Copy, PartialEq, Eq, Structural)]
pub enum GitError {
    /// A value that git provides could not be read.
    Read,
    /// Git refused a change.
    Write,
}

/// A failure caused by what the user typed, or left out.
#[derive(Debug, Clone, PartialEq, Eq)]
pub enum UserInputError {
    /// A required value is missing and cannot be asked for.
    Required { name: String },
    /// The named command or template does not exist.
    InvalidCommand { name: String },
    /// The user left a prompt without answering.
    Cancelled,
    /// The value given for `name` is not acceptable.
    Validation { name: String },
}

/// A failure of the persisted store.
#[derive(Debug, Clone, PartialEq, Eq)]
pub enum PersistError {
    /// The store could not be opened or is set up wrongly.
    Configuration,
    /// A stored row of `name` cannot be decoded.
    Corrupted { name: String },
    /// No row of `name` answers the request.
    NotFound { name: String },
    /// A value of `name` was refused on its way in or out.
    Validation { name: String },
    /// Anything else the store reported.
    Unknown,
}

/// Why the record of a branch was not handed over.
#[derive(Debug, Clone, PartialEq, Eq)]
pub enum LookupError {
    /// The store holds no record of the branch.
    NoRows,
    /// The store failed.
    Store(PersistError),
}

/// Every failure a command can end with.
#[derive(Debug, Clone, PartialEq, Eq)]
pub enum Errors {
    Git(GitError),
    UserInput(UserInputError),
    Configuration { message: String },
    PersistError(PersistError),
    ValidationError { message: String },
}

/// `text` as `std`'s `Debug` writes a string: between double quotes, with
/// the characters escaped that need it.
pub uninterp spec fn debug_text(text: Seq<char>) -> Seq<char>;

/// `std`'s `Debug` formatting of a string slice.
#[verifier::external_body]
fn quote(text: &str) -> (quoted: String)
    ensures
        quoted@ == debug_text(text@),
{
    format!("{:?}", text)
}

/// `rusqlite::Error::QueryReturnedNoRows` in words: what rusqlite's
/// `Display` writes for a query without rows.
#[verifier::external_body]
fn no_rows() -> (text: String)
    ensures
        text@ == "Query returned no rows"@,
{
    rusqlite::Error::QueryReturnedNoRows.to_string()
}

/// The two texts in a row.
pub fn joined(before: &str, after: &str) -> (text: String)
    ensures
        text@ == before@ + after@,
{
    let mut text = before.to_owned();
    text.append(after);
    text
}

/// The three texts in a row.
pub fn framed(before: &str, middle: &str, after: &str) -> (text: String)
    ensures
        text@ == before@ + middle@ + after@,
{
    let mut text = before.to_owned();
    text.append(middle);
    text.append(after);
    text
}

/// How a failure of git is worded.
pub open spec fn git_message(error: GitError) -> Seq<char> {
    match error {
        GitError::Read => "Failed to read a git provided value"@,
        GitError::Write => "Failed to write to git"@,
    }
}

/// How a failure of the user's input is worded. A value that is required
/// and missing is named between single quotes as it is; the other names
/// stand between double quotes.
pub open spec fn input_message(error: UserInputError) -> Seq<char> {
    match error {
        UserInputError::Required { name } => "error: '"@ + name@ + "' is required"@,
        UserInputError::InvalidCommand { name } => "Invalid command "@ + debug_text(name@)
            + " found"@,
        UserInputError::Cancelled => "Input prompt cancelled by user"@,
        UserInputError::Validation { name } => "Invalid user input "@ + debug_text(name@)
            + " found"@,
    }
}

/// How a failure of the store is worded; the name stands between double
/// quotes, but for a row that was not found.
pub open spec fn persist_message(error: PersistError) -> Seq<char> {
    match error {
        PersistError::Configuration => "Invalid store configuration"@,
        PersistError::Corrupted { name } => "Persisted "@ + debug_text(name@)
            + " has been corrupted or is out of date"@,
        PersistError::NotFound { name } => "Requested "@ + name@
            + " not found in persisted store"@,
        PersistError::Validation { name } => "Failed to persist or retrieve "@ + debug_text(name@),
        PersistError::Unknown => "Unknown error occurred while connecting persisted store"@,
    }
}

/// How a failed lookup is worded: a record that is not there in the
/// database's words, a failure of the store in its own.
pub open spec fn lookup_message(error: LookupError) -> Seq<char> {
    match error {
        LookupError::NoRows => "Query returned no rows"@,
        LookupError::Store(inner) => persist_message(inner),
    }
}

/// How a failure is worded: as the failure inside it, where there is one.
pub open spec fn message(error: Errors) -> Seq<char> {
    match error {
        Errors::Git(inner) => git_message(inner),
        Errors::UserInput(inner) => input_message(inner),
        Errors::Configuration { message } => "Invalid Configuration: "@ + message@,
        Errors::PersistError(inner) => persist_message(inner),
        Errors::ValidationError { message } => "Validation error"@,
    }
}

impl GitError {
    /// The failure in words.
    pub fn to_string(&self) -> (text: String)
        ensures
            text@ == git_message(*self),
    {
        match self {
            GitError::Read => "Failed to read a git provided value".to_owned(),
            GitError::Write => "Failed to write to git".to_owned(),
        }
    }
}

impl UserInputError {
    /// The failure in words.
    pub fn to_string(&self) -> (text: String)
        ensures
            text@ == input_message(*self),
    {
        match self {
            UserInputError::Required { name } => framed(
                "error: '",
                name.as_str(),
                "' is required",
            ),
            UserInputError::InvalidCommand { name } => framed(
                "Invalid command ",
                quote(name.as_str()).as_str(),
                " found",
            ),
            UserInputError::Cancelled => "Input prompt cancelled by user".to_owned(),
            UserInputError::Validation { name } => framed(
                "Invalid user input ",
                quote(name.as_str()).as_str(),
                " found",
            ),
        }
    }
}

impl PersistError {
    /// The failure in words, names between double quotes where the
    /// wording quotes them.
    pub fn to_string(&self) -> (text: String)
        ensures
            text@ == persist_message(*self),
    {
        match self {
            PersistError::Configuration => "Invalid store configuration".to_owned(),
            PersistError::Corrupted { name } => framed(
                "Persisted ",
                quote(name.as_str()).as_str(),
                " has been corrupted or is out of date",
            ),
            PersistError::NotFound { name } => framed(
                "Requested ",
                name.as_str(),
                " not found in persisted store",
            ),
            PersistError::Validation { name } => joined(
                "Failed to persist or retrieve ",
                quote(name.as_str()).as_str(),
            ),
            PersistError::Unknown => "Unknown error occurred while connecting persisted store"
                .to_owned(),
        }
    }
}

impl LookupError {
    /// The failure in words.
    pub fn to_string(&self) -> (text: String)
        ensures
            text@ == lookup_message(*self),
    {
        match self {
            LookupError::NoRows => no_rows(),
            LookupError::Store(inner) => inner.to_string(),
        }
    }
}

impl Errors {
    /// The failure in words: those of the failure inside, where there is
    /// one.
    pub fn to_string(&self) -> (text: String)
        ensures
            text@ == message(*self),
    {
        match self {
            Errors::Git(inner) => inner.to_string(),
            Errors::UserInput(inner) => inner.to_string(),
            Errors::Configuration { message } => joined(
                "Invalid Configuration: ",
                message.as_str(),
            ),
            Errors::PersistError(inner) => inner.to_string(),
            Errors::ValidationError { .. } => "Validation error".to_owned(),
        }
    }
}

} // verus!
