use git_kit::domain::errors::{
    framed, joined, Errors, GitError, LookupError, PersistError, UserInputError,
};

#[test]
fn git_errors_are_worded() {
    assert_eq!(GitError::Read.to_string(), "Failed to read a git provided value");
    assert_eq!(GitError::Write.to_string(), "Failed to write to git");
}

#[test]
fn user_input_errors_are_worded_with_the_name_in_quotes() {
    assert_eq!(
        UserInputError::Required { name: "template".into() }.to_string(),
        "error: 'template' is required"
    );
    assert_eq!(
        UserInputError::InvalidCommand { name: "chore".into() }.to_string(),
        "Invalid command \"chore\" found"
    );
    assert_eq!(UserInputError::Cancelled.to_string(), "Input prompt cancelled by user");
    assert_eq!(
        UserInputError::Validation { name: "config path".into() }.to_string(),
        "Invalid user input \"config path\" found"
    );
}

#[test]
fn names_are_quoted_as_debug_quotes_them() {
    let name = "a \"b\"\n\\c";

    assert_eq!(
        UserInputError::InvalidCommand { name: name.into() }.to_string(),
        format!("Invalid command {:?} found", name)
    );
    assert_eq!(
        PersistError::Validation { name: name.into() }.to_string(),
        format!("Failed to persist or retrieve {:?}", name)
    );
}

#[test]
fn persist_errors_are_worded() {
    assert_eq!(PersistError::Configuration.to_string(), "Invalid store configuration");
    assert_eq!(
        PersistError::Corrupted { name: "config".into() }.to_string(),
        "Persisted \"config\" has been corrupted or is out of date"
    );
    assert_eq!(
        PersistError::NotFound { name: "config".into() }.to_string(),
        "Requested config not found in persisted store"
    );
    assert_eq!(
        PersistError::Validation { name: "branch".into() }.to_string(),
        "Failed to persist or retrieve \"branch\""
    );
    assert_eq!(
        PersistError::Unknown.to_string(),
        "Unknown error occurred while connecting persisted store"
    );
}

#[test]
fn errors_are_worded_as_what_is_inside_them() {
    assert_eq!(Errors::Git(GitError::Write).to_string(), "Failed to write to git");
    assert_eq!(
        Errors::UserInput(UserInputError::Cancelled).to_string(),
        "Input prompt cancelled by user"
    );
    assert_eq!(
        Errors::Configuration { message: "no file".into() }.to_string(),
        "Invalid Configuration: no file"
    );
    assert_eq!(
        Errors::PersistError(PersistError::NotFound { name: "branch".into() }).to_string(),
        "Requested branch not found in persisted store"
    );
    assert_eq!(
        Errors::ValidationError { message: "anything".into() }.to_string(),
        "Validation error"
    );
}

#[test]
fn lookup_errors_are_worded() {
    assert_eq!(LookupError::NoRows.to_string(), "Query returned no rows");
    assert_eq!(LookupError::NoRows.to_string(), rusqlite::Error::QueryReturnedNoRows.to_string());
    assert_eq!(
        LookupError::Store(PersistError::Unknown).to_string(),
        "Unknown error occurred while connecting persisted store"
    );
}

#[test]
fn texts_are_put_in_a_row() {
    assert_eq!(joined("a", "b"), "ab");
    assert_eq!(joined("", ""), "");
    assert_eq!(framed("a", "b", "c"), "abc");
    assert_eq!(framed("", "é", ""), "é");
}
