//! Rows as the embedded database hands them over, and what its failures
//! mean for the store.

use vstd::prelude::*;

use crate::domain::errors::PersistError;
use crate::domain::models::{
    copy_text, kind_of_name, rfc3339_moment, rfc3339_text, status_of_text, Branch, BranchView,
    Config, ConfigKey, ConfigStatus, Timestamp,
};
use crate::utils::string::text_of;

verus! {

/// What the database reported when a statement failed.
#[derive(Debug, Clone, Copy, PartialEq, Eq, Structural)]
pub enum StoreFailure {
    SqliteFailure,
    SqliteSingleThreadedMode,
    FromSqlConversionFailure,
    IntegralValueOutOfRange,
    Utf8Error,
    NulError,
    InvalidParameterName,
    InvalidPath,
    ExecuteReturnedResults,
    QueryReturnedNoRows,
    InvalidColumnIndex,
    InvalidColumnName,
    InvalidColumnType,
    StatementChangedRows,
    ToSqlConversionFailure,
    InvalidQuery,
    MultipleStatement,
    InvalidParameterCount,
    SqlInputError,
    /// A failure that the other variants do not name.
    Other,
}

/// The four ways in which a failed statement counts against the store, and
/// `Unknown` for the rest.
#[derive(Debug, Clone, Copy, PartialEq, Eq, Structural)]
pub enum FailureClass {
    Configuration,
    Validation,
    NotFound,
    Corrupted,
    Unknown,
}

/// How a failure of the database counts: a path it cannot use is a matter
/// of configuration; a statement it cannot run as written, of validation;
/// a query without rows, of absence; a value it cannot hand over as asked,
/// of corruption.
pub open spec fn class_of(failure: StoreFailure) -> FailureClass {
    match failure {
        StoreFailure::InvalidPath => FailureClass::Configuration,
        StoreFailure::ExecuteReturnedResults
        | StoreFailure::SqliteSingleThreadedMode
        | StoreFailure::StatementChangedRows
        | StoreFailure::MultipleStatement
        | StoreFailure::IntegralValueOutOfRange
        | StoreFailure::InvalidQuery
        | StoreFailure::NulError
        | StoreFailure::Utf8Error
        | StoreFailure::ToSqlConversionFailure => FailureClass::Validation,
        StoreFailure::QueryReturnedNoRows => FailureClass::NotFound,
        StoreFailure::FromSqlConversionFailure
        | StoreFailure::InvalidParameterCount
        | StoreFailure::InvalidColumnIndex
        | StoreFailure::InvalidParameterName
        | StoreFailure::InvalidColumnName
        | StoreFailure::InvalidColumnType
        | StoreFailure::SqlInputError => FailureClass::Corrupted,
        StoreFailure::SqliteFailure | StoreFailure::Other => FailureClass::Unknown,
    }
}

/// The store's error of the class `class` about the rows called `name`.
pub open spec fn is_error_of(error: PersistError, class: FailureClass, name: Seq<char>) -> bool {
    match class {
        FailureClass::Configuration => error is Configuration,
        FailureClass::Validation => error matches PersistError::Validation { name: about }
            && about@ == name,
        FailureClass::NotFound => error matches PersistError::NotFound { name: about } && about@
            == name,
        FailureClass::Corrupted => error matches PersistError::Corrupted { name: about }
            && about@ == name,
        FailureClass::Unknown => error is Unknown,
    }
}

impl PersistError {
    /// The store's error for a failure of the database while it worked on
    /// the rows called `name`.
    pub fn into(name: &str, failure: StoreFailure) -> (error: PersistError)
        ensures
            is_error_of(error, class_of(failure), name@),
    {
        match failure {
            StoreFailure::InvalidPath => PersistError::Configuration,
            StoreFailure::ExecuteReturnedResults
            | StoreFailure::SqliteSingleThreadedMode
            | StoreFailure::StatementChangedRows
            | StoreFailure::MultipleStatement
            | StoreFailure::IntegralValueOutOfRange
            | StoreFailure::InvalidQuery
            | StoreFailure::NulError
            | StoreFailure::Utf8Error
            | StoreFailure::ToSqlConversionFailure => PersistError::Validation {
                name: name.to_owned(),
            },
            StoreFailure::QueryReturnedNoRows => PersistError::NotFound { name: name.to_owned() },
            StoreFailure::FromSqlConversionFailure
            | StoreFailure::InvalidParameterCount
            | StoreFailure::InvalidColumnIndex
            | StoreFailure::InvalidParameterName
            | StoreFailure::InvalidColumnName
            | StoreFailure::InvalidColumnType
            | StoreFailure::SqlInputError => PersistError::Corrupted { name: name.to_owned() },
            StoreFailure::SqliteFailure | StoreFailure::Other => PersistError::Unknown,
        }
    }
}

/// A row of the table `config` as it was read.
#[derive(Debug, Clone, PartialEq, Eq)]
pub struct ConfigRow {
    pub key: String,
    /// The stored path made absolute, or nothing where no file is there.
    pub path: Option<String>,
    pub status: String,
}

/// A row of the table `branch` as it is written and read.
#[derive(Debug, Clone, PartialEq, Eq)]
pub struct BranchRow {
    pub name: String,
    pub ticket: Option<String>,
    pub data: Option<Vec<u8>>,
    /// The moment of creation as an RFC 3339 text.
    pub created: String,
    pub link: Option<String>,
    pub scope: Option<String>,
}

/// The status and the path of the configuration that the row holds, or
/// how the row fails: first by a status that is neither of the two known
/// texts, then by a path without a file.
pub open spec fn config_of_row(row: ConfigRow) -> Result<(ConfigStatus, Seq<char>), StoreFailure> {
    match status_of_text(row.status@) {
        None => Err(StoreFailure::InvalidColumnType),
        Some(status) => match row.path {
            None => Err(StoreFailure::ExecuteReturnedResults),
            Some(path) => Ok((status, path@)),
        },
    }
}

impl Config {
    /// The configuration that a row holds. A status that is neither of the
    /// two known texts fails as `InvalidColumnType`; after that, a path
    /// without a file fails as `ExecuteReturnedResults`.
    pub fn try_from(row: ConfigRow) -> (read: Result<Config, StoreFailure>)
        ensures
            match config_of_row(row) {
                Ok((status, path)) => {
                    &&& read matches Ok(config)
                    &&& config.key.name() == row.key@
                    &&& config.key.kind() == kind_of_name(row.key@)
                    &&& config.path@ == path
                    &&& config.status == status
                },
                Err(failure) => read == Err::<Config, StoreFailure>(failure),
            },
    {
        let status = match ConfigStatus::from_text(row.status.as_str()) {
            Some(status) => status,
            None => {
                return Err(StoreFailure::InvalidColumnType);
            },
        };
        match row.path {
            Some(path) => Ok(Config::new(ConfigKey::from_name(row.key), path, status)),
            None => Err(StoreFailure::ExecuteReturnedResults),
        }
    }
}

/// The configurations that rows hold, in the rows' order, if every row
/// holds one.
pub open spec fn configs_of_rows(rows: Seq<ConfigRow>, configs: Seq<Config>) -> bool {
    &&& configs.len() == rows.len()
    &&& forall|i: int|
        0 <= i < rows.len() ==> {
            &&& config_of_row(#[trigger] rows[i]) == Ok::<(ConfigStatus, Seq<char>), StoreFailure>(
                (configs[i].status, configs[i].path@),
            )
            &&& configs[i].key.name() == rows[i].key@
            &&& configs[i].key.kind() == kind_of_name(rows[i].key@)
        }
}

/// The configurations that the rows hold, in the rows' order. If any row
/// holds none, the table counts as corrupted.
pub fn read_configs(rows: Vec<ConfigRow>) -> (read: Result<Vec<Config>, PersistError>)
    ensures
        match read {
            Ok(configs) => configs_of_rows(rows@, configs@),
            Err(error) => {
                &&& exists|i: int| 0 <= i < rows.len() && config_of_row(#[trigger] rows[i]) is Err
                &&& error matches PersistError::Corrupted { name }
                &&& name@ == "config"@
            },
        },
{
    let mut configs: Vec<Config> = Vec::new();
    let mut i: usize = 0;
    while i < rows.len()
        invariant
            i <= rows.len(),
            configs_of_rows(rows@.take(i as int), configs@),
        decreases rows.len() - i,
    {
        let row = ConfigRow {
            key: rows[i].key.clone(),
            path: copy_text(&rows[i].path),
            status: rows[i].status.clone(),
        };
        assert(config_of_row(row) == config_of_row(rows[i as int]));
        match Config::try_from(row) {
            Ok(config) => {
                let ghost done = configs@;
                configs.push(config);
                assert forall|j: int| 0 <= j < i + 1 implies {
                    &&& config_of_row(#[trigger] rows@.take(i + 1)[j]) == Ok::<
                        (ConfigStatus, Seq<char>),
                        StoreFailure,
                    >((configs[j].status, configs[j].path@))
                    &&& configs[j].key.name() == rows@.take(i + 1)[j].key@
                    &&& configs[j].key.kind() == kind_of_name(rows@.take(i + 1)[j].key@)
                } by {
                    if j < i {
                        assert(rows@.take(i as int)[j] == rows[j]);
                        assert(configs[j] == done[j]);
                    }
                }
            },
            Err(_) => {
                return Err(PersistError::Corrupted { name: "config".to_owned() });
            },
        }
        i += 1;
    }
    assert(rows@.take(rows.len() as int) == rows@);
    Ok(configs)
}

/// A branch row as a mathematical value.
pub struct BranchRowView {
    pub name: Seq<char>,
    pub ticket: Option<Seq<char>>,
    pub data: Option<Seq<u8>>,
    pub created: Seq<char>,
    pub link: Option<Seq<char>>,
    pub scope: Option<Seq<char>>,
}

impl View for BranchRow {
    type V = BranchRowView;

    open spec fn view(&self) -> BranchRowView {
        BranchRowView {
            name: self.name@,
            ticket: text_of(self.ticket),
            data: match self.data {
                Some(bytes) => Some(bytes@),
                None => None,
            },
            created: self.created@,
            link: text_of(self.link),
            scope: text_of(self.scope),
        }
    }
}

/// The record that the row `row` holds when `moment` is what its text of
/// creation denotes: none where the text denotes no moment.
pub open spec fn branch_of_row(row: BranchRowView, moment: Option<(i64, u32)>) -> Option<
    BranchView,
> {
    match moment {
        Some((secs, nanos)) => Some(
            BranchView {
                name: row.name,
                ticket: row.ticket,
                data: row.data,
                created: Timestamp { secs, nanos },
                link: row.link,
                scope: row.scope,
            },
        ),
        None => None,
    }
}

/// The row that holds the record `branch` when `text` is how its moment of
/// creation is written: none where the moment cannot be written.
pub open spec fn row_of_branch(branch: BranchView, text: Option<Seq<char>>) -> Option<
    BranchRowView,
> {
    match text {
        Some(created) => Some(
            BranchRowView {
                name: branch.name,
                ticket: branch.ticket,
                data: branch.data,
                created,
                link: branch.link,
                scope: branch.scope,
            },
        ),
        None => None,
    }
}

/// What `read` says, as a mathematical value.
pub open spec fn read_view(read: Result<Branch, StoreFailure>) -> Option<BranchView> {
    match read {
        Ok(branch) => Some(branch@),
        Err(_) => None,
    }
}

/// What `written` says, as a mathematical value.
pub open spec fn written_view(written: Result<BranchRow, StoreFailure>) -> Option<BranchRowView> {
    match written {
        Ok(row) => Some(row@),
        Err(_) => None,
    }
}

impl Branch {
    /// The record that `row` holds, given the moment that was read out of
    /// its text of creation. Without a moment the row fails as
    /// `InvalidColumnType`.
    pub fn from_row(row: BranchRow, moment: Option<Timestamp>) -> (read: Result<
        Branch,
        StoreFailure,
    >)
        ensures
            read_view(read) == branch_of_row(
                row@,
                match moment {
                    Some(at) => Some(at.pair()),
                    None => None,
                },
            ),
            read matches Err(failure) ==> failure == StoreFailure::InvalidColumnType,
    {
        match moment {
            Some(created) => Ok(
                Branch {
                    name: row.name,
                    ticket: row.ticket,
                    data: row.data,
                    created,
                    link: row.link,
                    scope: row.scope,
                },
            ),
            None => Err(StoreFailure::InvalidColumnType),
        }
    }

    /// The record that `row` holds. A text of creation that is not an
    /// RFC 3339 date and time fails as `InvalidColumnType`.
    pub fn try_from(row: BranchRow) -> (read: Result<Branch, StoreFailure>)
        ensures
            read_view(read) == branch_of_row(row@, rfc3339_moment(row.created@)),
            read matches Err(failure) ==> failure == StoreFailure::InvalidColumnType,
    {
        let moment = Timestamp::parse(row.created.as_str());
        Self::from_row(row, moment)
    }

    /// The row that holds this record, given how its moment of creation is
    /// written. Without such a text the record fails as
    /// `ToSqlConversionFailure`.
    pub fn to_row(&self, created: Option<String>) -> (written: Result<BranchRow, StoreFailure>)
        ensures
            written_view(written) == row_of_branch(self@, text_of(created)),
            written matches Err(failure) ==> failure == StoreFailure::ToSqlConversionFailure,
    {
        match created {
            Some(created) => Ok(
                BranchRow {
                    name: self.name.clone(),
                    ticket: copy_text(&self.ticket),
                    data: match &self.data {
                        Some(bytes) => Some(bytes.clone()),
                        None => None,
                    },
                    created,
                    link: copy_text(&self.link),
                    scope: copy_text(&self.scope),
                },
            ),
            None => Err(StoreFailure::ToSqlConversionFailure),
        }
    }

    /// The row that holds this record, its moment of creation written as
    /// an RFC 3339 text. A moment outside the dates that can be written
    /// fails as `ToSqlConversionFailure`.
    pub fn into_row(&self) -> (written: Result<BranchRow, StoreFailure>)
        ensures
            written_view(written) == row_of_branch(
                self@,
                rfc3339_text(self.created.secs, self.created.nanos),
            ),
            written matches Err(failure) ==> failure == StoreFailure::ToSqlConversionFailure,
    {
        let created = self.created.format();
        self.to_row(created)
    }
}

} // verus!
