//! The persisted store: the table of branches and the table of
//! configurations, what its operations do to them, and what follows from
//! that.

use vstd::prelude::*;

use crate::domain::errors::{Errors, LookupError, PersistError};
use crate::domain::keyed::{
    count, holds, index_of, law_read_after_write, lemma_count, lemma_index_of,
    lemma_upsert_unique, lemma_without, lookup, unique, upsert, without, Keyed,
};
use crate::domain::models::{
    branch_key, Branch, BranchView, Config, ConfigKey, ConfigKeyKind, ConfigStatus, ConfigView,
};
use crate::utils::string::{blank, law_trim_ignores_padding};

verus! {

/// The rows as mathematical values.
pub open spec fn branch_views(rows: Seq<Branch>) -> Seq<BranchView> {
    rows.map_values(|row: Branch| row@)
}

/// The rows as mathematical values.
pub open spec fn config_views(rows: Seq<Config>) -> Seq<ConfigView> {
    rows.map_values(|row: Config| row@)
}

/// The row as it stands after the key `key` was made the active one.
pub open spec fn switched(row: ConfigView, key: Seq<char>) -> ConfigView {
    ConfigView {
        status: if row.key == key {
            ConfigStatus::Active
        } else {
            ConfigStatus::Disabled
        },
        ..row
    }
}

/// The table after the key `key` was made the active one: its row is
/// active, every other row is disabled, and nothing else has changed.
pub open spec fn activate(rows: Seq<ConfigView>, key: Seq<char>) -> Seq<ConfigView> {
    rows.map_values(|row: ConfigView| switched(row, key))
}

/// The row at `at` is active and no row before it is.
pub open spec fn first_active(rows: Seq<ConfigView>, at: int) -> bool {
    &&& 0 <= at < rows.len()
    &&& rows[at].status == ConfigStatus::Active
    &&& forall|i: int| 0 <= i < at ==> (#[trigger] rows[i]).status != ConfigStatus::Active
}

/// No row is active.
pub open spec fn none_active(rows: Seq<ConfigView>) -> bool {
    forall|i: int| 0 <= i < rows.len() ==> (#[trigger] rows[i]).status != ConfigStatus::Active
}

/// The row under `key` is active and it is the only active row.
pub open spec fn only_active(rows: Seq<ConfigView>, key: Seq<char>) -> bool {
    &&& holds(rows, key)
    &&& forall|i: int|
        0 <= i < rows.len() ==> ((#[trigger] rows[i]).status == ConfigStatus::Active <==> rows[i].key
            == key)
}

/// The number of active rows.
pub open spec fn active_count(rows: Seq<ConfigView>) -> nat
    decreases rows.len(),
{
    if rows.len() == 0 {
        0
    } else {
        active_count(rows.drop_last()) + if rows.last().status == ConfigStatus::Active {
            1nat
        } else {
            0nat
        }
    }
}

/// The configuration as `persist_config` stores it: active.
pub open spec fn stored(config: ConfigView) -> ConfigView {
    ConfigView { status: ConfigStatus::Active, ..config }
}

/// The row with the status disabled.
pub open spec fn disabled(row: ConfigView) -> ConfigView {
    ConfigView { status: ConfigStatus::Disabled, ..row }
}

/// The table with every row disabled.
pub open spec fn all_disabled(rows: Seq<ConfigView>) -> Seq<ConfigView> {
    rows.map_values(|row: ConfigView| disabled(row))
}

/// The table after `config` was registered: it is written as the active
/// one, in place of any configuration of the same key, and every other
/// configuration is disabled.
pub open spec fn registered(rows: Seq<ConfigView>, config: ConfigView) -> Seq<ConfigView> {
    upsert(all_disabled(rows), stored(config))
}

/// Disabling every row keeps the keys, so a table stays a table.
pub proof fn lemma_disable_keeps_keys(rows: Seq<ConfigView>)
    ensures
        all_disabled(rows).len() == rows.len(),
        forall|i: int|
            0 <= i < rows.len() ==> (#[trigger] all_disabled(rows)[i]).key == rows[i].key,
        unique(rows) ==> unique(all_disabled(rows)),
        forall|key: Seq<char>| holds(rows, key) <==> holds(all_disabled(rows), key),
        none_active(all_disabled(rows)),
{
    let next = all_disabled(rows);
    assert forall|key: Seq<char>| holds(rows, key) <==> holds(next, key) by {
        if holds(rows, key) {
            let i = index_of(rows, key);
            assert(0 <= i < rows.len() && rows[i].key() == key);
            assert(next[i].key() == key);
        }
        if holds(next, key) {
            let i = index_of(next, key);
            assert(0 <= i < next.len() && next[i].key() == key);
            assert(rows[i].key() == key);
        }
    }
}

/// After a configuration was registered, it is the one active row,
/// whatever was active before.
pub proof fn law_one_active_after_registration(rows: Seq<ConfigView>, config: ConfigView)
    requires
        unique(rows),
    ensures
        unique(registered(rows, config)),
        active_count(registered(rows, config)) == 1,
        only_active(registered(rows, config), config.key),
        lookup(registered(rows, config), config.key) == Some(stored(config)),
{
    lemma_disable_keeps_keys(rows);
    let off = all_disabled(rows);
    let row = stored(config);
    lemma_without(off, config.key);
    lemma_upsert_unique(off, row);
    law_read_after_write(off, row);
    let rest = without(off, config.key);
    let next = registered(rows, config);
    assert(next[rest.len() as int] == row);
    assert(next[rest.len() as int].key() == config.key);
    assert forall|i: int| 0 <= i < rest.len() implies (#[trigger] rest[i]).status
        == ConfigStatus::Disabled && rest[i].key != config.key by {
        if holds(off, config.key) {
            let at = index_of(off, config.key);
            assert(0 <= at < off.len() && off[at].key() == config.key);
            let a = if i < at { i } else { i + 1 };
            assert(rest[i] == off[a]);
        }
        if rest[i].key() == config.key {
            assert(holds(rest, config.key));
        }
    }
    assert forall|i: int| 0 <= i < next.len() implies ((#[trigger] next[i]).status
        == ConfigStatus::Active <==> next[i].key == config.key) by {
        if i < rest.len() {
            assert(next[i] == rest[i]);
        }
    }
    lemma_active_count(next, config.key);
    lemma_count(next, config.key);
}

/// Making a key active keeps the keys, so a table stays a table.
pub proof fn lemma_activate_keeps_keys(rows: Seq<ConfigView>, key: Seq<char>)
    ensures
        activate(rows, key).len() == rows.len(),
        forall|i: int|
            0 <= i < rows.len() ==> (#[trigger] activate(rows, key)[i]).key == rows[i].key,
        unique(rows) ==> unique(activate(rows, key)),
        forall|other: Seq<char>| holds(rows, other) <==> holds(activate(rows, key), other),
{
    let next = activate(rows, key);
    assert forall|other: Seq<char>| holds(rows, other) <==> holds(next, other) by {
        if holds(rows, other) {
            let i = index_of(rows, other);
            assert(0 <= i < rows.len() && rows[i].key() == other);
            assert(next[i].key() == other);
        }
        if holds(next, other) {
            let i = index_of(next, other);
            assert(0 <= i < next.len() && next[i].key() == other);
            assert(rows[i].key() == other);
        }
    }
}

/// Where the rows under one key are the active ones, there are as many
/// active rows as rows under that key.
proof fn lemma_active_count(rows: Seq<ConfigView>, key: Seq<char>)
    requires
        forall|i: int|
            0 <= i < rows.len() ==> ((#[trigger] rows[i]).status == ConfigStatus::Active
                <==> rows[i].key == key),
    ensures
        active_count(rows) == count(rows, key),
    decreases rows.len(),
{
    if rows.len() > 0 {
        let front = rows.drop_last();
        assert forall|i: int| 0 <= i < front.len() implies ((#[trigger] front[i]).status
            == ConfigStatus::Active <==> front[i].key == key) by {
            assert(front[i] == rows[i]);
        }
        lemma_active_count(front, key);
        assert(rows.last() == rows[rows.len() - 1]);
    }
}

/// After a registered key was made active, its row is the one active row,
/// however many rows were active before.
pub proof fn law_one_active_after_switch(rows: Seq<ConfigView>, key: Seq<char>)
    requires
        unique(rows),
        holds(rows, key),
    ensures
        active_count(activate(rows, key)) == 1,
        only_active(activate(rows, key), key),
        first_active(activate(rows, key), index_of(rows, key)),
        lookup(activate(rows, key), key) == Some(stored(rows[index_of(rows, key)])),
{
    lemma_active_count(activate(rows, key), key);
    lemma_count(activate(rows, key), key);
    lemma_activate_keeps_keys(rows, key);
    let next = activate(rows, key);
    let at = index_of(rows, key);
    assert(0 <= at < rows.len() && rows[at].key() == key);
    assert(next[at].key() == key);
    lemma_index_of(next, at);
    assert forall|i: int| 0 <= i < at implies (#[trigger] next[i]).status
        != ConfigStatus::Active by {
        assert(rows[i].key() != rows[at].key());
    }
}

/// A record that was stored is the record that is found under the names
/// of its branch and repository, with or without white space around them.
pub proof fn law_stored_branch_is_found(
    rows: Seq<BranchView>,
    record: BranchView,
    repo: Seq<char>,
    branch: Seq<char>,
    lead: Seq<char>,
    trail: Seq<char>,
)
    requires
        unique(rows),
        record.name == branch_key(repo, branch),
        blank(lead),
        blank(trail),
    ensures
        lookup(upsert(rows, record), branch_key(repo, branch)) == Some(record),
        lookup(upsert(rows, record), branch_key(lead + repo + trail, lead + branch + trail))
            == Some(record),
{
    law_read_after_write(rows, record);
    law_trim_ignores_padding(lead, repo, trail);
    law_trim_ignores_padding(lead, branch, trail);
}

/// A store of branches and configurations. An operation that fails leaves
/// the store as it was.
pub trait Store: Sized {
    /// The rows of the table of branches.
    spec fn branches(&self) -> Seq<BranchView>;

    /// The rows of the table of configurations.
    spec fn configs(&self) -> Seq<ConfigView>;

    /// Stores `branch` in place of any record of the same name.
    fn persist_branch(&mut self, branch: &Branch) -> (done: Result<(), PersistError>)
        ensures
            done is Ok ==> final(self).branches() == upsert(old(self).branches(), branch@),
            done is Err ==> final(self).branches() == old(self).branches(),
            final(self).configs() == old(self).configs(),
    ;

    /// The record of the branch `branch` of the repository `repo`. A
    /// store that has no rows for it holds no record of it.
    fn get_branch(&self, branch: &str, repo: &str) -> (found: Result<Branch, LookupError>)
        ensures
            found matches Ok(record) ==> lookup(self.branches(), branch_key(repo@, branch@))
                == Some(record@),
            found matches Err(LookupError::NoRows) ==> !holds(
                self.branches(),
                branch_key(repo@, branch@),
            ),
    ;

    /// Registers `config`, as the active one, in place of any configuration
    /// of the same key, and disables every other one. The built-in
    /// configuration cannot be replaced.
    fn persist_config(&mut self, config: &Config) -> (done: Result<(), Errors>)
        ensures
            config.key.kind() == ConfigKeyKind::Default ==> done is Err,
            done is Ok ==> final(self).configs() == registered(old(self).configs(), config@),
            done is Err ==> final(self).configs() == old(self).configs(),
            final(self).branches() == old(self).branches(),
    ;

    /// Makes the configuration `key` the active one and every other one
    /// disabled, all at once or not at all. It fails where no
    /// configuration is registered under `key`, and it fails as
    /// `NotFound` only there.
    fn set_active_config(&mut self, key: &ConfigKey) -> (switched: Result<Config, PersistError>)
        ensures
            !holds(old(self).configs(), key.name()) ==> switched is Err,
            switched matches Err(PersistError::NotFound { .. }) ==> !holds(
                old(self).configs(),
                key.name(),
            ),
            switched matches Ok(config) ==> {
                &&& final(self).configs() == activate(old(self).configs(), key.name())
                &&& lookup(final(self).configs(), key.name()) == Some(config@)
            },
            switched is Err ==> final(self).configs() == old(self).configs(),
            final(self).branches() == old(self).branches(),
    ;

    /// Every registered configuration, in the table's order.
    fn get_configurations(&self) -> (all: Result<Vec<Config>, PersistError>)
        ensures
            all matches Ok(rows) ==> config_views(rows@) == self.configs(),
    ;

    /// The configuration registered under `key`; or, where no key is given,
    /// the first active one.
    fn get_configuration(&self, key: Option<String>) -> (found: Result<Config, PersistError>)
        ensures
            found matches Ok(config) ==> match key {
                Some(name) => lookup(self.configs(), name@) == Some(config@),
                None => exists|at: int|
                    first_active(self.configs(), at) && self.configs()[at] == config@,
            },
            found matches Err(PersistError::NotFound { .. }) ==> match key {
                Some(name) => !holds(self.configs(), name@),
                None => none_active(self.configs()),
            },
    ;

    /// Gives the store up.
    fn close(self) -> Result<(), PersistError>;
}

} // verus!
