//! The two tables, `branch` and `config`, held in memory.

use vstd::prelude::*;

use crate::domain::adapters::store::{
    activate, all_disabled, branch_views, config_views, disabled, first_active,
    law_one_active_after_registration, law_one_active_after_switch, lemma_activate_keeps_keys,
    lemma_disable_keeps_keys, none_active, registered, switched, Store,
};
use crate::domain::errors::{Errors, LookupError, PersistError};
use crate::domain::keyed::{
    holds, lemma_index_of, lemma_upsert_unique, lookup, unique, upsert, without, Keyed,
};
use crate::domain::models::{
    branch_key, Branch, BranchView, Config, ConfigKey, ConfigKeyKind, ConfigStatus, ConfigView,
};
use crate::utils::string::same_text;

verus! {

/// The two tables. In each of them no key occurs twice.
pub struct Tables {
    branches: Vec<Branch>,
    configs: Vec<Config>,
}

impl Tables {
    /// The rows of the table `branch`, in the order in which they were
    /// last written.
    pub closed spec fn branch_rows(&self) -> Seq<BranchView> {
        branch_views(self.branches@)
    }

    /// The rows of the table `config`, in the order in which they were
    /// last written.
    pub closed spec fn config_rows(&self) -> Seq<ConfigView> {
        config_views(self.configs@)
    }

    #[verifier::type_invariant]
    spec fn sound(&self) -> bool {
        unique(self.branch_rows()) && unique(self.config_rows())
    }

    /// Both tables, empty.
    pub fn new() -> (tables: Tables)
        ensures
            tables.branch_rows() == Seq::<BranchView>::empty(),
            tables.config_rows() == Seq::<ConfigView>::empty(),
    {
        Tables { branches: Vec::new(), configs: Vec::new() }
    }

    /// In each table no key occurs twice.
    pub fn keys_are_unique(&self)
        ensures
            unique(self.branch_rows()),
            unique(self.config_rows()),
    {
        proof {
            use_type_invariant(self);
        }
    }

    /// Where the row of the configuration named `name` stands.
    fn config_at(&self, name: &str) -> (at: Option<usize>)
        ensures
            match at {
                Some(i) => i < self.config_rows().len() && self.config_rows()[i as int].key
                    == name@,
                None => !holds(self.config_rows(), name@),
            },
    {
        let mut i: usize = 0;
        while i < self.configs.len()
            invariant
                i <= self.configs.len(),
                forall|j: int| 0 <= j < i ==> (#[trigger] self.config_rows()[j]).key() != name@,
            decreases self.configs.len() - i,
        {
            let key = self.configs[i].key.to_name();
            if same_text(key.as_str(), name) {
                return Some(i);
            }
            i += 1;
        }
        None
    }

    /// Makes the configuration `key` the active one, and every other one
    /// disabled. Where no configuration is registered under `key`, nothing
    /// changes and the answer is `NotFound`.
    pub fn set_active_config(&mut self, key: &ConfigKey) -> (switched: Result<Config, PersistError>)
        ensures
            holds(old(self).config_rows(), key.name()) ==> {
                &&& final(self).config_rows() == activate(old(self).config_rows(), key.name())
                &&& switched matches Ok(config)
                &&& Some(config@) == lookup(final(self).config_rows(), key.name())
            },
            !holds(old(self).config_rows(), key.name()) ==> {
                &&& final(self).config_rows() == old(self).config_rows()
                &&& switched matches Err(PersistError::NotFound { name })
                &&& name@ == "config"@
            },
            final(self).branch_rows() == old(self).branch_rows(),
    {
        proof {
            use_type_invariant(&*self);
        }
        let name = key.to_name();
        let at = match self.config_at(name.as_str()) {
            Some(at) => at,
            None => {
                return Err(PersistError::NotFound { name: "config".to_owned() });
            },
        };
        let ghost before = self.config_rows();
        let mut next: Vec<Config> = Vec::new();
        let mut i: usize = 0;
        while i < self.configs.len()
            invariant
                i <= self.configs.len(),
                at < self.configs.len(),
                before == self.config_rows(),
                before.len() == self.configs.len(),
                next.len() == i,
                unique(before),
                before[at as int].key == name@,
                config_views(next@) == activate(before, name@).take(i as int),
            decreases self.configs.len() - i,
        {
            let row = &self.configs[i];
            let status = if i == at {
                ConfigStatus::Active
            } else {
                ConfigStatus::Disabled
            };
            proof {
                if i != at {
                    if i < at {
                        assert(before[i as int].key() != before[at as int].key());
                    } else {
                        assert(before[at as int].key() != before[i as int].key());
                    }
                }
            }
            let changed = Config { key: row.key.duplicate(), path: row.path.clone(), status };
            assert(before[i as int] == row@);
            assert(changed@ == switched(before[i as int], name@));
            let ghost done = next@;
            next.push(changed);
            proof {
                let target = activate(before, name@).take(i + 1);
                assert forall|j: int| 0 <= j < target.len() implies config_views(next@)[j]
                    == target[j] by {
                    if j < i {
                        assert(config_views(done)[j] == activate(before, name@).take(i as int)[j]);
                        assert(next@[j] == done[j]);
                    }
                }
                assert(config_views(next@) =~= target);
            }
            i += 1;
        }
        proof {
            assert(before[at as int].key() == name@);
            assert(config_views(next@) == activate(before, name@));
            lemma_activate_keeps_keys(before, name@);
            law_one_active_after_switch(before, name@);
            lemma_index_of(before, at as int);
        }
        let found = next[at].duplicate();
        self.configs = next;
        Ok(found)
    }

    /// Registers `config`, as the active one, in place of any
    /// configuration of the same key, and disables every other one. The
    /// built-in configuration cannot be replaced.
    pub fn persist_config(&mut self, config: &Config) -> (done: Result<(), Errors>)
        ensures
            config.key.kind() == ConfigKeyKind::Default ==> {
                &&& final(self).config_rows() == old(self).config_rows()
                &&& done matches Err(Errors::ValidationError { message })
                &&& message@ == "Cannot override 'default' config!"@
            },
            config.key.kind() != ConfigKeyKind::Default ==> {
                &&& final(self).config_rows() == registered(old(self).config_rows(), config@)
                &&& done is Ok
            },
            final(self).branch_rows() == old(self).branch_rows(),
    {
        proof {
            use_type_invariant(&*self);
        }
        if config.key.is_default() {
            return Err(
                Errors::ValidationError { message: "Cannot override 'default' config!".to_owned() },
            );
        }
        let row = Config {
            key: config.key.duplicate(),
            path: config.path.clone(),
            status: ConfigStatus::Active,
        };
        let name = row.key.to_name();
        let at = self.config_at(name.as_str());
        let ghost before = self.config_rows();
        let ghost off = all_disabled(before);
        let mut rows: Vec<Config> = Vec::new();
        let mut i: usize = 0;
        while i < self.configs.len()
            invariant
                i <= self.configs.len(),
                before == self.config_rows(),
                before.len() == self.configs.len(),
                off == all_disabled(before),
                rows.len() == i,
                config_views(rows@) == off.take(i as int),
            decreases self.configs.len() - i,
        {
            let old_row = &self.configs[i];
            let off_row = Config {
                key: old_row.key.duplicate(),
                path: old_row.path.clone(),
                status: ConfigStatus::Disabled,
            };
            assert(before[i as int] == old_row@);
            assert(off_row@ == disabled(before[i as int]));
            let ghost done = rows@;
            rows.push(off_row);
            proof {
                let target = off.take(i + 1);
                assert forall|j: int| 0 <= j < target.len() implies config_views(rows@)[j]
                    == target[j] by {
                    if j < i {
                        assert(config_views(done)[j] == off.take(i as int)[j]);
                        assert(rows@[j] == done[j]);
                    }
                }
                assert(config_views(rows@) =~= target);
            }
            i += 1;
        }
        proof {
            assert(off.take(off.len() as int) =~= off);
            lemma_disable_keeps_keys(before);
        }
        if let Some(at) = at {
            proof {
                assert(off[at as int].key() == name@);
                lemma_index_of(off, at as int);
            }
            rows.remove(at);
            assert(config_views(rows@) =~= without(off, name@));
        }
        rows.push(row);
        proof {
            assert(config_views(rows@) =~= registered(before, config@));
            law_one_active_after_registration(before, config@);
        }
        self.configs = rows;
        Ok(())
    }

    /// Adds `config` as it is, if its key is not yet registered; else
    /// nothing changes and the answer is `Validation`.
    pub fn insert_config(&mut self, config: Config) -> (done: Result<(), PersistError>)
        ensures
            !holds(old(self).config_rows(), config.key.name()) ==> {
                &&& final(self).config_rows() == old(self).config_rows().push(config@)
                &&& done is Ok
            },
            holds(old(self).config_rows(), config.key.name()) ==> {
                &&& final(self).config_rows() == old(self).config_rows()
                &&& done matches Err(PersistError::Validation { name })
                &&& name@ == "config"@
            },
            final(self).branch_rows() == old(self).branch_rows(),
    {
        proof {
            use_type_invariant(&*self);
        }
        let name = config.key.to_name();
        if let Some(at) = self.config_at(name.as_str()) {
            assert(self.config_rows()[at as int].key() == name@);
            return Err(PersistError::Validation { name: "config".to_owned() });
        }
        let ghost before = self.config_rows();
        let mut rows: Vec<Config> = Vec::new();
        core::mem::swap(&mut self.configs, &mut rows);
        rows.push(config);
        proof {
            assert(config_views(rows@) =~= upsert(before, config@));
            lemma_upsert_unique(before, config@);
        }
        core::mem::swap(&mut self.configs, &mut rows);
        Ok(())
    }

    /// The configuration registered under `key`; or, where no key is
    /// given, the first active one.
    pub fn get_configuration(&self, key: Option<String>) -> (found: Result<Config, PersistError>)
        ensures
            match key {
                Some(name) => match lookup(self.config_rows(), name@) {
                    Some(row) => found matches Ok(config) && config@ == row,
                    None => found matches Err(PersistError::NotFound { name }) && name@
                        == "config"@,
                },
                None => if none_active(self.config_rows()) {
                    found matches Err(PersistError::NotFound { name }) && name@ == "config"@
                } else {
                    found matches Ok(config) && exists|at: int|
                        first_active(self.config_rows(), at) && self.config_rows()[at] == config@
                },
            },
    {
        proof {
            use_type_invariant(self);
        }
        match key {
            Some(name) => match self.config_at(name.as_str()) {
                Some(at) => {
                    proof {
                        lemma_index_of(self.config_rows(), at as int);
                    }
                    Ok(self.configs[at].duplicate())
                },
                None => Err(PersistError::NotFound { name: "config".to_owned() }),
            },
            None => {
                let mut i: usize = 0;
                while i < self.configs.len()
                    invariant
                        key is None,
                        i <= self.configs.len(),
                        forall|j: int|
                            0 <= j < i ==> (#[trigger] self.config_rows()[j]).status
                                != ConfigStatus::Active,
                    decreases self.configs.len() - i,
                {
                    match self.configs[i].status {
                        ConfigStatus::Active => {
                            assert(self.config_rows()[i as int] == self.configs[i as int]@);
                            assert(first_active(self.config_rows(), i as int));
                            return Ok(self.configs[i].duplicate());
                        },
                        ConfigStatus::Disabled => {},
                    }
                    i += 1;
                }
                Err(PersistError::NotFound { name: "config".to_owned() })
            },
        }
    }

    /// Every registered configuration, in the table's order.
    pub fn get_configurations(&self) -> (all: Result<Vec<Config>, PersistError>)
        ensures
            all matches Ok(rows) && config_views(rows@) == self.config_rows(),
    {
        let mut rows: Vec<Config> = Vec::new();
        let mut i: usize = 0;
        while i < self.configs.len()
            invariant
                i <= self.configs.len(),
                rows.len() == i,
                forall|j: int| 0 <= j < i ==> (#[trigger] rows[j]) == self.configs[j],
            decreases self.configs.len() - i,
        {
            rows.push(self.configs[i].duplicate());
            i += 1;
        }
        assert(config_views(rows@) =~= self.config_rows());
        Ok(rows)
    }

    /// Every record of a branch, in the table's order.
    pub fn get_branches(&self) -> (all: Vec<Branch>)
        ensures
            branch_views(all@) == self.branch_rows(),
    {
        let mut rows: Vec<Branch> = Vec::new();
        let mut i: usize = 0;
        while i < self.branches.len()
            invariant
                i <= self.branches.len(),
                rows.len() == i,
                forall|j: int| 0 <= j < i ==> (#[trigger] rows[j])@ == self.branches[j]@,
            decreases self.branches.len() - i,
        {
            rows.push(self.branches[i].duplicate());
            i += 1;
        }
        assert(branch_views(rows@) =~= self.branch_rows());
        rows
    }

    /// Where the row of the branch stored under `key` stands.
    fn branch_at(&self, key: &str) -> (at: Option<usize>)
        ensures
            match at {
                Some(i) => i < self.branch_rows().len() && self.branch_rows()[i as int].name
                    == key@,
                None => !holds(self.branch_rows(), key@),
            },
    {
        let mut i: usize = 0;
        while i < self.branches.len()
            invariant
                i <= self.branches.len(),
                forall|j: int| 0 <= j < i ==> (#[trigger] self.branch_rows()[j]).key() != key@,
            decreases self.branches.len() - i,
        {
            if same_text(self.branches[i].name.as_str(), key) {
                return Some(i);
            }
            i += 1;
        }
        None
    }

    /// Stores `branch` in place of any record of the same name.
    pub fn persist_branch(&mut self, branch: &Branch) -> (done: Result<(), PersistError>)
        ensures
            done is Ok,
            final(self).branch_rows() == upsert(old(self).branch_rows(), branch@),
            final(self).config_rows() == old(self).config_rows(),
    {
        proof {
            use_type_invariant(&*self);
        }
        let at = self.branch_at(branch.name.as_str());
        let ghost before = self.branch_rows();
        let mut rows: Vec<Branch> = Vec::new();
        core::mem::swap(&mut self.branches, &mut rows);
        if let Some(at) = at {
            proof {
                lemma_index_of(before, at as int);
            }
            rows.remove(at);
            assert(branch_views(rows@) =~= without(before, branch.name@));
        }
        rows.push(branch.duplicate());
        proof {
            assert(branch_views(rows@) =~= upsert(before, branch@));
            lemma_upsert_unique(before, branch@);
        }
        core::mem::swap(&mut self.branches, &mut rows);
        Ok(())
    }

    /// The record of the branch `branch` of the repository `repo`; both
    /// names are trimmed before they are looked up.
    pub fn get_branch(&self, branch: &str, repo: &str) -> (found: Result<Branch, LookupError>)
        ensures
            match lookup(self.branch_rows(), branch_key(repo@, branch@)) {
                Some(row) => found matches Ok(record) && record@ == row,
                None => found == Err::<Branch, LookupError>(LookupError::NoRows),
            },
    {
        proof {
            use_type_invariant(self);
        }
        let key = Branch::key(repo, branch);
        match self.branch_at(key.as_str()) {
            Some(at) => {
                proof {
                    lemma_index_of(self.branch_rows(), at as int);
                }
                Ok(self.branches[at].duplicate())
            },
            None => Err(LookupError::NoRows),
        }
    }
}

impl Store for Tables {
    open spec fn branches(&self) -> Seq<BranchView> {
        self.branch_rows()
    }

    open spec fn configs(&self) -> Seq<ConfigView> {
        self.config_rows()
    }

    fn persist_branch(&mut self, branch: &Branch) -> (done: Result<(), PersistError>)
        ensures
            done is Ok,
    {
        Tables::persist_branch(self, branch)
    }

    fn get_branch(&self, branch: &str, repo: &str) -> (found: Result<Branch, LookupError>)
        ensures
            holds(self.branches(), branch_key(repo@, branch@)) ==> found is Ok,
            found matches Err(error) ==> error == LookupError::NoRows,
    {
        Tables::get_branch(self, branch, repo)
    }

    fn persist_config(&mut self, config: &Config) -> (done: Result<(), Errors>)
        ensures
            config.key.kind() != ConfigKeyKind::Default ==> done is Ok,
            done matches Err(error) ==> error matches Errors::ValidationError { message }
                && message@ == "Cannot override 'default' config!"@,
    {
        Tables::persist_config(self, config)
    }

    fn set_active_config(&mut self, key: &ConfigKey) -> (switched: Result<Config, PersistError>)
        ensures
            holds(old(self).configs(), key.name()) ==> switched is Ok,
            switched matches Err(error) ==> error matches PersistError::NotFound { name } && name@
                == "config"@,
    {
        Tables::set_active_config(self, key)
    }

    fn get_configurations(&self) -> (all: Result<Vec<Config>, PersistError>)
        ensures
            all is Ok,
    {
        Tables::get_configurations(self)
    }

    fn get_configuration(&self, key: Option<String>) -> (found: Result<Config, PersistError>)
        ensures
            found is Ok <==> match key {
                Some(name) => holds(self.configs(), name@),
                None => !none_active(self.configs()),
            },
            found matches Err(error) ==> error matches PersistError::NotFound { name } && name@
                == "config"@,
    {
        Tables::get_configuration(self, key)
    }

    fn close(self) -> (done: Result<(), PersistError>)
        ensures
            done is Ok,
    {
        Ok(())
    }
}

} // verus!
