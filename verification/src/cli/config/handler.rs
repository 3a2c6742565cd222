//! What `config` does.

use vstd::prelude::*;

use super::args::{chosen, name_is_missing, Arguments, ConfigAdd, ConfigSet};
use crate::domain::adapters::store::{activate, config_views, registered};
use crate::domain::adapters::{Prompter, Store};
use crate::domain::errors::{Errors, UserInputError};
use crate::domain::keyed::holds;
use crate::domain::models::{
    kind_of_name, Config, ConfigKey, ConfigKeyKind, ConfigStatus, ConfigView,
};
use crate::entry::Interactive;

verus! {

/// What `config` did, for the user to be told.
#[derive(Debug, Clone, PartialEq, Eq)]
pub enum Outcome {
    /// The configuration of this key was registered, as the active one.
    Added(ConfigKey),
    /// The configuration of this key was made the active one.
    Activated(ConfigKey),
    /// The built-in configuration was made the active one.
    Reset(ConfigKey),
    /// The registered configurations, the active ones first.
    Listed(Vec<Config>),
}

/// What `config` did, with a warning where the registered configurations
/// are not what is in effect.
#[derive(Debug, Clone, PartialEq, Eq)]
pub struct Report {
    pub warning: Option<String>,
    pub outcome: Outcome,
}

/// The rows of the status `status`, in their order.
pub open spec fn of_status(rows: Seq<ConfigView>, status: ConfigStatus) -> Seq<ConfigView>
    decreases rows.len(),
{
    if rows.len() == 0 {
        rows
    } else if rows.last().status == status {
        of_status(rows.drop_last(), status).push(rows.last())
    } else {
        of_status(rows.drop_last(), status)
    }
}

/// The rows in the order in which they are shown: the active ones, then
/// the disabled ones, each group in the table's order.
pub open spec fn shown_order(rows: Seq<ConfigView>) -> Seq<ConfigView> {
    of_status(rows, ConfigStatus::Active) + of_status(rows, ConfigStatus::Disabled)
}

/// What overrides the registered configurations while the configuration in
/// effect has the key `key`.
pub open spec fn overriding(key: ConfigKey) -> Option<Seq<char>> {
    match key {
        ConfigKey::Once => Some("'once off' --config"@),
        ConfigKey::Local => Some("'local' repository"@),
        ConfigKey::User(_) | ConfigKey::Default => None,
    }
}

/// What overrides the registered configurations, if anything does: a
/// file given for this invocation, or the repository's own file.
pub fn local_config_warning(config_key: &ConfigKey) -> (warning: Option<String>)
    ensures
        match overriding(*config_key) {
            Some(text) => warning matches Some(given) && given@ == text,
            None => warning is None,
        },
{
    match config_key {
        ConfigKey::Once => Some("'once off' --config".to_owned()),
        ConfigKey::Local => Some("'local' repository".to_owned()),
        ConfigKey::User(_) | ConfigKey::Default => None,
    }
}

/// The configurations of the status `status`, added to `out` in their
/// order.
fn collect(rows: &Vec<Config>, status: ConfigStatus, out: &mut Vec<Config>)
    ensures
        config_views(final(out)@) == config_views(old(out)@) + of_status(
            config_views(rows@),
            status,
        ),
{
    let ghost before = config_views(out@);
    let ghost all = config_views(rows@);
    let mut i: usize = 0;
    assert(all.take(0) =~= Seq::<ConfigView>::empty());
    assert(config_views(out@) =~= before + of_status(all.take(0), status));
    while i < rows.len()
        invariant
            i <= rows.len(),
            all == config_views(rows@),
            config_views(out@) == before + of_status(all.take(i as int), status),
        decreases rows.len() - i,
    {
        let ghost done = out@;
        let ghost next = all.take(i + 1);
        assert(next.drop_last() =~= all.take(i as int));
        assert(next.last() == rows[i as int]@);
        let same = match (rows[i].status, status) {
            (ConfigStatus::Active, ConfigStatus::Active) => true,
            (ConfigStatus::Disabled, ConfigStatus::Disabled) => true,
            _ => false,
        };
        if same {
            out.push(rows[i].duplicate());
            assert(config_views(out@) =~= config_views(done).push(rows[i as int]@));
            assert(config_views(out@) =~= before + of_status(next, status));
        }
        i += 1;
    }
    assert(all.take(rows.len() as int) =~= all);
}

/// The registered configurations in the order in which they are shown.
fn list<S: Store>(store: &S) -> (done: Result<Outcome, Errors>)
    ensures
        done matches Ok(outcome) ==> {
            &&& outcome matches Outcome::Listed(rows)
            &&& config_views(rows@) == shown_order(store.configs())
        },
        done matches Err(error) ==> error is PersistError,
{
    let configurations = match store.get_configurations() {
        Ok(rows) => rows,
        Err(error) => {
            return Err(Errors::PersistError(error));
        },
    };
    let mut rows: Vec<Config> = Vec::new();
    assert(config_views(rows@) =~= Seq::<ConfigView>::empty());
    collect(&configurations, ConfigStatus::Active, &mut rows);
    collect(&configurations, ConfigStatus::Disabled, &mut rows);
    assert(config_views(rows@) =~= shown_order(store.configs()));
    Ok(Outcome::Listed(rows))
}

/// The configuration that `config add` registers for the file at `path`.
pub open spec fn added(args: ConfigAdd, path: String) -> ConfigView {
    ConfigView {
        key: args.name@,
        kind: kind_of_name(args.name@),
        path: path@,
        status: ConfigStatus::Active,
    }
}

/// Registers the configuration file, as the active one, and disables
/// every other one. A path without a file and the built-in
/// configuration's key are refused.
fn add<S: Store>(args: ConfigAdd, located: Option<String>, store: &mut S) -> (done: Result<
    Outcome,
    Errors,
>)
    ensures
        located is None ==> {
            &&& done matches Err(Errors::UserInput(UserInputError::Validation { name }))
            &&& name@ == "config path"@
        },
        located is Some && kind_of_name(args.name@) == ConfigKeyKind::Default ==> {
            &&& done matches Err(Errors::UserInput(UserInputError::Validation { name }))
            &&& name@ == "config key"@
        },
        done matches Ok(outcome) ==> {
            &&& outcome matches Outcome::Added(key)
            &&& key.name() == args.name@
            &&& located matches Some(path)
            &&& final(store).configs() == registered(old(store).configs(), added(args, path))
        },
        done is Err ==> final(store).configs() == old(store).configs(),
        final(store).branches() == old(store).branches(),
        done matches Err(error) ==> add_failure(args, located, error),
{
    let config = match args.try_into_domain(located) {
        Ok(config) => config,
        Err(_) => {
            return Err(
                Errors::UserInput(UserInputError::Validation { name: "config path".to_owned() }),
            );
        },
    };
    if config.key.is_default() {
        return Err(Errors::UserInput(UserInputError::Validation { name: "config key".to_owned() }));
    }
    match store.persist_config(&config) {
        Ok(()) => Ok(Outcome::Added(config.key)),
        Err(error) => Err(error),
    }
}

/// A switch that is bound to fail: to a name under which nothing is
/// registered, or to no name where the user may not be asked for one.
pub open spec fn switch_fails(rows: Seq<ConfigView>, args: ConfigSet, interactive: Interactive) -> bool {
    match args.name {
        Some(name) => !holds(rows, name@),
        None => interactive == Interactive::Disable,
    }
}

/// A failure of the store to make `key` the active one: where it says
/// that nothing was found, nothing is registered under `key`.
pub open spec fn missed(rows: Seq<ConfigView>, key: Seq<char>, error: Errors) -> bool {
    &&& error matches Errors::PersistError(inner)
    &&& inner is NotFound ==> !holds(rows, key)
}

/// How a switch fails. With a name it fails as the store says. Without
/// one it fails as the store says while the registered configurations are
/// read, or as the prompt says; where the user may not be asked, the name
/// is required and missing.
pub open spec fn switch_failure(
    rows: Seq<ConfigView>,
    args: ConfigSet,
    interactive: Interactive,
    error: Errors,
) -> bool {
    match args.name {
        Some(name) => missed(rows, name@, error),
        None => match interactive {
            Interactive::Disable => error is PersistError || name_is_missing(error),
            Interactive::Enable => error is PersistError || error is UserInput,
        },
    }
}

/// How `config add` fails: by a path without a file, then by the built-in
/// configuration's key, and else as the store says.
pub open spec fn add_failure(args: ConfigAdd, located: Option<String>, error: Errors) -> bool {
    &&& located is None ==> {
        &&& error matches Errors::UserInput(UserInputError::Validation { name })
        &&& name@ == "config path"@
    }
    &&& located is Some && kind_of_name(args.name@) == ConfigKeyKind::Default ==> {
        &&& error matches Errors::UserInput(UserInputError::Validation { name })
        &&& name@ == "config key"@
    }
}

/// Arguments that are bound to fail: an addition without a file or under
/// the built-in configuration's key, a switch or a reset to what is not
/// registered, a switch without a name where the user may not be asked.
pub open spec fn bound_to_fail(
    rows: Seq<ConfigView>,
    arguments: Arguments,
    located: Option<String>,
    interactive: Interactive,
) -> bool {
    match arguments {
        Arguments::Add(args) => located is None || kind_of_name(args.name@)
            == ConfigKeyKind::Default,
        Arguments::Switch(args) => switch_fails(rows, args, interactive),
        Arguments::Reset => !holds(rows, "default"@),
        Arguments::Show => false,
    }
}

/// How the arguments fail.
pub open spec fn failure(
    rows: Seq<ConfigView>,
    arguments: Arguments,
    located: Option<String>,
    interactive: Interactive,
    error: Errors,
) -> bool {
    match arguments {
        Arguments::Add(args) => add_failure(args, located, error),
        Arguments::Switch(args) => switch_failure(rows, args, interactive, error),
        Arguments::Reset => missed(rows, "default"@, error),
        Arguments::Show => error is PersistError,
    }
}

/// What a switch comes to when the key was settled as `domain`: a key
/// that could not be settled is the failure, and a key that was settled
/// is the one that is made active, unless the store fails.
pub open spec fn follows(domain: Result<ConfigKey, Errors>, done: Result<Outcome, Errors>) -> bool {
    match domain {
        Ok(key) => match done {
            Ok(outcome) => outcome == Outcome::Activated(key),
            Err(error) => error is PersistError,
        },
        Err(error) => done == Err::<Outcome, Errors>(error),
    }
}

/// What a switch without a name comes to: the key is chosen among the
/// registered configurations, and the switch follows from it.
pub open spec fn switch_to_choice<S: Store, P: Prompter>(
    store: &S,
    prompt: &P,
    interactive: Interactive,
    done: Result<Outcome, Errors>,
) -> bool {
    exists|domain: Result<ConfigKey, Errors>|
        #[trigger] chosen(store, prompt, interactive, domain) && follows(domain, done)
}

/// Makes the configuration that is named, or else picked among the
/// registered ones, the active one. What is made active was registered:
/// a switch to a name under which nothing is registered fails, and so
/// does one without a name where the user may not be asked. Whatever
/// fails, the store is as it was.
fn set<S: Store, P: Prompter>(
    args: ConfigSet,
    store: &mut S,
    prompt: &P,
    interactive: &Interactive,
) -> (done: Result<Outcome, Errors>)
    ensures
        done matches Ok(outcome) ==> {
            &&& outcome matches Outcome::Activated(key)
            &&& args.name matches Some(name) ==> key.name() == name@
            &&& holds(old(store).configs(), key.name())
            &&& final(store).configs() == activate(old(store).configs(), key.name())
        },
        done is Err ==> final(store).configs() == old(store).configs(),
        final(store).branches() == old(store).branches(),
        switch_fails(old(store).configs(), args, *interactive) ==> done is Err,
        args.name is None ==> switch_to_choice(&*old(store), prompt, *interactive, done),
        done matches Err(error) ==> switch_failure(
            old(store).configs(),
            args,
            *interactive,
            error,
        ),
{
    let ghost named = args.name is Some;
    let domain = args.try_into_domain(&*store, prompt, interactive);
    assert(!named ==> chosen(&*old(store), prompt, *interactive, domain));
    let key = match domain {
        Ok(key) => key,
        Err(error) => {
            return Err(error);
        },
    };
    match store.set_active_config(&key) {
        Ok(_) => Ok(Outcome::Activated(key)),
        Err(error) => Err(Errors::PersistError(error)),
    }
}

/// Makes the built-in configuration the active one.
fn reset<S: Store>(store: &mut S) -> (done: Result<Outcome, Errors>)
    ensures
        done matches Ok(outcome) ==> {
            &&& outcome matches Outcome::Reset(key)
            &&& key == ConfigKey::Default
            &&& final(store).configs() == activate(old(store).configs(), "default"@)
        },
        done matches Err(error) ==> missed(old(store).configs(), "default"@, error),
        done is Err ==> final(store).configs() == old(store).configs(),
        final(store).branches() == old(store).branches(),
        !holds(old(store).configs(), "default"@) ==> done is Err,
{
    let key = ConfigKey::Default;
    match store.set_active_config(&key) {
        Ok(_) => Ok(Outcome::Reset(key)),
        Err(error) => Err(Errors::PersistError(error)),
    }
}

/// What was done, without the warning.
pub open spec fn reported(done: Result<Report, Errors>) -> Result<Outcome, Errors> {
    match done {
        Ok(report) => Ok(report.outcome),
        Err(error) => Err(error),
    }
}

/// Carries out `arguments` on the store. `config_key` is the key of the
/// configuration in effect, and `located` the path of `config add` made
/// absolute, or nothing where no file is there. Arguments that are bound
/// to fail do fail, each in its own way. Whatever fails, the store is as
/// it was; the branches are never touched.
pub fn handler<S: Store, P: Prompter>(
    store: &mut S,
    config_key: &ConfigKey,
    arguments: Arguments,
    located: Option<String>,
    prompt: &P,
    interactive: &Interactive,
) -> (done: Result<Report, Errors>)
    ensures
        match done {
            Ok(report) => {
                &&& match overriding(*config_key) {
                    Some(text) => report.warning matches Some(given) && given@ == text,
                    None => report.warning is None,
                }
                &&& match arguments {
                    Arguments::Add(args) => {
                        &&& report.outcome matches Outcome::Added(key)
                        &&& key.name() == args.name@
                        &&& located matches Some(path)
                        &&& final(store).configs() == registered(
                            old(store).configs(),
                            added(args, path),
                        )
                    },
                    Arguments::Switch(args) => {
                        &&& report.outcome matches Outcome::Activated(key)
                        &&& args.name matches Some(name) ==> key.name() == name@
                        &&& holds(old(store).configs(), key.name())
                        &&& final(store).configs() == activate(old(store).configs(), key.name())
                    },
                    Arguments::Reset => {
                        &&& report.outcome matches Outcome::Reset(key)
                        &&& key == ConfigKey::Default
                        &&& holds(old(store).configs(), "default"@)
                        &&& final(store).configs() == activate(old(store).configs(), "default"@)
                    },
                    Arguments::Show => {
                        &&& report.outcome matches Outcome::Listed(rows)
                        &&& config_views(rows@) == shown_order(old(store).configs())
                        &&& final(store).configs() == old(store).configs()
                    },
                }
            },
            Err(error) => {
                &&& final(store).configs() == old(store).configs()
                &&& failure(old(store).configs(), arguments, located, *interactive, error)
            },
        },
        final(store).branches() == old(store).branches(),
        bound_to_fail(old(store).configs(), arguments, located, *interactive) ==> done is Err,
        arguments matches Arguments::Switch(args) && args.name is None ==> switch_to_choice(
            &*old(store),
            prompt,
            *interactive,
            reported(done),
        ),
{
    let warning = local_config_warning(config_key);
    let done = match arguments {
        Arguments::Add(args) => self::add(args, located, store),
        Arguments::Switch(args) => set(args, store, prompt, interactive),
        Arguments::Reset => reset(store),
        Arguments::Show => list(&*store),
    };
    match done {
        Ok(outcome) => Ok(Report { warning, outcome }),
        Err(error) => Err(error),
    }
}

} // verus!
