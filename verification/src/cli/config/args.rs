//! What `config` takes.

use vstd::prelude::*;

use crate::domain::adapters::{Prompter, SelectItem, Store};
use crate::domain::errors::{Errors, PersistError, UserInputError};
use crate::domain::models::{kind_of_name, Config, ConfigKey, ConfigStatus};
use crate::entry::Interactive;

verus! {

/// The four things `config` can do.
#[derive(Debug, Clone, PartialEq, Eq)]
pub enum Arguments {
    /// Registers a configuration file.
    Add(ConfigAdd),
    /// Switches to another configuration file.
    Switch(ConfigSet),
    /// Shows the registered configuration files.
    Show,
    /// Goes back to the built-in configuration.
    Reset,
}

/// The arguments of `config add`.
#[derive(Debug, Clone, PartialEq, Eq)]
pub struct ConfigAdd {
    /// Name by which the file is referred to.
    pub name: String,
    /// Path of the file.
    pub path: String,
}

/// The arguments of `config set`.
#[derive(Debug, Clone, PartialEq, Eq)]
pub struct ConfigSet {
    /// Name by which the file is referred to.
    pub name: Option<String>,
}

impl ConfigAdd {
    /// The configuration to register, as the active one. `located` is the
    /// path made absolute, or nothing where no file is there, which is an
    /// error.
    pub fn try_into_domain(self, located: Option<String>) -> (domain: Result<
        Config,
        UserInputError,
    >)
        ensures
            match located {
                Some(path) => {
                    &&& domain matches Ok(config)
                    &&& config.key.name() == self.name@
                    &&& config.key.kind() == kind_of_name(self.name@)
                    &&& config.path == path
                    &&& config.status == ConfigStatus::Active
                },
                None => domain matches Err(UserInputError::Validation { name }) && name@
                    == "config path"@,
            },
    {
        match located {
            Some(path) => Ok(
                Config::new(ConfigKey::from_name(self.name), path, ConfigStatus::Active),
            ),
            None => Err(UserInputError::Validation { name: "config path".to_owned() }),
        }
    }
}

/// The failure of a switch that names no configuration where the user may
/// not be asked for one.
pub open spec fn name_is_missing(error: Errors) -> bool {
    &&& error matches Errors::UserInput(UserInputError::Required { name })
    &&& name@ == "name"@
}

/// The failure of the user's input as a failure of the command.
pub open spec fn wrapped(picked: Result<ConfigKey, UserInputError>) -> Result<ConfigKey, Errors> {
    match picked {
        Ok(key) => Ok(key),
        Err(error) => Err(Errors::UserInput(error)),
    }
}

/// What a switch without a name comes to when the store answered
/// `listed` for the registered configurations: a failure of the store is
/// passed on, and else a configuration is selected among those listed.
pub open spec fn after_listing<P: Prompter>(
    prompt: &P,
    interactive: Interactive,
    listed: Result<Vec<Config>, PersistError>,
    domain: Result<ConfigKey, Errors>,
) -> bool {
    match listed {
        Ok(rows) => exists|picked: Result<ConfigKey, UserInputError>|
            #[trigger] selects(prompt, rows@, interactive, picked) && domain == wrapped(picked),
        Err(error) => domain == Err::<ConfigKey, Errors>(Errors::PersistError(error)),
    }
}

/// What a switch without a name comes to: the store is asked for the
/// registered configurations, and a configuration is selected among them.
pub open spec fn chosen<S: Store, P: Prompter>(
    store: &S,
    prompt: &P,
    interactive: Interactive,
    domain: Result<ConfigKey, Errors>,
) -> bool {
    exists|listed: Result<Vec<Config>, PersistError>|
        #[trigger] call_ensures(S::get_configurations, (store,), listed) && after_listing(
            prompt,
            interactive,
            listed,
            domain,
        )
}

impl ConfigSet {
    /// The key to switch to: the one named, or else the one that the user
    /// picks among the registered ones.
    pub fn try_into_domain<S: Store, P: Prompter>(
        self,
        store: &S,
        prompt: &P,
        interactive: &Interactive,
    ) -> (domain: Result<ConfigKey, Errors>)
        ensures
            match self.name {
                Some(name) => {
                    &&& domain matches Ok(key)
                    &&& key.name() == name@
                    &&& key.kind() == kind_of_name(name@)
                },
                None => {
                    &&& *interactive == Interactive::Disable ==> domain is Err
                    &&& domain matches Ok(key) ==> exists|i: int|
                        0 <= i < store.configs().len() && (#[trigger] store.configs()[i]).key
                            == key.name()
                    &&& domain matches Err(error) ==> error is PersistError || error is UserInput
                    &&& *interactive == Interactive::Disable ==> (domain matches Err(error)
                        ==> error is PersistError || name_is_missing(error))
                    &&& chosen(store, prompt, *interactive, domain)
                },
            },
    {
        match self.name {
            Some(name) => Ok(ConfigKey::from_name(name)),
            None => {
                let listed = store.get_configurations();
                assert(call_ensures(S::get_configurations, (store,), listed));
                let configurations = match listed {
                    Ok(rows) => rows,
                    Err(error) => {
                        return Err(Errors::PersistError(error));
                    },
                };
                let picked = prompt_configuration_select(configurations, prompt, *interactive);
                assert(after_listing(prompt, *interactive, listed, wrapped(picked)));
                match picked {
                    Ok(key) => {
                        proof {
                            let i = choose|i: int|
                                0 <= i < configurations.len() && (
                                #[trigger] configurations[i]).key == key;
                            assert(store.configs()[i] == configurations[i]@);
                        }
                        Ok(key)
                    },
                    Err(error) => Err(Errors::UserInput(error)),
                }
            },
        }
    }
}

/// The choices that stand for the configurations: one for each, in their
/// order, named by its key, with the key as its value and nothing said
/// about it.
pub open spec fn stand_for(items: Seq<SelectItem<ConfigKey>>, configurations: Seq<Config>) -> bool {
    &&& items.len() == configurations.len()
    &&& forall|i: int|
        0 <= i < items.len() ==> {
            &&& (#[trigger] items[i]).name@ == configurations[i].key.name()
            &&& items[i].value == configurations[i].key
            &&& items[i].description is None
        }
}

/// What picking comes to when the selection came back with `answer`: the
/// key of the choice that was picked, or the failure.
pub open spec fn picked_key(answer: Result<SelectItem<ConfigKey>, UserInputError>) -> Result<
    ConfigKey,
    UserInputError,
> {
    match answer {
        Ok(item) => Ok(item.value),
        Err(error) => Err(error),
    }
}

/// The user was asked to pick, under the heading "Configuration", among
/// the choices that stand for `configurations`, and `picked` is what
/// came of it.
pub open spec fn picks<P: Prompter>(
    selector: &P,
    configurations: Seq<Config>,
    picked: Result<ConfigKey, UserInputError>,
) -> bool {
    exists|
        heading: &str,
        items: Vec<SelectItem<ConfigKey>>,
        answer: Result<SelectItem<ConfigKey>, UserInputError>,
    |
        {
            &&& #[trigger] call_ensures(P::select::<ConfigKey>, (selector, heading, items), answer)
            &&& heading@ == "Configuration"@
            &&& stand_for(items@, configurations)
            &&& picked == picked_key(answer)
        }
}

/// What selecting a configuration comes to: where the user may not be
/// asked, the name is required and missing; else the user picks.
pub open spec fn selects<P: Prompter>(
    selector: &P,
    configurations: Seq<Config>,
    interactive: Interactive,
    picked: Result<ConfigKey, UserInputError>,
) -> bool {
    match interactive {
        Interactive::Disable => {
            &&& picked matches Err(UserInputError::Required { name })
            &&& name@ == "name"@
        },
        Interactive::Enable => picks(selector, configurations, picked),
    }
}

/// The choices that stand for `configurations`.
fn choices(configurations: &Vec<Config>) -> (items: Vec<SelectItem<ConfigKey>>)
    ensures
        stand_for(items@, configurations@),
{
    let mut items: Vec<SelectItem<ConfigKey>> = Vec::new();
    let mut i: usize = 0;
    while i < configurations.len()
        invariant
            i <= configurations.len(),
            stand_for(items@, configurations@.take(i as int)),
        decreases configurations.len() - i,
    {
        let key = configurations[i].key.duplicate();
        items.push(SelectItem { name: key.to_name(), value: key, description: None });
        i += 1;
    }
    assert(configurations@.take(configurations.len() as int) =~= configurations@);
    items
}

/// The key that the user picks among `configurations`. Where the user may
/// not be asked, the name of the key is required and missing.
pub fn prompt_configuration_select<P: Prompter>(
    configurations: Vec<Config>,
    selector: &P,
    interactive: Interactive,
) -> (picked: Result<ConfigKey, UserInputError>)
    ensures
        selects(selector, configurations@, interactive, picked),
        picked matches Ok(key) ==> exists|i: int|
            0 <= i < configurations.len() && (#[trigger] configurations[i]).key == key,
{
    match interactive {
        Interactive::Disable => Err(UserInputError::Required { name: "name".to_owned() }),
        Interactive::Enable => {
            let items = choices(&configurations);
            let heading = "Configuration";
            let answer = selector.select(heading, items);
            assert(call_ensures(P::select::<ConfigKey>, (selector, heading, items), answer));
            match answer {
                Ok(selected) => {
                    proof {
                        let i = choose|i: int| 0 <= i < items.len() && items[i] == selected;
                        assert(configurations[i].key == selected.value);
                    }
                    Ok(selected.value)
                },
                Err(error) => Err(error),
            }
        },
    }
}

} // verus!
