//! What `commit` takes.

use vstd::prelude::*;

use crate::config::{lemma_first_named, template_named, AppConfig, TemplateConfig};
use crate::domain::adapters::{Prompter, SelectItem};
use crate::domain::commands::CommitArgs;
use crate::domain::errors::UserInputError;
use crate::domain::models::copy_text;
use crate::entry::Interactive;

verus! {

/// The arguments of `commit`.
#[derive(Debug, Clone, PartialEq, Eq)]
pub struct Arguments {
    /// Name of the commit template to be used.
    pub template: Option<String>,
    /// Ticket that the commit is about.
    pub ticket: Option<String>,
    /// Message of the commit.
    pub message: Option<String>,
    /// The part of the code that the changes touch.
    pub scope: Option<String>,
}

/// The choices that stand for the templates: one for each, in their
/// order, under the template's name, with the name as its value and the
/// template's description.
pub open spec fn stand_for(
    items: Seq<SelectItem<String>>,
    templates: Seq<(String, TemplateConfig)>,
) -> bool {
    &&& items.len() == templates.len()
    &&& forall|i: int|
        0 <= i < items.len() ==> {
            &&& (#[trigger] items[i]).name == templates[i].0
            &&& items[i].value == templates[i].0
            &&& items[i].description == Some(templates[i].1.description)
        }
}

/// What picking comes to when the selection came back with `answer`: the
/// name of the choice that was picked, or the failure.
pub open spec fn picked_name(answer: Result<SelectItem<String>, UserInputError>) -> Result<
    String,
    UserInputError,
> {
    match answer {
        Ok(item) => Ok(item.name),
        Err(error) => Err(error),
    }
}

/// The user was asked to pick, under the heading "Template:", among the
/// choices that stand for `templates`, and `picked` is what came of it.
pub open spec fn picks<P: Prompter>(
    prompter: &P,
    templates: Seq<(String, TemplateConfig)>,
    picked: Result<String, UserInputError>,
) -> bool {
    exists|
        heading: &str,
        items: Vec<SelectItem<String>>,
        answer: Result<SelectItem<String>, UserInputError>,
    |
        {
            &&& #[trigger] call_ensures(P::select::<String>, (prompter, heading, items), answer)
            &&& heading@ == "Template:"@
            &&& stand_for(items@, templates)
            &&& picked == picked_name(answer)
        }
}

/// What selecting a template comes to: where the user may not be asked,
/// the template is required and missing; else the user picks.
pub open spec fn selects<P: Prompter>(
    prompter: &P,
    templates: Seq<(String, TemplateConfig)>,
    interactive: Interactive,
    picked: Result<String, UserInputError>,
) -> bool {
    match interactive {
        Interactive::Disable => {
            &&& picked matches Err(UserInputError::Required { name })
            &&& name@ == "template"@
        },
        Interactive::Enable => picks(prompter, templates, picked),
    }
}

/// What the arguments come to when the template was selected as
/// `picked`: the other values stand as they are.
pub open spec fn with_template(args: Arguments, picked: Result<String, UserInputError>) -> Result<
    CommitArgs,
    UserInputError,
> {
    match picked {
        Ok(name) => Ok(
            CommitArgs {
                template: name,
                ticket: args.ticket,
                message: args.message,
                scope: args.scope,
            },
        ),
        Err(error) => Err(error),
    }
}

/// What the arguments come to. A template that is named must be one of
/// `config`, and is an invalid command where it is not. A template that
/// is not named is selected among those of `config`. The other values
/// stand as they are.
pub open spec fn settled<P: Prompter>(
    prompter: &P,
    config: AppConfig,
    interactive: Interactive,
    args: Arguments,
    domain: Result<CommitArgs, UserInputError>,
) -> bool {
    match args.template {
        Some(name) => match template_named(config@, name@) {
            Some(_) => domain == with_template(args, Ok(name)),
            None => domain matches Err(UserInputError::InvalidCommand { name: unknown })
                && unknown@ == name@,
        },
        None => exists|picked: Result<String, UserInputError>|
            #[trigger] selects(prompter, config.commit.templates@, interactive, picked) && domain
                == with_template(args, picked),
    }
}

/// The choices that stand for `templates`.
fn choices(templates: &Vec<(String, TemplateConfig)>) -> (items: Vec<SelectItem<String>>)
    ensures
        stand_for(items@, templates@),
{
    let mut items: Vec<SelectItem<String>> = Vec::new();
    let mut i: usize = 0;
    while i < templates.len()
        invariant
            i <= templates.len(),
            stand_for(items@, templates@.take(i as int)),
        decreases templates.len() - i,
    {
        items.push(
            SelectItem {
                name: templates[i].0.clone(),
                value: templates[i].0.clone(),
                description: Some(templates[i].1.description.clone()),
            },
        );
        i += 1;
    }
    assert(templates@.take(templates.len() as int) =~= templates@);
    items
}

impl Arguments {
    /// What is to be committed with. A template that is named must be one
    /// of `config`. A template that is not named is picked by the user
    /// among those of `config`, where the user may be asked, and is
    /// required and missing where not. The other values stand as they
    /// are.
    pub fn try_into_domain<P: Prompter>(
        &self,
        config: &AppConfig,
        prompter: &P,
        interactive: &Interactive,
    ) -> (domain: Result<CommitArgs, UserInputError>)
        ensures
            settled(prompter, *config, *interactive, *self, domain),
            domain matches Ok(commit) ==> {
                &&& template_named(config@, commit.template@) is Some
                &&& commit.ticket == self.ticket
                &&& commit.message == self.message
                &&& commit.scope == self.scope
            },
    {
        let template = match &self.template {
            Some(name) => name.clone(),
            None => {
                let picked = Self::prompt_template_select(
                    &config.commit.templates,
                    prompter,
                    *interactive,
                );
                match picked {
                    Ok(name) => {
                        proof {
                            let i = choose|i: int|
                                0 <= i < config.commit.templates.len() && (
                                #[trigger] config.commit.templates[i]).0 == name;
                            assert(config@[i].name == name@);
                            lemma_first_named(config@, name@);
                        }
                        name
                    },
                    Err(error) => {
                        return Err(error);
                    },
                }
            },
        };
        match config.validate_template(template.as_str()) {
            Ok(()) => Ok(
                CommitArgs {
                    template,
                    ticket: copy_text(&self.ticket),
                    message: copy_text(&self.message),
                    scope: copy_text(&self.scope),
                },
            ),
            Err(error) => Err(error),
        }
    }

    /// The name of the template that the user picks among `templates`.
    /// Where the user may not be asked, the template is required and
    /// missing.
    pub fn prompt_template_select<P: Prompter>(
        templates: &Vec<(String, TemplateConfig)>,
        prompter: &P,
        interactive: Interactive,
    ) -> (picked: Result<String, UserInputError>)
        ensures
            selects(prompter, templates@, interactive, picked),
            picked matches Ok(name) ==> exists|i: int|
                0 <= i < templates.len() && (#[trigger] templates[i]).0 == name,
    {
        match interactive {
            Interactive::Disable => Err(UserInputError::Required { name: "template".to_owned() }),
            Interactive::Enable => {
                let items = choices(templates);
                let heading = "Template:";
                let answer = prompter.select(heading, items);
                assert(call_ensures(P::select::<String>, (prompter, heading, items), answer));
                match answer {
                    Ok(selected) => {
                        proof {
                            let i = choose|i: int| 0 <= i < items.len() && items[i] == selected;
                            assert(templates[i].0 == selected.name);
                        }
                        Ok(selected.name)
                    },
                    Err(error) => Err(error),
                }
            },
        }
    }
}

} // verus!
