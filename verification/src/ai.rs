//! AI templates: a script and the hooks that call into it.
use std::collections::HashMap;
use vstd::prelude::*;

use crate::error::{unable_to_create_error, ResourceError, ResourceErrorView};
use crate::id_map::IdMap;

verus! {

/// The moments at which an AI script can be called.
#[derive(Clone, Copy, PartialOrd, Ord, Hash, PartialEq, Eq, Debug)]
pub enum FuncKind {
    OnDamaged,
    BeforeAttack,
    AfterAttack,
    BeforeDefense,
}

/// The part of a loaded module that AI templates read: the scripts, by id.
pub struct Module {
    pub scripts: IdMap<String>,
}

/// An AI template whose script has been looked up in the module.
#[derive(Debug)]
pub struct AITemplate {
    pub id: String,
    script: String,
    pub hooks: HashMap<FuncKind, String>,
}

/// The definition of an AI template as read from a resource file.
#[derive(Debug)]
pub struct AITemplateBuilder {
    pub id: String,
    pub script: String,
    pub hooks: HashMap<FuncKind, String>,
}

impl AITemplate {
    /// The text of the template's script.
    pub closed spec fn script_text(&self) -> Seq<char> {
        self.script@
    }

    /// The template's id.
    pub closed spec fn template_id(&self) -> String {
        self.id
    }

    /// The template's hooks.
    pub closed spec fn template_hooks(&self) -> HashMap<FuncKind, String> {
        self.hooks
    }

    /// Builds the template, taking the script that `builder.script` names from
    /// the module. Fails when the module holds no script of that id.
    pub fn new(builder: AITemplateBuilder, module: &Module) -> (r: Result<AITemplate, ResourceError>)
        ensures
            match r {
                Ok(t) => {
                    &&& module.scripts.map().dom().contains(builder.script@)
                    &&& t.script_text() == module.scripts.map()[builder.script@]
                    &&& t.template_id() == builder.id
                    &&& t.template_hooks() == builder.hooks
                },
                Err(e) => {
                    &&& !module.scripts.map().dom().contains(builder.script@)
                    &&& e@ == (ResourceErrorView::UnableToCreate {
                        kind: "ai_template"@,
                        id: builder.id@,
                    })
                },
            },
    {
        let script = match module.scripts.get(&builder.script) {
            None => {
                return Err(unable_to_create_error("ai_template", &builder.id));
            },
            Some(script) => script.clone(),
        };
        Ok(AITemplate { id: builder.id, script, hooks: builder.hooks })
    }

    /// A copy of the template's script.
    pub fn script(&self) -> (s: String)
        ensures
            s@ == self.script_text(),
    {
        self.script.clone()
    }
}

impl AITemplateBuilder {
    /// The id under which the template is registered.
    pub fn owned_id(&self) -> (s: String)
        ensures
            s@ == self.id@,
    {
        self.id.clone()
    }
}

} // verus!
