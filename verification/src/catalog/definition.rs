//! A harness as a user or a preset defines it.
use vstd::prelude::*;

use crate::env_map::EnvMap;
use crate::text;

verus! {

/// A harness as a user or a preset defines it.
#[derive(Debug)]
pub struct HarnessDefinition {
    pub id: String,
    pub label: String,
    pub command: String,
    pub args: Vec<String>,
    pub env: EnvMap,
    pub install_instructions_url: String,
    pub install_hint: String,
}

/// What a definition holds.
#[verifier::ext_equal]
pub struct DefinitionModel {
    pub id: Seq<char>,
    pub label: Seq<char>,
    pub command: Seq<char>,
    pub args: Seq<Seq<char>>,
    pub env: Map<Seq<char>, Seq<char>>,
    pub install_instructions_url: Seq<char>,
    pub install_hint: Seq<char>,
}

impl View for HarnessDefinition {
    type V = DefinitionModel;

    open spec fn view(&self) -> DefinitionModel {
        DefinitionModel {
            id: self.id@,
            label: self.label@,
            command: self.command@,
            args: text::texts(self.args@),
            env: self.env@,
            install_instructions_url: self.install_instructions_url@,
            install_hint: self.install_hint@,
        }
    }
}

/// What a list of definitions holds.
pub open spec fn definition_views(v: Seq<HarnessDefinition>) -> Seq<DefinitionModel> {
    v.map_values(|d: HarnessDefinition| d@)
}

impl HarnessDefinition {
    /// A copy of the definition.
    pub fn copy(&self) -> (r: HarnessDefinition)
        requires
            self.env.wf(),
        ensures
            r@ == self@,
            r.env.wf(),
    {
        HarnessDefinition {
            id: self.id.clone(),
            label: self.label.clone(),
            command: self.command.clone(),
            args: text::copy_list(&self.args),
            env: self.env.copy(),
            install_instructions_url: self.install_instructions_url.clone(),
            install_hint: self.install_hint.clone(),
        }
    }
}

} // verus!
