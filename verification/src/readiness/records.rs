//! The records that an agent's launch is worked out from.
use vstd::prelude::*;

use crate::env_map::EnvMap;
use crate::search;
use crate::text;

verus! {

/// A managed agent, as far as its launch is concerned.
#[derive(Debug)]
pub struct ManagedAgentRecord {
    pub pubkey: String,
    pub relay_url: String,
    pub persona_id: Option<String>,
    /// The runtime that the agent's definition asks for.
    pub runtime: Option<String>,
    /// The model that the agent is to use, where it has one of its own.
    pub model: Option<String>,
    /// The provider that the agent is to use, where it has one of its own.
    pub provider: Option<String>,
    /// The harness that was chosen from the catalog.
    pub launch_runtime_id: Option<String>,
    /// Whether the command was chosen as a command, and not from the catalog.
    pub raw_command_explicit: bool,
    pub agent_command_override: Option<String>,
    pub agent_args: Vec<String>,
    pub env_vars: EnvMap,
}

/// What a record holds.
#[verifier::ext_equal]
pub struct AgentRecordModel {
    pub pubkey: Seq<char>,
    pub relay_url: Seq<char>,
    pub persona_id: Option<Seq<char>>,
    pub runtime: Option<Seq<char>>,
    pub model: Option<Seq<char>>,
    pub provider: Option<Seq<char>>,
    pub launch_runtime_id: Option<Seq<char>>,
    pub raw_command_explicit: bool,
    pub agent_command_override: Option<Seq<char>>,
    pub agent_args: Seq<Seq<char>>,
    pub env_vars: Map<Seq<char>, Seq<char>>,
}

impl View for ManagedAgentRecord {
    type V = AgentRecordModel;

    open spec fn view(&self) -> AgentRecordModel {
        AgentRecordModel {
            pubkey: self.pubkey@,
            relay_url: self.relay_url@,
            persona_id: text::opt_text(self.persona_id),
            runtime: text::opt_text(self.runtime),
            model: text::opt_text(self.model),
            provider: text::opt_text(self.provider),
            launch_runtime_id: text::opt_text(self.launch_runtime_id),
            raw_command_explicit: self.raw_command_explicit,
            agent_command_override: text::opt_text(self.agent_command_override),
            agent_args: text::texts(self.agent_args@),
            env_vars: self.env_vars@,
        }
    }
}

/// A persona, as far as a launch is concerned.
#[derive(Debug)]
pub struct AgentDefinition {
    pub id: String,
    pub runtime: Option<String>,
    pub model: Option<String>,
    pub provider: Option<String>,
    pub env_vars: EnvMap,
}

/// What a persona holds.
#[verifier::ext_equal]
pub struct PersonaModel {
    pub id: Seq<char>,
    pub runtime: Option<Seq<char>>,
    pub model: Option<Seq<char>>,
    pub provider: Option<Seq<char>>,
    pub env_vars: Map<Seq<char>, Seq<char>>,
}

impl View for AgentDefinition {
    type V = PersonaModel;

    open spec fn view(&self) -> PersonaModel {
        PersonaModel {
            id: self.id@,
            runtime: text::opt_text(self.runtime),
            model: text::opt_text(self.model),
            provider: text::opt_text(self.provider),
            env_vars: self.env_vars@,
        }
    }
}

/// What a list of personas holds.
pub open spec fn persona_views(v: Seq<AgentDefinition>) -> Seq<PersonaModel> {
    v.map_values(|p: AgentDefinition| p@)
}

/// Whether the environments of all personas are well formed.
pub open spec fn personas_wf(v: Seq<AgentDefinition>) -> bool {
    forall|i: int| 0 <= i < v.len() ==> (#[trigger] v[i]).env_vars.wf()
}

/// The settings that hold for all agents.
#[derive(Debug)]
pub struct GlobalAgentConfig {
    pub model: Option<String>,
    pub provider: Option<String>,
    pub env_vars: EnvMap,
}

/// What such settings hold.
#[verifier::ext_equal]
pub struct GlobalModel {
    pub model: Option<Seq<char>>,
    pub provider: Option<Seq<char>>,
    pub env_vars: Map<Seq<char>, Seq<char>>,
}

impl View for GlobalAgentConfig {
    type V = GlobalModel;

    open spec fn view(&self) -> GlobalModel {
        GlobalModel {
            model: text::opt_text(self.model),
            provider: text::opt_text(self.provider),
            env_vars: self.env_vars@,
        }
    }
}

/// The position of the persona with this id.
pub open spec fn persona_at(v: Seq<PersonaModel>, id: Option<Seq<char>>) -> Option<int> {
    match id {
        Some(wanted) => search::first(v, |p: PersonaModel| p.id == wanted),
        None => None,
    }
}

/// The persona with this id.
pub fn find_persona<'a>(personas: &'a Vec<AgentDefinition>, id: &Option<String>) -> (r: Option<
    &'a AgentDefinition,
>)
    ensures
        match persona_at(persona_views(personas@), text::opt_text(*id)) {
            Some(i) => 0 <= i < personas@.len() && r == Some(&personas@[i]) && personas@[i]@
                == persona_views(personas@)[i],
            None => r is None,
        },
{
    let wanted: &String = match id {
        Some(w) => w,
        None => return None,
    };
    let ghost all = persona_views(personas@);
    let ghost p = |q: PersonaModel| q.id == wanted@;
    let mut i: usize = 0;
    while i < personas.len()
        invariant
            i <= personas.len(),
            all == persona_views(personas@),
            p == (|q: PersonaModel| q.id == wanted@),
            *id == Some(*wanted),
            forall|j: int| 0 <= j < i ==> !p(#[trigger] all[j]),
        decreases personas.len() - i,
    {
        assert(all[i as int] == personas@[i as int]@);
        if text::same(personas[i].id.as_str(), wanted.as_str()) {
            proof {
                search::first_is(all, p, i as int);
            }
            return Some(&personas[i]);
        }
        i += 1;
    }
    proof {
        search::first_holds(all, p);
    }
    None
}

} // verus!
