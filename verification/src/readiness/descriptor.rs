//! What a managed agent is launched with: its command, its arguments and its environment.
use vstd::prelude::*;

use crate::catalog::identity;
use crate::catalog::identity::{Catalog, CatalogHarnessLaunchSpec, CatalogModel, LaunchModel};
use crate::catalog::definition::HarnessDefinition;
use crate::catalog::runtime_metadata;
use crate::catalog::runtime_metadata::{KnownAcpRuntime, RuntimeModel};
use crate::decision;
use crate::env_map;
use crate::env_map::EnvMap;
use crate::readiness::records;
use crate::readiness::records::{
    AgentDefinition, AgentRecordModel, GlobalAgentConfig, GlobalModel, ManagedAgentRecord,
    PersonaModel,
};
use crate::text;

verus! {

/// What the launch of an agent is worked out with: the catalog, the environment that is
/// built in, and the answers that only the host has.
pub struct HarnessHost<'a, A, N, M, R, U> where
    A: Fn(&str) -> bool,
    N: Fn(&str, Vec<String>) -> Vec<String>,
    M: Fn(
        &KnownAcpRuntime,
        &ManagedAgentRecord,
        &Vec<AgentDefinition>,
        &GlobalAgentConfig,
    ) -> Vec<(String, String)>,
    R: Fn(&str) -> bool,
    U: Fn(&str) -> bool,
 {
    pub catalog: &'a Catalog,
    pub baked_env: &'a EnvMap,
    /// Whether a command is installed.
    pub command_is_available: A,
    /// What the arguments of a command come to.
    pub normalize_args: N,
    /// The variables by which a runtime is told the agent's model and provider, which follow
    /// from its record, its persona and the settings for all agents.
    pub metadata_env: M,
    /// Whether a variable may not be set by a harness.
    pub is_reserved_env_key: R,
    /// Whether a variable may be set by a user.
    pub is_user_env_key: U,
}

impl<'a, A, N, M, R, U> HarnessHost<'a, A, N, M, R, U> where
    A: Fn(&str) -> bool,
    N: Fn(&str, Vec<String>) -> Vec<String>,
    M: Fn(
        &KnownAcpRuntime,
        &ManagedAgentRecord,
        &Vec<AgentDefinition>,
        &GlobalAgentConfig,
    ) -> Vec<(String, String)>,
    R: Fn(&str) -> bool,
    U: Fn(&str) -> bool,
 {
    /// Whether the host's data are well formed and it can be asked everything.
    pub open spec fn ready(self) -> bool {
        &&& self.catalog.wf()
        &&& self.baked_env.wf()
        &&& forall|c: &str| #[trigger] call_requires(self.command_is_available, (c,))
        &&& forall|c: &str, args: Vec<String>| #[trigger]
            call_requires(self.normalize_args, (c, args))
        &&& forall|
            rt: &KnownAcpRuntime,
            r: &ManagedAgentRecord,
            p: &Vec<AgentDefinition>,
            g: &GlobalAgentConfig,
        | #[trigger]
            call_requires(self.metadata_env, (rt, r, p, g))
        &&& decision::decides(self.is_reserved_env_key)
        &&& decision::decides(self.is_user_env_key)
    }
}

/// The effective environment of an agent, with what else is known of its launch.
#[derive(Debug)]
pub struct EffectiveAgentEnv {
    pub env: EnvMap,
    /// The harness of the catalog, where there is one.
    pub runtime_id: Option<String>,
    pub effective_args: Vec<String>,
    /// The configuration file of the harness, where it has one.
    pub config_file_path: Option<&'static str>,
    pub effective_command: String,
}

/// What an effective environment holds.
#[verifier::ext_equal]
pub struct AgentEnvModel {
    pub env: Map<Seq<char>, Seq<char>>,
    pub runtime_id: Option<Seq<char>>,
    pub effective_args: Seq<Seq<char>>,
    pub config_file_path: Option<Seq<char>>,
    pub effective_command: Seq<char>,
}

impl View for EffectiveAgentEnv {
    type V = AgentEnvModel;

    open spec fn view(&self) -> AgentEnvModel {
        AgentEnvModel {
            env: self.env@,
            runtime_id: text::opt_text(self.runtime_id),
            effective_args: text::texts(self.effective_args@),
            config_file_path: runtime_metadata::opt_word(self.config_file_path),
            effective_command: self.effective_command@,
        }
    }
}

/// All that an agent is launched with.
#[derive(Debug)]
pub struct EffectiveHarnessDescriptor {
    /// The harness of the catalog; `None` only of records that keep a bare command.
    pub runtime_id: Option<String>,
    pub command: String,
    pub args: Vec<String>,
    pub env: EnvMap,
}

/// What a descriptor holds.
#[verifier::ext_equal]
pub struct DescriptorModel {
    pub runtime_id: Option<Seq<char>>,
    pub command: Seq<char>,
    pub args: Seq<Seq<char>>,
    pub env: Map<Seq<char>, Seq<char>>,
}

impl View for EffectiveHarnessDescriptor {
    type V = DescriptorModel;

    open spec fn view(&self) -> DescriptorModel {
        DescriptorModel {
            runtime_id: text::opt_text(self.runtime_id),
            command: self.command@,
            args: text::texts(self.args@),
            env: self.env@,
        }
    }
}

/// The position of the runtime that a launch belongs to: the one with its id, or else the
/// first that is known by its command.
pub open spec fn launch_runtime(
    m: CatalogModel,
    runtime_id: Option<Seq<char>>,
    command: Seq<char>,
) -> Option<int> {
    match runtime_id {
        Some(id) => match identity::runtime_at(m, id) {
            Some(i) => Some(i),
            None => identity::runtime_by_command(m, command),
        },
        None => identity::runtime_by_command(m, command),
    }
}

/// The runtime that a launch belongs to.
fn find_launch_runtime<'a>(
    catalog: &'a Catalog,
    runtime_id: &Option<String>,
    command: &str,
) -> (r: Option<&'a KnownAcpRuntime>)
    ensures
        match launch_runtime(catalog@, text::opt_text(*runtime_id), command@) {
            Some(i) => 0 <= i < catalog.runtimes@.len() && r == Some(&catalog.runtimes@[i])
                && catalog.runtimes@[i]@ == catalog@.runtimes[i],
            None => r is None,
        },
{
    match runtime_id {
        Some(id) => match catalog.known_acp_runtime_exact(id.as_str()) {
            Some(runtime) => Some(runtime),
            None => catalog.known_acp_runtime(command),
        },
        None => catalog.known_acp_runtime(command),
    }
}

impl EffectiveHarnessDescriptor {
    /// The richly described runtime that the launch belongs to.
    pub fn known_runtime<'a>(&self, catalog: &'a Catalog) -> (r: Option<&'a KnownAcpRuntime>)
        ensures
            match launch_runtime(catalog@, self@.runtime_id, self@.command) {
                Some(i) => 0 <= i < catalog.runtimes@.len() && r == Some(&catalog.runtimes@[i])
                    && catalog.runtimes@[i]@ == catalog@.runtimes[i],
                None => r is None,
            },
    {
        find_launch_runtime(catalog, &self.runtime_id, self.command.as_str())
    }
}

/// The harness of the catalog that an agent is launched with: the one that was chosen for
/// it; or, where a command was set but not chosen as such, the one harness that is known by
/// it; or, where no command was set, the one that the agent or its persona asks for.
pub open spec fn selected_id(
    m: CatalogModel,
    record: AgentRecordModel,
    personas: Seq<PersonaModel>,
) -> Option<Seq<char>> {
    if record.launch_runtime_id is Some {
        record.launch_runtime_id
    } else {
        match record.agent_command_override {
            Some(command) => if record.raw_command_explicit {
                None
            } else {
                identity::inferred_id(m, command)
            },
            None => if record.runtime is Some {
                record.runtime
            } else {
                match records::persona_at(personas, record.persona_id) {
                    Some(i) => personas[i].runtime,
                    None => None,
                }
            },
        }
    }
}

/// The harness of the catalog that an agent is launched with.
pub fn select_catalog_id(
    catalog: &Catalog,
    record: &ManagedAgentRecord,
    personas: &Vec<AgentDefinition>,
) -> (r: Option<String>)
    ensures
        text::opt_text(r) == selected_id(catalog@, record@, records::persona_views(personas@)),
{
    if record.launch_runtime_id.is_some() {
        return text::copy_opt(&record.launch_runtime_id);
    }
    match &record.agent_command_override {
        Some(command) => {
            if record.raw_command_explicit {
                None
            } else {
                catalog.unique_catalog_runtime_id_for_command(command.as_str())
            }
        },
        None => {
            if record.runtime.is_some() {
                return text::copy_opt(&record.runtime);
            }
            match records::find_persona(personas, &record.persona_id) {
                Some(persona) => text::copy_opt(&persona.runtime),
                None => None,
            }
        },
    }
}

/// What a user sets: the lower layer under the upper one, without what users may not set.
pub open spec fn user_env(
    lower: Map<Seq<char>, Seq<char>>,
    upper: Map<Seq<char>, Seq<char>>,
    allowed: spec_fn(Seq<char>) -> bool,
) -> Map<Seq<char>, Seq<char>> {
    env_map::kept(
        lower.union_prefer_right(upper),
        |k: Seq<char>| allowed(k) == true,
    )
}

/// What a user sets: the lower layer under the upper one, without what users may not set.
pub fn merged_user_env<U: Fn(&str) -> bool>(
    lower: &EnvMap,
    upper: &EnvMap,
    is_user_env_key: &U,
) -> (r: EnvMap)
    requires
        lower.wf(),
        upper.wf(),
        decision::decides(*is_user_env_key),
    ensures
        r.wf(),
        r@ == user_env(lower@, upper@, decision::verdict(*is_user_env_key)),
{
    let mut both = lower.copy();
    both.extend(upper);
    both.filtered(is_user_env_key, true)
}

/// The environment of the persona with this id; empty where there is none.
pub open spec fn persona_env(personas: Seq<PersonaModel>, id: Option<Seq<char>>) -> Map<
    Seq<char>,
    Seq<char>,
> {
    match records::persona_at(personas, id) {
        Some(i) => personas[i].env_vars,
        None => Map::empty(),
    }
}

/// The environment of the persona with this id; empty where there is none.
pub fn live_persona_env(personas: &Vec<AgentDefinition>, id: &Option<String>) -> (r: EnvMap)
    requires
        records::personas_wf(personas@),
    ensures
        r.wf(),
        r@ == persona_env(records::persona_views(personas@), text::opt_text(*id)),
{
    match records::find_persona(personas, id) {
        Some(persona) => persona.env_vars.copy(),
        None => EnvMap::new(),
    }
}

/// What a harness sets: all but what harnesses may not set.
pub open spec fn harness_env(
    env: Map<Seq<char>, Seq<char>>,
    reserved: spec_fn(Seq<char>) -> bool,
) -> Map<Seq<char>, Seq<char>> {
    env_map::kept(env, |k: Seq<char>| reserved(k) == false)
}

/// The layers of an agent's environment, each over the one before: what is built in, what
/// tells the runtime its model and provider, the runtime's own variables, the definition's,
/// those of all agents, and those of the persona and the agent.
pub open spec fn layered_env(
    baked: Map<Seq<char>, Seq<char>>,
    metadata: Seq<(Seq<char>, Seq<char>)>,
    runtime_env: Map<Seq<char>, Seq<char>>,
    definition_env: Map<Seq<char>, Seq<char>>,
    global: Map<Seq<char>, Seq<char>>,
    persona: Map<Seq<char>, Seq<char>>,
    agent: Map<Seq<char>, Seq<char>>,
    reserved: spec_fn(Seq<char>) -> bool,
    allowed: spec_fn(Seq<char>) -> bool,
) -> Map<Seq<char>, Seq<char>> {
    baked.union_prefer_right(env_map::pairs_env(metadata)).union_prefer_right(
        harness_env(runtime_env, reserved),
    ).union_prefer_right(harness_env(definition_env, reserved)).union_prefer_right(
        user_env(Map::empty(), global, allowed),
    ).union_prefer_right(user_env(persona, agent, allowed))
}

/// The variables that belong to a runtime, where there is one.
pub open spec fn runtime_env(runtime: Option<RuntimeModel>) -> Map<Seq<char>, Seq<char>> {
    match runtime {
        Some(r) => env_map::pairs_env(r.default_env),
        None => Map::empty(),
    }
}

/// The variables that belong to a definition, where there is one.
pub open spec fn optional_env(env: Option<Map<Seq<char>, Seq<char>>>) -> Map<
    Seq<char>,
    Seq<char>,
> {
    match env {
        Some(e) => e,
        None => Map::empty(),
    }
}

/// The layers of an agent's environment, given the variables that tell its runtime the
/// model and the provider.
pub fn layer_env<R: Fn(&str) -> bool, U: Fn(&str) -> bool>(
    baked: &EnvMap,
    metadata: &Vec<(String, String)>,
    runtime: Option<&KnownAcpRuntime>,
    definition: &Option<HarnessDefinition>,
    global: &EnvMap,
    persona: &EnvMap,
    agent: &EnvMap,
    is_reserved_env_key: &R,
    is_user_env_key: &U,
) -> (r: EnvMap)
    requires
        baked.wf(),
        definition matches Some(d) ==> d.env.wf(),
        global.wf(),
        persona.wf(),
        agent.wf(),
        decision::decides(*is_reserved_env_key),
        decision::decides(*is_user_env_key),
    ensures
        r.wf(),
        r@ == layered_env(
            baked@,
            env_map::pair_views(metadata@),
            runtime_env(
                match runtime {
                    Some(rt) => Some(rt@),
                    None => None,
                },
            ),
            optional_env(
                match definition {
                    Some(d) => Some(d.env@),
                    None => None,
                },
            ),
            global@,
            persona@,
            agent@,
            decision::verdict(*is_reserved_env_key),
            decision::verdict(*is_user_env_key),
        ),
{
    let mut env = baked.copy();
    env.insert_pairs(metadata);
    let own: EnvMap = match runtime {
        Some(rt) => identity::env_of_pairs(rt.default_env),
        None => EnvMap::new(),
    };
    let own = own.filtered(is_reserved_env_key, false);
    env.extend(&own);
    let defined: EnvMap = match definition {
        Some(d) => d.env.copy(),
        None => EnvMap::new(),
    };
    let defined = defined.filtered(is_reserved_env_key, false);
    env.extend(&defined);
    let nothing = EnvMap::new();
    let global_env = merged_user_env(&nothing, global, is_user_env_key);
    env.extend(&global_env);
    let own_env = merged_user_env(persona, agent, is_user_env_key);
    env.extend(&own_env);
    env
}

/// Whether `pairs` tell a runtime the model and provider of this agent; there are none without
/// a runtime.
pub open spec fn metadata_given<
    M: Fn(
        &KnownAcpRuntime,
        &ManagedAgentRecord,
        &Vec<AgentDefinition>,
        &GlobalAgentConfig,
    ) -> Vec<(String, String)>,
>(
    metadata_env: M,
    runtime: Option<KnownAcpRuntime>,
    record: AgentRecordModel,
    personas: Seq<PersonaModel>,
    global: GlobalModel,
    pairs: Seq<(Seq<char>, Seq<char>)>,
) -> bool {
    match runtime {
        Some(rt) => exists|
            r: &ManagedAgentRecord,
            p: &Vec<AgentDefinition>,
            g: &GlobalAgentConfig,
            v: Vec<(String, String)>,
        |
            {
                &&& r@ == record
                &&& records::persona_views(p@) == personas
                &&& g@ == global
                &&& env_map::pair_views(v@) == pairs
                &&& #[trigger] call_ensures(metadata_env, (&rt, r, p, g), v)
            },
        None => pairs == Seq::<(Seq<char>, Seq<char>)>::empty(),
    }
}

/// Whether the arguments `given` to a command come to `args`.
pub open spec fn normalized<N: Fn(&str, Vec<String>) -> Vec<String>>(
    normalize_args: N,
    command: Seq<char>,
    given: Seq<Seq<char>>,
    args: Seq<Seq<char>>,
) -> bool {
    exists|c: &str, g: Vec<String>, a: Vec<String>|
        {
            &&& c@ == command
            &&& text::texts(g@) == given
            &&& text::texts(a@) == args
            &&& #[trigger] call_ensures(normalize_args, (c, g), a)
        }
}

/// Whether a record has arguments of its own that are more than white space.
pub open spec fn has_own_args(args: Seq<Seq<char>>) -> bool {
    exists|i: int| 0 <= i < args.len() && !text::blank(#[trigger] args[i])
}

/// Whether a record has arguments of its own that are more than white space.
fn record_has_args(args: &Vec<String>) -> (r: bool)
    ensures
        r == has_own_args(text::texts(args@)),
{
    let ghost all = text::texts(args@);
    let mut i: usize = 0;
    while i < args.len()
        invariant
            i <= args.len(),
            all == text::texts(args@),
            forall|j: int| 0 <= j < i ==> text::blank(#[trigger] all[j]),
        decreases args.len() - i,
    {
        assert(all[i as int] == args@[i as int]@);
        if !text::is_blank(args[i].as_str()) {
            return true;
        }
        i += 1;
    }
    false
}

/// The arguments that an agent's arguments are worked out from: its own where it has some,
/// else those of its harness.
pub open spec fn given_args(record: AgentRecordModel, spec: Option<LaunchModel>) -> Seq<Seq<char>> {
    if has_own_args(record.agent_args) {
        record.agent_args
    } else {
        match spec {
            Some(s) => s.default_args,
            None => record.agent_args,
        }
    }
}

/// What an optional launch description holds.
pub open spec fn launch_model(spec: Option<CatalogHarnessLaunchSpec>) -> Option<LaunchModel> {
    match spec {
        Some(s) => Some(s@),
        None => None,
    }
}

/// The runtime at a position of the catalog.
pub open spec fn runtime_value(catalog: Catalog, at: Option<int>) -> Option<KnownAcpRuntime> {
    match at {
        Some(i) => Some(catalog.runtimes@[i]),
        None => None,
    }
}

/// The runtime behind an optional reference.
pub open spec fn referenced_runtime(runtime: Option<&KnownAcpRuntime>) -> Option<KnownAcpRuntime> {
    match runtime {
        Some(rt) => Some(*rt),
        None => None,
    }
}

impl<'a, A, N, M, R, U> HarnessHost<'a, A, N, M, R, U> where
    A: Fn(&str) -> bool,
    N: Fn(&str, Vec<String>) -> Vec<String>,
    M: Fn(
        &KnownAcpRuntime,
        &ManagedAgentRecord,
        &Vec<AgentDefinition>,
        &GlobalAgentConfig,
    ) -> Vec<(String, String)>,
    R: Fn(&str) -> bool,
    U: Fn(&str) -> bool,
 {
    /// Whether `env` is the environment of an agent whose launch belongs to this runtime and
    /// has this definition environment.
    pub open spec fn gives_env(
        self,
        runtime: Option<KnownAcpRuntime>,
        definition_env: Map<Seq<char>, Seq<char>>,
        record: AgentRecordModel,
        personas: Seq<PersonaModel>,
        global: GlobalModel,
        env: Map<Seq<char>, Seq<char>>,
    ) -> bool {
        exists|pairs: Seq<(Seq<char>, Seq<char>)>|
            {
                &&& #[trigger] metadata_given(
                    self.metadata_env,
                    runtime,
                    record,
                    personas,
                    global,
                    pairs,
                )
                &&& env == layered_env(
                    self.baked_env@,
                    pairs,
                    runtime_env(
                        match runtime {
                            Some(rt) => Some(rt@),
                            None => None,
                        },
                    ),
                    definition_env,
                    global.env_vars,
                    persona_env(personas, record.persona_id),
                    record.env_vars,
                    decision::verdict(self.is_reserved_env_key),
                    decision::verdict(self.is_user_env_key),
                )
            }
    }

    /// Whether `d` describes the launch of an agent by this command, out of the catalog
    /// where `spec` is given.
    pub open spec fn assembles(
        self,
        record: AgentRecordModel,
        personas: Seq<PersonaModel>,
        global: GlobalModel,
        spec: Option<LaunchModel>,
        command: Seq<char>,
        d: DescriptorModel,
    ) -> bool {
        let runtime_id = match spec {
            Some(s) => Some(s.runtime_id),
            None => None,
        };
        let definition_env = match spec {
            Some(s) => match s.definition {
                Some(def) => def.env,
                None => Map::empty(),
            },
            None => Map::empty(),
        };
        &&& d.runtime_id == runtime_id
        &&& d.command == command
        &&& if record.raw_command_explicit {
            d.args == record.agent_args
        } else {
            normalized(self.normalize_args, command, given_args(record, spec), d.args)
        }
        &&& self.gives_env(
            runtime_value(
                *self.catalog,
                launch_runtime(self.catalog@, runtime_id, command),
            ),
            definition_env,
            record,
            personas,
            global,
            d.env,
        )
    }

    /// Whether `r` is the description of an agent's launch. `recorded` is the command that
    /// the record itself leads to; where that fails, so does the description.
    pub open spec fn describes(
        self,
        record: AgentRecordModel,
        personas: Seq<PersonaModel>,
        global: GlobalModel,
        recorded: Result<Seq<char>, Seq<char>>,
        r: Result<DescriptorModel, Seq<char>>,
    ) -> bool {
        match selected_id(self.catalog@, record, personas) {
            None => match recorded {
                Err(reason) => r == Err::<DescriptorModel, Seq<char>>(reason),
                Ok(command) => r matches Ok(d) && self.assembles(
                    record,
                    personas,
                    global,
                    None,
                    command,
                    d,
                ),
            },
            Some(id) => exists|launch: Result<LaunchModel, Seq<char>>|
                {
                    &&& identity::launches(*self.catalog, id, self.command_is_available, launch)
                    &&& #[trigger] self.describes_launch(
                        record,
                        personas,
                        global,
                        launch,
                        recorded,
                        r,
                    )
                },
        }
    }

    /// Whether `r` is the description of an agent's launch out of the catalog, where its
    /// harness is launched as `launch` says.
    pub open spec fn describes_launch(
        self,
        record: AgentRecordModel,
        personas: Seq<PersonaModel>,
        global: GlobalModel,
        launch: Result<LaunchModel, Seq<char>>,
        recorded: Result<Seq<char>, Seq<char>>,
        r: Result<DescriptorModel, Seq<char>>,
    ) -> bool {
        match (launch, recorded) {
            (Err(reason), _) => r == Err::<DescriptorModel, Seq<char>>(reason),
            (Ok(_), Err(reason)) => r == Err::<DescriptorModel, Seq<char>>(reason),
            (Ok(spec), Ok(_)) => r matches Ok(d) && self.assembles(
                record,
                personas,
                global,
                Some(spec),
                spec.command,
                d,
            ),
        }
    }

    /// The environment of an agent whose launch belongs to this runtime and definition.
    fn env_with_def(
        &self,
        record: &ManagedAgentRecord,
        personas: &Vec<AgentDefinition>,
        runtime: Option<&KnownAcpRuntime>,
        global: &GlobalAgentConfig,
        definition: &Option<HarnessDefinition>,
    ) -> (r: EnvMap)
        requires
            self.ready(),
            record.env_vars.wf(),
            records::personas_wf(personas@),
            global.env_vars.wf(),
            definition matches Some(d) ==> d.env.wf(),
        ensures
            r.wf(),
            self.gives_env(
                referenced_runtime(runtime),
                optional_env(
                    match definition {
                        Some(d) => Some(d.env@),
                        None => None,
                    },
                ),
                record@,
                records::persona_views(personas@),
                global@,
                r@,
            ),
    {
        let metadata: Vec<(String, String)> = match runtime {
            Some(rt) => (self.metadata_env)(rt, record, personas, global),
            None => Vec::new(),
        };
        assert(metadata_given(
            self.metadata_env,
            referenced_runtime(runtime),
            record@,
            records::persona_views(personas@),
            global@,
            env_map::pair_views(metadata@),
        )) by {
            if runtime is None {
                assert(env_map::pair_views(metadata@) =~= Seq::empty());
            }
        }
        let persona = live_persona_env(personas, &record.persona_id);
        layer_env(
            self.baked_env,
            &metadata,
            runtime,
            definition,
            &global.env_vars,
            &persona,
            &record.env_vars,
            &self.is_reserved_env_key,
            &self.is_user_env_key,
        )
    }

    /// How the harness with this id is launched on the host.
    pub fn resolve_catalog_harness_by_id(&self, id: &str) -> (r: Result<
        CatalogHarnessLaunchSpec<'a>,
        String,
    >)
        requires
            self.ready(),
        ensures
            identity::launches(
                *self.catalog,
                id@,
                self.command_is_available,
                identity::launch_view(r),
            ),
            r matches Ok(spec) ==> spec.wf(),
    {
        self.catalog.resolve_catalog_harness_by_id_with(id, &self.command_is_available)
    }

    /// What the arguments of a command come to.
    fn normalize(&self, command: &str, given: Vec<String>) -> (r: Vec<String>)
        requires
            self.ready(),
        ensures
            normalized(self.normalize_args, command@, text::texts(given@), text::texts(r@)),
    {
        let ghost handed = given;
        let r = (self.normalize_args)(command, given);
        assert(call_ensures(self.normalize_args, (command, handed), r));
        r
    }

    /// Puts together what an agent is launched with.
    fn assemble(
        &self,
        record: &ManagedAgentRecord,
        personas: &Vec<AgentDefinition>,
        global: &GlobalAgentConfig,
        spec: Option<CatalogHarnessLaunchSpec<'a>>,
        recorded_command: String,
    ) -> (r: EffectiveHarnessDescriptor)
        requires
            self.ready(),
            record.env_vars.wf(),
            records::personas_wf(personas@),
            global.env_vars.wf(),
            spec matches Some(s) ==> s.wf(),
        ensures
            r.env.wf(),
            self.assembles(
                record@,
                records::persona_views(personas@),
                global@,
                launch_model(spec),
                match spec {
                    Some(s) => s@.command,
                    None => recorded_command@,
                },
                r@,
            ),
    {
        let ghost launch = launch_model(spec);
        let (runtime_id, command, default_args, definition): (
            Option<String>,
            String,
            Option<Vec<String>>,
            Option<HarnessDefinition>,
        ) = match spec {
            Some(s) => (Some(s.runtime_id), s.command, Some(s.default_args), s.definition),
            None => (None, recorded_command, None, None),
        };
        let runtime = find_launch_runtime(self.catalog, &runtime_id, command.as_str());
        let args: Vec<String> = if record.raw_command_explicit {
            text::copy_list(&record.agent_args)
        } else {
            let given: Vec<String> = if record_has_args(&record.agent_args) {
                text::copy_list(&record.agent_args)
            } else {
                match default_args {
                    Some(defaults) => defaults,
                    None => text::copy_list(&record.agent_args),
                }
            };
            assert(text::texts(given@) == given_args(record@, launch));
            self.normalize(command.as_str(), given)
        };
        let env = self.env_with_def(record, personas, runtime, global, &definition);
        EffectiveHarnessDescriptor { runtime_id, command, args, env }
    }

    /// Works out what an agent is launched with. `recorded_command` is the command that the
    /// record itself leads to, or why it leads to none. A harness that the catalog does not
    /// have is an error.
    pub fn resolve_effective_harness_descriptor(
        &self,
        record: &ManagedAgentRecord,
        personas: &Vec<AgentDefinition>,
        global: &GlobalAgentConfig,
        recorded_command: Result<String, String>,
    ) -> (r: Result<EffectiveHarnessDescriptor, String>)
        requires
            self.ready(),
            record.env_vars.wf(),
            records::personas_wf(personas@),
            global.env_vars.wf(),
        ensures
            r matches Ok(d) ==> d.env.wf(),
            self.describes(
                record@,
                records::persona_views(personas@),
                global@,
                command_view(recorded_command),
                descriptor_view(r),
            ),
    {
        let ghost seen = records::persona_views(personas@);
        let ghost recorded = command_view(recorded_command);
        match select_catalog_id(self.catalog, record, personas) {
            None => match recorded_command {
                Err(reason) => Err(reason),
                Ok(command) => Ok(self.assemble(record, personas, global, None, command)),
            },
            Some(id) => {
                let found = self.resolve_catalog_harness_by_id(id.as_str());
                let ghost launch = identity::launch_view(found);
                let r = match found {
                    Err(reason) => Err(reason),
                    Ok(spec) => match recorded_command {
                        Err(reason) => Err(reason),
                        Ok(command) => Ok(
                            self.assemble(record, personas, global, Some(spec), command),
                        ),
                    },
                };
                assert(self.describes_launch(
                    record@,
                    seen,
                    global@,
                    launch,
                    recorded,
                    descriptor_view(r),
                ));
                r
            },
        }
    }
}

/// The configuration file of a runtime, where there is a runtime and it has one.
pub open spec fn config_path(runtime: Option<RuntimeModel>) -> Option<Seq<char>> {
    match runtime {
        Some(rt) => rt.config_file_path,
        None => None,
    }
}

/// The model of a runtime at a position of the catalog.
pub open spec fn runtime_model(m: CatalogModel, at: Option<int>) -> Option<RuntimeModel> {
    match at {
        Some(i) => Some(m.runtimes[i]),
        None => None,
    }
}

/// What the description of a launch amounts to as an effective environment.
pub open spec fn described_env(m: CatalogModel, d: DescriptorModel) -> AgentEnvModel {
    AgentEnvModel {
        env: d.env,
        runtime_id: d.runtime_id,
        effective_args: d.args,
        config_file_path: config_path(
            runtime_model(m, launch_runtime(m, d.runtime_id, d.command)),
        ),
        effective_command: d.command,
    }
}

impl<'a, A, N, M, R, U> HarnessHost<'a, A, N, M, R, U> where
    A: Fn(&str) -> bool,
    N: Fn(&str, Vec<String>) -> Vec<String>,
    M: Fn(
        &KnownAcpRuntime,
        &ManagedAgentRecord,
        &Vec<AgentDefinition>,
        &GlobalAgentConfig,
    ) -> Vec<(String, String)>,
    R: Fn(&str) -> bool,
    U: Fn(&str) -> bool,
 {
    /// Whether `e` is the effective environment of an agent by this command, with this
    /// runtime and this definition environment.
    pub open spec fn gives_agent_env(
        self,
        record: AgentRecordModel,
        personas: Seq<PersonaModel>,
        runtime: Option<KnownAcpRuntime>,
        global: GlobalModel,
        definition_env: Map<Seq<char>, Seq<char>>,
        command: Seq<char>,
        e: AgentEnvModel,
    ) -> bool {
        &&& self.gives_env(runtime, definition_env, record, personas, global, e.env)
        &&& e.runtime_id == match runtime {
            Some(rt) => Some(rt@.id),
            None => None,
        }
        &&& normalized(self.normalize_args, command, record.agent_args, e.effective_args)
        &&& e.config_file_path == config_path(
            match runtime {
                Some(rt) => Some(rt@),
                None => None,
            },
        )
        &&& e.effective_command == command
    }

    /// The effective environment of an agent by this command, with this runtime and this
    /// definition.
    pub fn resolve_effective_agent_env_with_def(
        &self,
        record: &ManagedAgentRecord,
        personas: &Vec<AgentDefinition>,
        runtime: Option<&KnownAcpRuntime>,
        global: &GlobalAgentConfig,
        definition: &Option<HarnessDefinition>,
        effective_command: &str,
    ) -> (r: EffectiveAgentEnv)
        requires
            self.ready(),
            record.env_vars.wf(),
            records::personas_wf(personas@),
            global.env_vars.wf(),
            definition matches Some(d) ==> d.env.wf(),
        ensures
            r.env.wf(),
            self.gives_agent_env(
                record@,
                records::persona_views(personas@),
                referenced_runtime(runtime),
                global@,
                optional_env(
                    match definition {
                        Some(d) => Some(d.env@),
                        None => None,
                    },
                ),
                effective_command@,
                r@,
            ),
    {
        let env = self.env_with_def(record, personas, runtime, global, definition);
        let args = self.normalize(effective_command, text::copy_list(&record.agent_args));
        EffectiveAgentEnv {
            env,
            runtime_id: match runtime {
                Some(rt) => Some(rt.id.to_owned()),
                None => None,
            },
            effective_args: args,
            config_file_path: match runtime {
                Some(rt) => rt.config_file_path,
                None => None,
            },
            effective_command: effective_command.to_owned(),
        }
    }

    /// Works out the effective environment of an agent: that of its launch, or, where the
    /// launch cannot be worked out, that of `display_command` with `runtime`.
    pub fn resolve_effective_agent_env(
        &self,
        record: &ManagedAgentRecord,
        personas: &Vec<AgentDefinition>,
        runtime: Option<&KnownAcpRuntime>,
        global: &GlobalAgentConfig,
        recorded_command: Result<String, String>,
        display_command: &str,
    ) -> (r: EffectiveAgentEnv)
        requires
            self.ready(),
            record.env_vars.wf(),
            records::personas_wf(personas@),
            global.env_vars.wf(),
        ensures
            r.env.wf(),
            exists|d: Result<DescriptorModel, Seq<char>>|
                {
                    &&& #[trigger] self.describes(
                        record@,
                        records::persona_views(personas@),
                        global@,
                        command_view(recorded_command),
                        d,
                    )
                    &&& match d {
                        Ok(described) => r@ == described_env(self.catalog@, described),
                        Err(_) => self.gives_agent_env(
                            record@,
                            records::persona_views(personas@),
                            referenced_runtime(runtime),
                            global@,
                            custom_env(self.catalog@, record@.runtime),
                            display_command@,
                            r@,
                        ),
                    }
                },
    {
        let described = self.resolve_effective_harness_descriptor(
            record,
            personas,
            global,
            recorded_command,
        );
        let ghost d = descriptor_view(described);
        match described {
            Ok(descriptor) => {
                let config_file_path: Option<&'static str> = match descriptor.known_runtime(
                    self.catalog,
                ) {
                    Some(metadata) => metadata.config_file_path,
                    None => None,
                };
                let r = EffectiveAgentEnv {
                    env: descriptor.env,
                    runtime_id: descriptor.runtime_id,
                    effective_args: descriptor.args,
                    config_file_path,
                    effective_command: descriptor.command,
                };
                assert(r@ =~= described_env(self.catalog@, d->Ok_0));
                r
            },
            Err(_) => {
                let definition: Option<HarnessDefinition> = match &record.runtime {
                    Some(id) => match self.catalog.lookup_loaded_harness_by_id(id.as_str()) {
                        Some(found) => Some(found.copy()),
                        None => None,
                    },
                    None => None,
                };
                self.resolve_effective_agent_env_with_def(
                    record,
                    personas,
                    runtime,
                    global,
                    &definition,
                    display_command,
                )
            },
        }
    }
}

/// The variables of the user's definition with this id; none where there is no such one.
pub open spec fn custom_env(m: CatalogModel, id: Option<Seq<char>>) -> Map<Seq<char>, Seq<char>> {
    match id {
        Some(wanted) => match identity::custom_at(m, wanted) {
            Some(i) => m.customs[i].env,
            None => Map::empty(),
        },
        None => Map::empty(),
    }
}

/// What a recorded command holds.
pub open spec fn command_view(r: Result<String, String>) -> Result<Seq<char>, Seq<char>> {
    match r {
        Ok(command) => Ok(command@),
        Err(reason) => Err(reason@),
    }
}

/// What the description of a launch holds.
pub open spec fn descriptor_view(r: Result<EffectiveHarnessDescriptor, String>) -> Result<
    DescriptorModel,
    Seq<char>,
> {
    match r {
        Ok(d) => Ok(d@),
        Err(reason) => Err(reason@),
    }
}

/// A harness that was chosen from the catalog is the one that is launched, whatever else the
/// record says. A command that was chosen as such never leads to the catalog, whatever it
/// looks like. And the persona is asked only where the record says nothing.
pub proof fn law_selection_follows_provenance(
    m: CatalogModel,
    record: AgentRecordModel,
    personas: Seq<PersonaModel>,
)
    ensures
        record.launch_runtime_id is Some ==> selected_id(m, record, personas)
            == record.launch_runtime_id,
        record.launch_runtime_id is None && record.raw_command_explicit
            && record.agent_command_override is Some ==> selected_id(m, record, personas) is None,
        record.launch_runtime_id is None && record.agent_command_override is None
            && record.runtime is Some ==> selected_id(m, record, personas) == record.runtime,
{
}

/// An agent whose harness the catalog does not have is not launched as anything else: the
/// only answer is the error that names the id.
pub proof fn law_dangling_id_never_falls_back<'a, A, N, M, R, U>(
    host: HarnessHost<'a, A, N, M, R, U>,
    record: AgentRecordModel,
    personas: Seq<PersonaModel>,
    global: GlobalModel,
    recorded: Result<Seq<char>, Seq<char>>,
    r: Result<DescriptorModel, Seq<char>>,
    id: Seq<char>,
) where
    A: Fn(&str) -> bool,
    N: Fn(&str, Vec<String>) -> Vec<String>,
    M: Fn(
        &KnownAcpRuntime,
        &ManagedAgentRecord,
        &Vec<AgentDefinition>,
        &GlobalAgentConfig,
    ) -> Vec<(String, String)>,
    R: Fn(&str) -> bool,
    U: Fn(&str) -> bool,

    requires
        selected_id(host.catalog@, record, personas) == Some(id),
        identity::runtime_at(host.catalog@, id) is None,
        identity::preset_at(host.catalog@, id) is None,
        identity::custom_at(host.catalog@, id) is None,
        host.describes(record, personas, global, recorded, r),
    ensures
        r == Err::<DescriptorModel, Seq<char>>(identity::DANGLING_HARNESS_PREFIX@ + id),
{
}

/// The layers of an environment win in their order: the agent over its persona, the persona
/// over what holds for all, and what users set over what a harness sets. What a harness may
/// not set it does not change, and what neither may set is as it was built in or told to the
/// runtime.
pub proof fn law_env_layers_win_in_order(
    baked: Map<Seq<char>, Seq<char>>,
    metadata: Seq<(Seq<char>, Seq<char>)>,
    runtime: Map<Seq<char>, Seq<char>>,
    definition: Map<Seq<char>, Seq<char>>,
    global: Map<Seq<char>, Seq<char>>,
    persona: Map<Seq<char>, Seq<char>>,
    agent: Map<Seq<char>, Seq<char>>,
    reserved: spec_fn(Seq<char>) -> bool,
    allowed: spec_fn(Seq<char>) -> bool,
    key: Seq<char>,
)
    ensures
        ({
            let env = layered_env(
                baked,
                metadata,
                runtime,
                definition,
                global,
                persona,
                agent,
                reserved,
                allowed,
            );
            let floor = baked.union_prefer_right(env_map::pairs_env(metadata));
            &&& allowed(key) && agent.contains_key(key) ==> env.contains_key(key) && env[key]
                == agent[key]
            &&& allowed(key) && !agent.contains_key(key) && persona.contains_key(key)
                ==> env.contains_key(key) && env[key] == persona[key]
            &&& allowed(key) && !agent.contains_key(key) && !persona.contains_key(key)
                && global.contains_key(key) ==> env.contains_key(key) && env[key] == global[key]
            &&& !allowed(key) && !reserved(key) && definition.contains_key(key)
                ==> env.contains_key(key) && env[key] == definition[key]
            &&& !allowed(key) && reserved(key) ==> {
                &&& env.contains_key(key) == floor.contains_key(key)
                &&& floor.contains_key(key) ==> env[key] == floor[key]
            }
        }),
{
}

} // verus!
