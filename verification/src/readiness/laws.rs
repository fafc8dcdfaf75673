//! What the launch of an agent and the readiness of a runtime come to, told by where each part
//! comes from.
use vstd::prelude::*;

use crate::catalog::identity;
use crate::catalog::identity::{CatalogModel, LaunchModel};
use crate::catalog::laws;
use crate::catalog::presets::{EntryModel, RuntimeReadinessStatus};
use crate::catalog::runtime_metadata::KnownAcpRuntime;
use crate::decision;
use crate::env_map;
use crate::outside;
use crate::readiness::cache;
use crate::readiness::cache::{CacheKeyModel, CachedReadiness};
use crate::readiness::descriptor;
use crate::readiness::descriptor::{
    AgentEnvModel, DescriptorModel, EffectiveHarnessDescriptor, HarnessHost,
};
use crate::readiness::digest;
use crate::readiness::models;
use crate::readiness::models::ModelsResponse;
use crate::readiness::probe;
use crate::readiness::probe::{Finding, ProbeAnswer, ProbeMove, ProbeState};
use crate::readiness::providers;
use crate::readiness::records;
use crate::readiness::records::{
    AgentDefinition, AgentRecordModel, GlobalAgentConfig, GlobalModel, ManagedAgentRecord,
    PersonaModel,
};
use crate::search;
use crate::text;

verus! {

/// What an environment says of a variable, where it may say anything of it.
pub open spec fn said(env: Map<Seq<char>, Seq<char>>, key: Seq<char>, may: bool) -> Option<
    Seq<char>,
> {
    if may && env.contains_key(key) {
        Some(env[key])
    } else {
        None
    }
}

/// The first of two answers, and the second where there is no first.
pub open spec fn else_said(first: Option<Seq<char>>, second: Option<Seq<char>>) -> Option<
    Seq<char>,
> {
    if first is Some {
        first
    } else {
        second
    }
}

/// A variable of an agent is what the agent says of it, else what its persona says, else what
/// holds for all agents, all three only where users may set it; else what the definition says,
/// else what the runtime says, both only where it is not reserved; else what the runtime is told
/// of its model and provider, else what is built in; and where none of them says anything, it is
/// not set.
pub proof fn law_variables_come_from_the_uppermost_layer(
    baked: Map<Seq<char>, Seq<char>>,
    metadata: Seq<(Seq<char>, Seq<char>)>,
    runtime: Map<Seq<char>, Seq<char>>,
    definition: Map<Seq<char>, Seq<char>>,
    global: Map<Seq<char>, Seq<char>>,
    persona: Map<Seq<char>, Seq<char>>,
    agent: Map<Seq<char>, Seq<char>>,
    reserved: spec_fn(Seq<char>) -> bool,
    allowed: spec_fn(Seq<char>) -> bool,
    key: Seq<char>,
)
    ensures
        said(
            descriptor::layered_env(
                baked,
                metadata,
                runtime,
                definition,
                global,
                persona,
                agent,
                reserved,
                allowed,
            ),
            key,
            true,
        ) == else_said(
            said(agent, key, allowed(key)),
            else_said(
                said(persona, key, allowed(key)),
                else_said(
                    said(global, key, allowed(key)),
                    else_said(
                        said(definition, key, !reserved(key)),
                        else_said(
                            said(runtime, key, !reserved(key)),
                            else_said(
                                said(env_map::pairs_env(metadata), key, true),
                                said(baked, key, true),
                            ),
                        ),
                    ),
                ),
            ),
        ),
{
}

/// Where it is settled what a runtime is told of its model and provider, each variable of an
/// agent's environment has one value: it comes from the agent's own record, the first persona
/// with its persona id, the settings for all agents, the definition, the runtime that the launch
/// belongs to, what that runtime is told, and what is built in, in this order.
pub proof fn law_a_settled_host_gives_one_environment<'a, A, N, M, R, U>(
    host: HarnessHost<'a, A, N, M, R, U>,
    told: spec_fn(KnownAcpRuntime, AgentRecordModel, Seq<PersonaModel>, GlobalModel) -> Seq<
        (Seq<char>, Seq<char>),
    >,
    runtime: Option<KnownAcpRuntime>,
    definition_env: Map<Seq<char>, Seq<char>>,
    record: AgentRecordModel,
    personas: Seq<PersonaModel>,
    global: GlobalModel,
    env: Map<Seq<char>, Seq<char>>,
    key: Seq<char>,
) where
    A: Fn(&str) -> bool,
    N: Fn(&str, Vec<String>) -> Vec<String>,
    M: Fn(
        &KnownAcpRuntime,
        &ManagedAgentRecord,
        &Vec<AgentDefinition>,
        &GlobalAgentConfig,
    ) -> Vec<(String, String)>,
    R: Fn(&str) -> bool,
    U: Fn(&str) -> bool,

    requires
        forall|
            rt: &KnownAcpRuntime,
            r: &ManagedAgentRecord,
            p: &Vec<AgentDefinition>,
            g: &GlobalAgentConfig,
            v: Vec<(String, String)>,
        | #[trigger]
            call_ensures(host.metadata_env, (rt, r, p, g), v) ==> env_map::pair_views(v@) == told(
                *rt,
                r@,
                records::persona_views(p@),
                g@,
            ),
        host.gives_env(runtime, definition_env, record, personas, global, env),
    ensures
        ({
            let may_user = decision::verdict(host.is_user_env_key)(key);
            let may_harness = !decision::verdict(host.is_reserved_env_key)(key);
            said(env, key, true) == else_said(
                said(record.env_vars, key, may_user),
                else_said(
                    match records::persona_at(personas, record.persona_id) {
                        Some(i) => said(personas[i].env_vars, key, may_user),
                        None => None,
                    },
                    else_said(
                        said(global.env_vars, key, may_user),
                        else_said(
                            said(definition_env, key, may_harness),
                            else_said(
                                match runtime {
                                    Some(rt) => said(
                                        env_map::pairs_env(rt@.default_env),
                                        key,
                                        may_harness,
                                    ),
                                    None => None,
                                },
                                else_said(
                                    match runtime {
                                        Some(rt) => said(
                                            env_map::pairs_env(told(rt, record, personas, global)),
                                            key,
                                            true,
                                        ),
                                        None => None,
                                    },
                                    said(host.baked_env@, key, true),
                                ),
                            ),
                        ),
                    ),
                ),
            )
        }),
{
    let pairs = choose|pairs: Seq<(Seq<char>, Seq<char>)>|
        {
            &&& #[trigger] descriptor::metadata_given(
                host.metadata_env,
                runtime,
                record,
                personas,
                global,
                pairs,
            )
            &&& env == descriptor::layered_env(
                host.baked_env@,
                pairs,
                descriptor::runtime_env(
                    match runtime {
                        Some(rt) => Some(rt@),
                        None => None,
                    },
                ),
                definition_env,
                global.env_vars,
                descriptor::persona_env(personas, record.persona_id),
                record.env_vars,
                decision::verdict(host.is_reserved_env_key),
                decision::verdict(host.is_user_env_key),
            )
        };
    law_variables_come_from_the_uppermost_layer(
        host.baked_env@,
        pairs,
        descriptor::runtime_env(
            match runtime {
                Some(rt) => Some(rt@),
                None => None,
            },
        ),
        definition_env,
        global.env_vars,
        descriptor::persona_env(personas, record.persona_id),
        record.env_vars,
        decision::verdict(host.is_reserved_env_key),
        decision::verdict(host.is_user_env_key),
        key,
    );
    assert(env_map::pairs_env(Seq::empty()) == Map::<Seq<char>, Seq<char>>::empty());
}

/// A persona is found by its id, letter for letter, the first that has it; without an id none is.
pub proof fn law_personas_are_found_by_id(v: Seq<PersonaModel>, id: Seq<char>, i: int)
    ensures
        records::persona_at(v, Some(id)) == Some(i) <==> {
            &&& 0 <= i < v.len()
            &&& v[i].id == id
            &&& forall|j: int| 0 <= j < i ==> (#[trigger] v[j]).id != id
        },
        records::persona_at(v, Some(id)) is None <==> forall|j: int|
            0 <= j < v.len() ==> (#[trigger] v[j]).id != id,
        records::persona_at(v, None) is None,
{
    let p = |q: PersonaModel| q.id == id;
    search::first_holds(v, p);
    if 0 <= i < v.len() && v[i].id == id && forall|j: int|
        0 <= j < i ==> (#[trigger] v[j]).id != id {
        assert(p(v[i]));
        search::first_is(v, p, i);
    }
    if let Some(k) = records::persona_at(v, Some(id)) {
        assert(p(v[k]));
        assert forall|j: int| 0 <= j < k implies (#[trigger] v[j]).id != id by {
            assert(!p(v[j]));
        }
    } else {
        assert forall|j: int| 0 <= j < v.len() implies (#[trigger] v[j]).id != id by {
            assert(!p(v[j]));
        }
    }
}

/// Where nothing was chosen for an agent, a command that was set but not chosen as such leads to
/// the one harness known by it, and a record that says nothing leads to what its persona asks
/// for, and to nothing where it has no persona.
pub proof fn law_records_without_a_choice_are_followed(
    m: CatalogModel,
    record: AgentRecordModel,
    personas: Seq<PersonaModel>,
    command: Seq<char>,
    i: int,
)
    requires
        record.launch_runtime_id is None,
    ensures
        record.agent_command_override == Some(command) && !record.raw_command_explicit
            ==> descriptor::selected_id(m, record, personas) == identity::inferred_id(m, command),
        record.agent_command_override is Some && record.raw_command_explicit
            ==> descriptor::selected_id(m, record, personas) is None,
        record.agent_command_override is None && record.runtime is None
            && records::persona_at(personas, record.persona_id) == Some(i)
            ==> descriptor::selected_id(m, record, personas) == personas[i].runtime,
        record.agent_command_override is None && record.runtime is None
            && records::persona_at(personas, record.persona_id) is None
            ==> descriptor::selected_id(m, record, personas) is None,
{
}

/// A launch belongs to the runtime with its id, where there is one, and otherwise to the first
/// runtime known by its command.
pub proof fn law_launches_belong_to_their_runtime(
    m: CatalogModel,
    id: Seq<char>,
    command: Seq<char>,
    i: int,
)
    ensures
        laws::first_runtime(m, id, i) ==> descriptor::launch_runtime(m, Some(id), command) == Some(
            i,
        ),
        laws::no_runtime(m, id) ==> descriptor::launch_runtime(m, Some(id), command)
            == identity::runtime_by_command(m, command),
        descriptor::launch_runtime(m, None, command) == identity::runtime_by_command(m, command),
{
    laws::law_ids_are_found_exactly(m, id, i);
}

/// An agent has arguments of its own exactly where one of them is more than white space; then
/// they all count, and otherwise those of its harness, where it has one.
pub proof fn law_own_arguments_come_first(
    record: AgentRecordModel,
    spec: LaunchModel,
    i: int,
)
    ensures
        0 <= i < record.agent_args.len() && !text::blank(record.agent_args[i])
            ==> descriptor::given_args(record, Some(spec)) == record.agent_args,
        (forall|k: int| 0 <= k < record.agent_args.len() ==> text::blank(
            #[trigger] record.agent_args[k],
        )) ==> descriptor::given_args(record, Some(spec)) == spec.default_args,
        descriptor::given_args(record, None) == record.agent_args,
{
}

/// Where it is settled what arguments come to, they come to that.
pub proof fn law_settled_arguments<N: Fn(&str, Vec<String>) -> Vec<String>>(
    normalize_args: N,
    comes_to: spec_fn(Seq<char>, Seq<Seq<char>>) -> Seq<Seq<char>>,
    command: Seq<char>,
    given: Seq<Seq<char>>,
    args: Seq<Seq<char>>,
)
    requires
        forall|c: &str, g: Vec<String>, a: Vec<String>| #[trigger]
            call_ensures(normalize_args, (c, g), a) ==> text::texts(a@) == comes_to(
                c@,
                text::texts(g@),
            ),
        descriptor::normalized(normalize_args, command, given, args),
    ensures
        args == comes_to(command, given),
{
}

/// The description of a launch: where the catalog does not have the harness, or the record leads
/// to no command, it fails, for the catalog's reason before the record's. Otherwise it names the
/// harness, where one was selected, and its command, and the record's own command where none was;
/// a command that was chosen as such gets the record's arguments as they are, any other what they
/// come to.
pub proof fn law_descriptions_follow_the_launch<'a, A, N, M, R, U>(
    host: HarnessHost<'a, A, N, M, R, U>,
    record: AgentRecordModel,
    personas: Seq<PersonaModel>,
    global: GlobalModel,
    recorded: Result<Seq<char>, Seq<char>>,
    r: Result<DescriptorModel, Seq<char>>,
    i: int,
) where
    A: Fn(&str) -> bool,
    N: Fn(&str, Vec<String>) -> Vec<String>,
    M: Fn(
        &KnownAcpRuntime,
        &ManagedAgentRecord,
        &Vec<AgentDefinition>,
        &GlobalAgentConfig,
    ) -> Vec<(String, String)>,
    R: Fn(&str) -> bool,
    U: Fn(&str) -> bool,

    requires
        host.describes(record, personas, global, recorded, r),
    ensures
        descriptor::selected_id(host.catalog@, record, personas) is None ==> match recorded {
            Err(reason) => r == Err::<DescriptorModel, Seq<char>>(reason),
            Ok(command) => {
                &&& r is Ok
                &&& r->Ok_0.runtime_id is None
                &&& r->Ok_0.command == command
                &&& record.raw_command_explicit ==> r->Ok_0.args == record.agent_args
                &&& !record.raw_command_explicit ==> descriptor::normalized(
                    host.normalize_args,
                    command,
                    record.agent_args,
                    r->Ok_0.args,
                )
                &&& identity::runtime_by_command(host.catalog@, command) is None ==> host.gives_env(
                    None,
                    Map::empty(),
                    record,
                    personas,
                    global,
                    r->Ok_0.env,
                )
                &&& identity::runtime_by_command(host.catalog@, command) == Some(i)
                    ==> host.gives_env(
                    Some(host.catalog.runtimes@[i]),
                    Map::empty(),
                    record,
                    personas,
                    global,
                    r->Ok_0.env,
                )
            },
        },
        descriptor::selected_id(host.catalog@, record, personas) matches Some(id) ==> {
            let m = host.catalog@;
            let named = !(laws::no_runtime(m, id) && laws::no_preset(m, id) && laws::no_custom(
                m,
                id,
            ));
            &&& !named ==> r == Err::<DescriptorModel, Seq<char>>("DANGLING_HARNESS_ID:"@ + id)
            &&& named && recorded is Err ==> r == Err::<DescriptorModel, Seq<char>>(
                recorded->Err_0,
            )
            &&& named && recorded is Ok ==> r is Ok && r->Ok_0.runtime_id == Some(id)
            &&& named && recorded is Ok && record.raw_command_explicit ==> r->Ok_0.args
                == record.agent_args
            &&& recorded is Ok && laws::first_runtime(m, id, i) ==> {
                &&& identity::preferred_command(
                    host.command_is_available,
                    host.catalog.runtimes@[i].commands@,
                    id,
                    r->Ok_0.command,
                )
                &&& host.gives_env(
                    Some(host.catalog.runtimes@[i]),
                    Map::empty(),
                    record,
                    personas,
                    global,
                    r->Ok_0.env,
                )
                &&& !record.raw_command_explicit ==> harness_args(
                    host.normalize_args,
                    record.agent_args,
                    m.runtimes[i].default_args,
                    r->Ok_0,
                )
            }
            &&& recorded is Ok && laws::no_runtime(m, id) && laws::first_preset(m, id, i) ==> {
                &&& r->Ok_0.command == m.presets[i].command
                &&& !record.raw_command_explicit ==> harness_args(
                    host.normalize_args,
                    record.agent_args,
                    m.presets[i].args,
                    r->Ok_0,
                )
                &&& host.gives_env(
                    descriptor::runtime_value(
                        *host.catalog,
                        identity::runtime_by_command(m, m.presets[i].command),
                    ),
                    Map::empty(),
                    record,
                    personas,
                    global,
                    r->Ok_0.env,
                )
            }
            &&& recorded is Ok && laws::no_runtime(m, id) && laws::no_preset(m, id)
                && laws::first_custom(m, id, i) ==> {
                &&& r->Ok_0.command == m.customs[i].command
                &&& !record.raw_command_explicit ==> harness_args(
                    host.normalize_args,
                    record.agent_args,
                    m.customs[i].args,
                    r->Ok_0,
                )
                &&& host.gives_env(
                    descriptor::runtime_value(
                        *host.catalog,
                        identity::runtime_by_command(m, m.customs[i].command),
                    ),
                    m.customs[i].env,
                    record,
                    personas,
                    global,
                    r->Ok_0.env,
                )
            }
        },
{
    if let Some(id) = descriptor::selected_id(host.catalog@, record, personas) {
        let launch = choose|launch: Result<LaunchModel, Seq<char>>|
            {
                &&& identity::launches(*host.catalog, id, host.command_is_available, launch)
                &&& #[trigger] host.describes_launch(
                    record,
                    personas,
                    global,
                    launch,
                    recorded,
                    r,
                )
            };
        laws::law_ids_launch_what_they_name(
            *host.catalog,
            id,
            host.command_is_available,
            launch,
            i,
        );
        laws::law_ids_are_found_exactly(host.catalog@, id, i);
        laws::law_ids_are_found_exactly(
            host.catalog@,
            id,
            identity::preset_at(host.catalog@, id)->0,
        );
        laws::law_ids_are_found_exactly(
            host.catalog@,
            id,
            identity::custom_at(host.catalog@, id)->0,
        );
    }
}

/// Whether the arguments of a launch are what an agent's own come to, where one of them is more
/// than white space, and what those of its harness come to otherwise.
pub open spec fn harness_args<N: Fn(&str, Vec<String>) -> Vec<String>>(
    normalize_args: N,
    own: Seq<Seq<char>>,
    of_harness: Seq<Seq<char>>,
    d: DescriptorModel,
) -> bool {
    let any = exists|k: int| 0 <= k < own.len() && !text::blank(#[trigger] own[k]);
    &&& any ==> descriptor::normalized(normalize_args, d.command, own, d.args)
    &&& !any ==> descriptor::normalized(normalize_args, d.command, of_harness, d.args)
}

/// An effective environment repeats its description, with the configuration file of the runtime
/// that the launch belongs to.
pub proof fn law_environments_repeat_their_description(
    m: CatalogModel,
    d: DescriptorModel,
    i: int,
)
    ensures
        ({
            let e = descriptor::described_env(m, d);
            &&& e.env == d.env && e.runtime_id == d.runtime_id && e.effective_args == d.args
            &&& e.effective_command == d.command
            &&& descriptor::launch_runtime(m, d.runtime_id, d.command) == Some(i)
                ==> e.config_file_path == m.runtimes[i].config_file_path
            &&& descriptor::launch_runtime(m, d.runtime_id, d.command) is None
                ==> e.config_file_path is None
        }),
{
}

/// An environment that is worked out without a description names the runtime that it is given,
/// with its configuration file, shows the command that it is given, and gets the agent's own
/// arguments only.
pub proof fn law_display_environments<'a, A, N, M, R, U>(
    host: HarnessHost<'a, A, N, M, R, U>,
    record: AgentRecordModel,
    personas: Seq<PersonaModel>,
    runtime: Option<KnownAcpRuntime>,
    global: GlobalModel,
    definition_env: Map<Seq<char>, Seq<char>>,
    command: Seq<char>,
    e: AgentEnvModel,
) where
    A: Fn(&str) -> bool,
    N: Fn(&str, Vec<String>) -> Vec<String>,
    M: Fn(
        &KnownAcpRuntime,
        &ManagedAgentRecord,
        &Vec<AgentDefinition>,
        &GlobalAgentConfig,
    ) -> Vec<(String, String)>,
    R: Fn(&str) -> bool,
    U: Fn(&str) -> bool,

    requires
        host.gives_agent_env(record, personas, runtime, global, definition_env, command, e),
    ensures
        e.effective_command == command,
        runtime matches Some(rt) ==> e.runtime_id == Some(rt@.id) && e.config_file_path
            == rt@.config_file_path,
        runtime is None ==> e.runtime_id is None && e.config_file_path is None,
        descriptor::normalized(host.normalize_args, command, record.agent_args, e.effective_args),
        host.gives_env(runtime, definition_env, record, personas, global, e.env),
{
}

/// The variables of a definition are those of the first definition of the user with the id.
pub proof fn law_definition_variables_are_found_by_id(m: CatalogModel, id: Seq<char>, i: int)
    ensures
        laws::first_custom(m, id, i) ==> descriptor::custom_env(m, Some(id)) == m.customs[i].env,
        laws::no_custom(m, id) ==> descriptor::custom_env(m, Some(id)) == Map::<
            Seq<char>,
            Seq<char>,
        >::empty(),
        descriptor::custom_env(m, None) == Map::<Seq<char>, Seq<char>>::empty(),
{
    laws::law_ids_are_found_exactly(m, id, i);
}

/// What the providers need: each has its own variable for its model and its own for its
/// credential, Databricks under any of its three names and OpenAI under either of its two. Cline
/// does with the key of a compatible endpoint where it has none of its own. Nothing is known of
/// any other provider, and nothing is asked for without one.
pub proof fn law_providers_need_their_own_variables(
    p: Seq<char>,
    missing: spec_fn(Seq<char>) -> bool,
)
    ensures
        p == "anthropic"@ ==> providers::model_key(Some(p)) == Some("ANTHROPIC_MODEL"@)
            && providers::missing_credential(Some(p), missing) == if missing(
            "ANTHROPIC_API_KEY"@,
        ) {
            Some("ANTHROPIC_API_KEY"@)
        } else {
            None
        },
        p == "openai"@ || p == "openai-compat"@ ==> providers::model_key(Some(p)) == Some(
            "OPENAI_COMPAT_MODEL"@,
        ) && providers::missing_credential(Some(p), missing) == if missing(
            "OPENAI_COMPAT_API_KEY"@,
        ) {
            Some("OPENAI_COMPAT_API_KEY"@)
        } else {
            None
        },
        p == "databricks"@ || p == "databricks_v2"@ || p == "databricks-v2"@
            ==> providers::model_key(Some(p)) == Some("DATABRICKS_MODEL"@)
            && providers::missing_credential(Some(p), missing) == if missing("DATABRICKS_HOST"@) {
            Some("DATABRICKS_HOST"@)
        } else {
            None
        },
        p == "openrouter"@ ==> providers::model_key(Some(p)) == Some("OPENROUTER_MODEL"@)
            && providers::missing_credential(Some(p), missing) == if missing(
            "OPENROUTER_API_KEY"@,
        ) {
            Some("OPENROUTER_API_KEY"@)
        } else {
            None
        },
        p == "cline"@ ==> providers::model_key(Some(p)) == Some("CLINE_MODEL"@)
            && providers::missing_credential(Some(p), missing) == if missing("CLINE_API_KEY"@)
            && missing("OPENAI_COMPAT_API_KEY"@) {
            Some("CLINE_API_KEY"@)
        } else {
            None
        },
        p != "anthropic"@ && p != "openai"@ && p != "openai-compat"@ && p != "databricks"@ && p
            != "databricks_v2"@ && p != "databricks-v2"@ && p != "openrouter"@ && p != "cline"@
            ==> providers::model_key(Some(p)) is None && providers::missing_credential(
            Some(p),
            missing,
        ) is None,
        providers::model_key(None) is None,
        providers::missing_credential(None, missing) is None,
{
    reveal_strlit("anthropic");
    reveal_strlit("openai");
    reveal_strlit("openai-compat");
    reveal_strlit("databricks");
    reveal_strlit("databricks_v2");
    reveal_strlit("databricks-v2");
    reveal_strlit("openrouter");
    reveal_strlit("cline");
    assert("anthropic"@.len() == 9 && "openai"@.len() == 6 && "openai-compat"@.len() == 13);
    assert("databricks"@.len() == 10 && "openrouter"@.len() == 10 && "cline"@.len() == 5);
    assert("databricks_v2"@.len() == 13 && "databricks-v2"@.len() == 13);
    assert("databricks"@[0] == 'd' && "openrouter"@[0] == 'o');
    assert("databricks_v2"@[0] == 'd' && "databricks-v2"@[0] == 'd' && "openai-compat"@[0] == 'o');
    let keys = providers::credential_keys(Some(p));
    if p == "cline"@ {
        assert(keys[0] == "CLINE_API_KEY"@ && keys[1] == "OPENAI_COMPAT_API_KEY"@);
        assert(keys.len() == 2);
    } else if keys.len() > 0 {
        assert(keys.len() == 1);
        assert(keys[0] == keys[0]);
    }
}

/// A finding counts for thirty seconds and no longer; looking it up drops it exactly where it has
/// ceased to count, and touches no other.
pub proof fn law_findings_count_for_thirty_seconds(
    findings: Map<CacheKeyModel, CachedReadiness>,
    key: CacheKeyModel,
    other: CacheKeyModel,
    now: u128,
)
    ensures
        cache::READINESS_CACHE_TTL_NANOS == 30 * 1_000_000_000,
        ({
            let after = cache::looked_up(findings, key, now);
            let counts = findings.contains_key(key) && now <= findings[key].observed_at
                + 30_000_000_000;
            &&& counts ==> cache::known(findings, key, now) == findings[key].status
            &&& !counts ==> cache::known(findings, key, now) is Unknown
            &&& after.contains_key(key) <==> counts
            &&& counts ==> after[key] == findings[key]
            &&& other != key ==> after.contains_key(other) == findings.contains_key(other)
            &&& other != key && findings.contains_key(other) ==> after[other] == findings[other]
        }),
{
}

/// Where it is settled what commands come to on the host, findings on a launch are kept under
/// one key: what its command comes to, or the command itself where it is not found, its
/// arguments, and the digest of its whole environment.
pub proof fn law_findings_are_kept_by_the_whole_launch<F: Fn(&str) -> Option<String>>(
    resolve: F,
    finds: spec_fn(Seq<char>) -> Option<Seq<char>>,
    command: Seq<char>,
    args: Seq<Seq<char>>,
    env: Map<Seq<char>, Seq<char>>,
    key: CacheKeyModel,
)
    requires
        forall|c: &str, found: Option<String>| #[trigger]
            call_ensures(resolve, (c,), found) ==> text::opt_text(found) == finds(c@),
        cache::keyed_by(resolve, command, args, env, key),
    ensures
        finds(command) matches Some(path) ==> key.command == path,
        finds(command) is None ==> key.command == command,
        key.args == args,
        key.env_digest == outside::sha256(digest::framed(env_map::sorted_listing(env))),
{
}

/// What a list of pairs is digested as is what its parts are digested as, one after the other;
/// and of one pair the key comes before the value, each behind its length in bytes.
pub proof fn law_pairs_are_framed_one_after_the_other(
    a: Seq<(Seq<char>, Seq<char>)>,
    b: Seq<(Seq<char>, Seq<char>)>,
    key: Seq<char>,
    value: Seq<char>,
)
    ensures
        digest::framed(a + b) == digest::framed(a) + digest::framed(b),
        digest::framed(seq![(key, value)]) == vstd::bytes::spec_u64_to_le_bytes(
            vstd::utf8::encode_utf8(key).len() as u64,
        ) + vstd::utf8::encode_utf8(key) + vstd::bytes::spec_u64_to_le_bytes(
            vstd::utf8::encode_utf8(value).len() as u64,
        ) + vstd::utf8::encode_utf8(value),
    decreases b.len(),
{
    let one = seq![(key, value)];
    assert(one.drop_last() =~= Seq::empty());
    assert(digest::framed(one.drop_last()) =~= Seq::empty());
    assert(digest::framed(one) =~= digest::framed_text(key) + digest::framed_text(value));
    if b.len() == 0 {
        assert(a + b =~= a);
        assert(digest::framed(a) + digest::framed(b) =~= digest::framed(a));
    } else {
        law_pairs_are_framed_one_after_the_other(a, b.drop_last(), key, value);
        assert((a + b).drop_last() =~= a + b.drop_last());
        assert((a + b).last() == b.last());
        assert(digest::framed(a + b) =~= digest::framed(a) + digest::framed(b));
    }
}

/// A runtime that offers a model is ready, and one that offers none has no model available. Of a
/// probe that failed, or whose answer is no JSON, nothing is known.
pub proof fn law_any_model_makes_a_runtime_ready(response: ModelsResponse, answer: ProbeAnswer)
    ensures
        response.models.len() > 0 <==> cache::models_status(response) is Ready,
        response.models.len() == 0 <==> cache::models_status(response) is ModelUnavailable,
        !answer.succeeded ==> probe::probe_status(answer) is Unknown,
        outside::json_value(answer.stdout@) is None ==> probe::probe_status(answer) is Unknown,
        answer.succeeded && outside::json_value(answer.stdout@) is Some ==> {
            let offered = models::normalized_models(
                outside::json_value(answer.stdout@)->0,
                None,
            ).models.len();
            &&& offered > 0 <==> probe::probe_status(answer) is Ready
            &&& offered == 0 <==> probe::probe_status(answer) is ModelUnavailable
        },
{
}

/// Joined texts stand one after the other with one comma between each two: what two lists are
/// joined to is what each is joined to, with a comma between them.
pub proof fn law_joined_texts_are_parted_by_commas(a: Seq<Seq<char>>, b: Seq<Seq<char>>, x: Seq<char>)
    ensures
        probe::comma_joined(Seq::<Seq<char>>::empty()).len() == 0,
        probe::comma_joined(seq![x]) == x,
        a.len() > 0 && b.len() > 0 ==> probe::comma_joined(a + b) == probe::comma_joined(a)
            + seq![','] + probe::comma_joined(b),
    decreases b.len(),
{
    reveal_strlit(",");
    assert(","@ =~= seq![',']);
    if a.len() > 0 && b.len() == 1 {
        assert((a + b).drop_last() =~= a);
        assert((a + b).last() == b[0]);
    } else if a.len() > 0 && b.len() > 1 {
        law_joined_texts_are_parted_by_commas(a, b.drop_last(), x);
        assert((a + b).drop_last() =~= a + b.drop_last());
        assert((a + b).last() == b.last());
        assert(probe::comma_joined(a + b) =~= probe::comma_joined(a) + seq![',']
            + probe::comma_joined(b));
    }
}

/// A probe that has ended is collected, whatever the time; one that is lost has failed; and one
/// that runs is waited for exactly until its deadline.
pub proof fn law_probes_are_waited_for_until_their_deadline(
    state: ProbeState,
    now: u128,
    deadline: u128,
)
    ensures
        probe::probe_move(state, now, deadline) == ProbeMove::Collect <==> state
            == ProbeState::Exited,
        probe::probe_move(state, now, deadline) == ProbeMove::Fail <==> state == ProbeState::Lost,
        probe::probe_move(state, now, deadline) == ProbeMove::Wait <==> state
            == ProbeState::Running && now < deadline,
        probe::probe_move(state, now, deadline) == ProbeMove::TimeOut <==> state
            == ProbeState::Running && now >= deadline,
        probe::MODEL_PROBE_TIMEOUT_NANOS == 15 * 1_000_000_000,
        probe::MAX_PROBE_OUTPUT_BYTES == 4 * 1024 * 1024,
{
}

/// A launch needs a probe exactly where it belongs to a runtime that is asked for its models. One
/// of a runtime that only has to be there, or of none that is known, is ready; one of a runtime
/// whose user has to be signed in is not known to be.
pub proof fn law_only_model_runtimes_need_a_probe(m: CatalogModel, d: DescriptorModel, i: int)
    ensures
        descriptor::launch_runtime(m, d.runtime_id, d.command) is None ==> probe::settled_launch(
            m,
            d,
        ) == Some(RuntimeReadinessStatus::Ready),
        descriptor::launch_runtime(m, d.runtime_id, d.command) == Some(i) ==> {
            let policy = m.runtimes[i].readiness_policy;
            &&& policy is AvailabilityOnly ==> probe::settled_launch(m, d) == Some(
                RuntimeReadinessStatus::Ready,
            )
            &&& policy is Authentication ==> probe::settled_launch(m, d) == Some(
                RuntimeReadinessStatus::Unknown,
            )
            &&& policy is AcpModelCatalog ==> probe::settled_launch(m, d) is None
        },
{
}

/// An entry of the catalog is probed exactly where it is available and the first runtime with its
/// id is one that is asked for its models; nothing else of the entry counts.
pub proof fn law_available_model_runtimes_are_probed(m: CatalogModel, entry: EntryModel, i: int)
    ensures
        laws::first_runtime(m, entry.id, i) ==> (probe::is_probed(m, entry)
            <==> entry.availability is Available && m.runtimes[i].readiness_policy is
            AcpModelCatalog),
        laws::no_runtime(m, entry.id) ==> !probe::is_probed(m, entry),
{
    laws::law_ids_are_found_exactly(m, entry.id, i);
}

/// A variable that a harness of the catalog is probed with is what holds for all agents, where
/// users may set it; else the harness's own, where it is not reserved; else what is built in.
pub proof fn law_probes_are_given_the_layers_of_the_catalog(
    baked: Map<Seq<char>, Seq<char>>,
    own: Map<Seq<char>, Seq<char>>,
    global: Map<Seq<char>, Seq<char>>,
    reserved: spec_fn(Seq<char>) -> bool,
    allowed: spec_fn(Seq<char>) -> bool,
    key: Seq<char>,
)
    ensures
        said(probe::catalog_env(baked, own, global, reserved, allowed), key, true) == else_said(
            said(global, key, allowed(key)),
            else_said(said(own, key, !reserved(key)), said(baked, key, true)),
        ),
{
}

/// The whole environment of a probe: its command, its arguments joined by commas, and of the
/// agent's other variables exactly those that are not reserved.
pub proof fn law_probes_are_told_their_command(
    command: Seq<char>,
    args: Seq<Seq<char>>,
    agent_env: Map<Seq<char>, Seq<char>>,
    reserved: spec_fn(Seq<char>) -> bool,
    key: Seq<char>,
)
    ensures
        said(probe::probe_environment(command, args, agent_env, reserved), key, true) == if key
            == "BUZZ_ACP_AGENT_COMMAND"@ {
            Some(command)
        } else if key == "BUZZ_ACP_AGENT_ARGS"@ {
            Some(probe::comma_joined(args))
        } else {
            said(agent_env, key, !reserved(key))
        },
{
    reveal_strlit("BUZZ_ACP_AGENT_COMMAND");
    reveal_strlit("BUZZ_ACP_AGENT_ARGS");
    assert("BUZZ_ACP_AGENT_COMMAND"@.len() != "BUZZ_ACP_AGENT_ARGS"@.len());
}

/// Of the findings of several probes the last one on a key counts, and a key on which there is
/// none keeps what was known of it.
pub proof fn law_the_last_finding_on_a_key_counts(
    before: Map<CacheKeyModel, CachedReadiness>,
    findings: Seq<Option<Finding>>,
    key: CacheKeyModel,
    i: int,
)
    ensures
        0 <= i < findings.len() && findings[i] is Some && findings[i]->0.key == key && (forall|
            k: int,
        |
            i < k < findings.len() && (#[trigger] findings[k]) is Some ==> findings[k]->0.key
                != key) ==> {
            &&& probe::with_findings(before, findings).contains_key(key)
            &&& probe::with_findings(before, findings)[key] == findings[i]->0.found
        },
        (forall|k: int|
            0 <= k < findings.len() && (#[trigger] findings[k]) is Some ==> findings[k]->0.key
                != key) ==> {
            &&& probe::with_findings(before, findings).contains_key(key) == before.contains_key(key)
            &&& before.contains_key(key) ==> probe::with_findings(before, findings)[key]
                == before[key]
        },
    decreases findings.len(),
{
    if findings.len() > 0 {
        let rest = findings.drop_last();
        law_the_last_finding_on_a_key_counts(before, rest, key, i);
        assert(findings[findings.len() - 1] == findings.last());
        assert forall|k: int| 0 <= k < rest.len() implies rest[k] == #[trigger] findings[k] by {}
        if forall|k: int|
            0 <= k < findings.len() && (#[trigger] findings[k]) is Some ==> findings[k]->0.key
                != key {
            assert forall|k: int| 0 <= k < rest.len() && (#[trigger] rest[k]) is Some implies rest[k]->0.key
                != key by {
                assert(findings[k] == rest[k]);
            }
        }
        if 0 <= i < rest.len() && (forall|k: int|
            i < k < findings.len() && (#[trigger] findings[k]) is Some ==> findings[k]->0.key
                != key) {
            assert forall|k: int| i < k < rest.len() && (#[trigger] rest[k]) is Some implies rest[k]->0.key
                != key by {
                assert(findings[k] == rest[k]);
            }
        }
    }
}

/// Refreshing an entry that is not probed changes nothing and finds nothing. Refreshing one that
/// is probed changes its readiness alone, to what the probe of the harness with its id found.
pub proof fn law_refreshing_changes_the_readiness_alone<'a, A, N, M, R, U, F, P>(
    host: HarnessHost<'a, A, N, M, R, U>,
    global: Map<Seq<char>, Seq<char>>,
    resolve: F,
    ask: P,
    before: EntryModel,
    after: EntryModel,
    finding: Option<Finding>,
) where
    A: Fn(&str) -> bool,
    N: Fn(&str, Vec<String>) -> Vec<String>,
    M: Fn(
        &KnownAcpRuntime,
        &ManagedAgentRecord,
        &Vec<AgentDefinition>,
        &GlobalAgentConfig,
    ) -> Vec<(String, String)>,
    R: Fn(&str) -> bool,
    U: Fn(&str) -> bool,
    F: Fn(&str) -> Option<String>,
    P: Fn(&EffectiveHarnessDescriptor) -> ProbeAnswer,

    requires
        host.refreshes(global, resolve, ask, before, after, finding),
    ensures
        !probe::is_probed(host.catalog@, before) ==> after == before && finding is None,
        probe::is_probed(host.catalog@, before) ==> {
            &&& finding is Some
            &&& after.runtime_readiness == finding->0.found.status
            &&& after == EntryModel { runtime_readiness: after.runtime_readiness, ..before }
            &&& exists|d: EffectiveHarnessDescriptor, answer: ProbeAnswer|
                {
                    &&& #[trigger] call_ensures(ask, (&d,), answer)
                    &&& d@.runtime_id == Some(before.id)
                    &&& finding->0.found.status == probe::probe_status(answer)
                    &&& finding->0.found.observed_at == answer.finished_at
                    &&& cache::keyed_by(resolve, d@.command, d@.args, d@.env, finding->0.key)
                }
        },
{
    if probe::is_probed(host.catalog@, before) {
        let f = finding->0;
        let d = choose|d: EffectiveHarnessDescriptor|
            host.probe_launch(before.id, global, d@) && #[trigger] probe::probed(
                resolve,
                ask,
                d,
                f,
            );
        let answer = choose|answer: ProbeAnswer|
            {
                &&& #[trigger] call_ensures(ask, (&d,), answer)
                &&& f.found == CachedReadiness {
                    status: probe::probe_status(answer),
                    observed_at: answer.finished_at,
                }
            };
        let i = identity::runtime_at(host.catalog@, before.id)->0;
        law_probed_launches_are_those_of_their_runtime(host, before.id, global, d@, i);
        assert(call_ensures(ask, (&d,), answer));
    }
}

/// The launch that the harness of a runtime is probed as: its id, the first of its commands that
/// is available, its own arguments, and its own variables under those of all agents and over what
/// is built in.
pub proof fn law_probed_launches_are_those_of_their_runtime<'a, A, N, M, R, U>(
    host: HarnessHost<'a, A, N, M, R, U>,
    id: Seq<char>,
    global: Map<Seq<char>, Seq<char>>,
    d: DescriptorModel,
    i: int,
) where
    A: Fn(&str) -> bool,
    N: Fn(&str, Vec<String>) -> Vec<String>,
    M: Fn(
        &KnownAcpRuntime,
        &ManagedAgentRecord,
        &Vec<AgentDefinition>,
        &GlobalAgentConfig,
    ) -> Vec<(String, String)>,
    R: Fn(&str) -> bool,
    U: Fn(&str) -> bool,

    requires
        host.probe_launch(id, global, d),
        identity::runtime_at(host.catalog@, id) == Some(i),
    ensures
        d.runtime_id == Some(id),
        d.args == host.catalog@.runtimes[i].default_args,
        identity::preferred_command(
            host.command_is_available,
            host.catalog.runtimes@[i].commands@,
            id,
            d.command,
        ),
        d.env == probe::catalog_env(
            host.baked_env@,
            env_map::pairs_env(host.catalog@.runtimes[i].default_env),
            global,
            decision::verdict(host.is_reserved_env_key),
            decision::verdict(host.is_user_env_key),
        ),
{
}

} // verus!
