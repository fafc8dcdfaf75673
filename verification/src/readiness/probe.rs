//! Finding out whether a runtime is ready, by asking it for its models.
use vstd::prelude::*;

use crate::catalog::identity;
use crate::catalog::identity::{Catalog, CatalogModel, LaunchModel};
use crate::catalog::presets::{
    AcpAvailabilityStatus, AcpRuntimeCatalogEntry, EntryModel, RuntimeReadinessStatus,
};
use crate::catalog::runtime_metadata::{KnownAcpRuntime, RuntimeModel, RuntimeReadinessPolicy};
use crate::decision;
use crate::env_map;
use crate::env_map::EnvMap;
use crate::json;
use crate::json::{Json, JsonTree};
use crate::outside;
use crate::readiness::cache;
use crate::readiness::cache::{CacheKeyModel, CachedReadiness, ReadinessCache};
use crate::readiness::descriptor;
use crate::readiness::descriptor::{DescriptorModel, EffectiveHarnessDescriptor, HarnessHost};
use crate::readiness::digest;
use crate::readiness::models;
use crate::readiness::models::AgentModelsResponse;
use crate::readiness::records::{AgentDefinition, GlobalAgentConfig, ManagedAgentRecord};
use crate::search;
use crate::text;

verus! {

/// For how long a runtime may take to name its models, in nanoseconds.
pub const MODEL_PROBE_TIMEOUT_NANOS: u128 = 15_000_000_000;

/// How much of a probe's output is read, in bytes.
pub const MAX_PROBE_OUTPUT_BYTES: u64 = 4_194_304;

/// The variable that tells a probe the agent's command.
pub const PROBE_COMMAND_VARIABLE: &'static str = "BUZZ_ACP_AGENT_COMMAND";

/// The variable that tells a probe the agent's arguments.
pub const PROBE_ARGS_VARIABLE: &'static str = "BUZZ_ACP_AGENT_ARGS";

/// The texts one after the other, with a comma between each two.
pub open spec fn comma_joined(list: Seq<Seq<char>>) -> Seq<char>
    decreases list.len(),
{
    if list.len() == 0 {
        Seq::empty()
    } else if list.len() == 1 {
        list[0]
    } else {
        comma_joined(list.drop_last()) + ","@ + list.last()
    }
}

/// The texts one after the other, with a comma between each two.
pub fn join_args(args: &Vec<String>) -> (r: String)
    ensures
        r@ == comma_joined(text::texts(args@)),
{
    let ghost list = text::texts(args@);
    if args.len() == 0 {
        return String::new();
    }
    let mut joined: String = args[0].clone();
    let mut i: usize = 1;
    assert(list.take(1)[0] == args@[0]@);
    while i < args.len()
        invariant
            1 <= i <= args.len(),
            list == text::texts(args@),
            joined@ == comma_joined(list.take(i as int)),
        decreases args.len() - i,
    {
        assert(list.take(i + 1).drop_last() =~= list.take(i as int));
        assert(list.take(i + 1).last() == args@[i as int]@);
        joined.append(",");
        joined.append(args[i].as_str());
        i += 1;
    }
    assert(list.take(list.len() as int) =~= list);
    joined
}

/// The whole environment of a probe: the agent's environment without what an agent may not
/// set, and the agent's command and arguments.
pub open spec fn probe_environment(
    command: Seq<char>,
    args: Seq<Seq<char>>,
    agent_env: Map<Seq<char>, Seq<char>>,
    reserved: spec_fn(Seq<char>) -> bool,
) -> Map<Seq<char>, Seq<char>> {
    descriptor::harness_env(agent_env, reserved).insert(PROBE_COMMAND_VARIABLE@, command).insert(
        PROBE_ARGS_VARIABLE@,
        comma_joined(args),
    )
}

/// The whole environment of a probe of an agent with this command.
pub fn probe_env<R: Fn(&str) -> bool>(
    command: &str,
    args: &Vec<String>,
    agent_env: &EnvMap,
    is_reserved_env_key: &R,
) -> (r: EnvMap)
    requires
        agent_env.wf(),
        decision::decides(*is_reserved_env_key),
    ensures
        r.wf(),
        r@ == probe_environment(
            command@,
            text::texts(args@),
            agent_env@,
            decision::verdict(*is_reserved_env_key),
        ),
{
    let mut env = agent_env.filtered(is_reserved_env_key, false);
    env.insert(PROBE_COMMAND_VARIABLE.to_owned(), command.to_owned());
    env.insert(PROBE_ARGS_VARIABLE.to_owned(), join_args(args));
    env
}

/// A probe receives its command and its arguments, each variable of the agent's environment
/// that is not reserved, and nothing else.
pub proof fn law_probes_receive_nothing_else(
    command: Seq<char>,
    args: Seq<Seq<char>>,
    agent_env: Map<Seq<char>, Seq<char>>,
    reserved: spec_fn(Seq<char>) -> bool,
    key: Seq<char>,
)
    ensures
        ({
            let env = probe_environment(command, args, agent_env, reserved);
            let own = key == PROBE_COMMAND_VARIABLE@ || key == PROBE_ARGS_VARIABLE@;
            &&& env.contains_key(PROBE_COMMAND_VARIABLE@) && env[PROBE_COMMAND_VARIABLE@]
                == command
            &&& env.contains_key(PROBE_ARGS_VARIABLE@) && env[PROBE_ARGS_VARIABLE@]
                == comma_joined(args)
            &&& !own ==> (env.contains_key(key) <==> agent_env.contains_key(key) && !reserved(key))
            &&& !own && env.contains_key(key) ==> env[key] == agent_env[key]
        }),
{
    reveal_strlit("BUZZ_ACP_AGENT_COMMAND");
    reveal_strlit("BUZZ_ACP_AGENT_ARGS");
    assert(PROBE_COMMAND_VARIABLE@.len() != PROBE_ARGS_VARIABLE@.len());
}

/// What has become of a probe's process.
#[derive(Debug, Clone, Copy, PartialEq, Eq, Structural)]
pub enum ProbeState {
    Exited,
    Running,
    /// The host cannot tell.
    Lost,
}

/// What is done about a probe's process. All but `Wait` end its whole process group.
#[derive(Debug, Clone, Copy, PartialEq, Eq, Structural)]
pub enum ProbeMove {
    Collect,
    Wait,
    TimeOut,
    Fail,
}

/// What is done about a probe's process: a running one is waited for until its deadline.
pub open spec fn probe_move(state: ProbeState, now: u128, deadline: u128) -> ProbeMove {
    match state {
        ProbeState::Exited => ProbeMove::Collect,
        ProbeState::Running => if now < deadline {
            ProbeMove::Wait
        } else {
            ProbeMove::TimeOut
        },
        ProbeState::Lost => ProbeMove::Fail,
    }
}

/// What is done about a probe's process.
pub fn next_probe_move(state: ProbeState, now: u128, deadline: u128) -> (r: ProbeMove)
    ensures
        r == probe_move(state, now, deadline),
{
    match state {
        ProbeState::Exited => ProbeMove::Collect,
        ProbeState::Running => {
            if now < deadline {
                ProbeMove::Wait
            } else {
                ProbeMove::TimeOut
            }
        },
        ProbeState::Lost => ProbeMove::Fail,
    }
}

/// A probe is not waited for once its deadline has come.
pub proof fn law_probes_end_by_their_deadline(state: ProbeState, now: u128, deadline: u128)
    requires
        deadline <= now,
    ensures
        probe_move(state, now, deadline) != ProbeMove::Wait,
{
}

/// What a probe came to: whether its process ended well, what it wrote, and when it ended, in
/// nanoseconds. A probe that could not be made did not end well.
#[derive(Debug)]
pub struct ProbeAnswer {
    pub succeeded: bool,
    pub stdout: Vec<u8>,
    pub finished_at: u128,
}

/// Reads what a probe wrote, where its process ended well.
pub fn read_probe_output(succeeded: bool, stdout: &[u8]) -> (r: Option<Json>)
    ensures
        r is Some <==> succeeded && outside::json_value(stdout@) is Some,
        r matches Some(v) ==> outside::json_value(stdout@) == Some(v.tree()),
{
    if succeeded {
        outside::json_parse(stdout)
    } else {
        None
    }
}

/// What an answer to a probe says of a runtime's readiness; where there is none, nothing.
pub open spec fn answer_status(answer: Option<JsonTree>) -> RuntimeReadinessStatus {
    match answer {
        Some(tree) => cache::models_status(models::normalized_models(tree, None)),
        None => RuntimeReadinessStatus::Unknown,
    }
}

/// What an answer to a probe says of a runtime's readiness.
pub fn status_of_answer(answer: &Option<Json>) -> (r: RuntimeReadinessStatus)
    ensures
        r == answer_status(json::opt_tree(*answer)),
{
    match answer {
        Some(value) => {
            let response = models::normalize_agent_models(value, None);
            cache::status_of_models(&response)
        },
        None => RuntimeReadinessStatus::Unknown,
    }
}

/// What a probe says of a runtime's readiness.
pub open spec fn probe_status(answer: ProbeAnswer) -> RuntimeReadinessStatus {
    answer_status(
        if answer.succeeded {
            outside::json_value(answer.stdout@)
        } else {
            None
        },
    )
}

/// What a probe says of a runtime's readiness.
pub fn status_of_probe(answer: &ProbeAnswer) -> (r: RuntimeReadinessStatus)
    ensures
        r == probe_status(*answer),
{
    let value = read_probe_output(answer.succeeded, answer.stdout.as_slice());
    status_of_answer(&value)
}

/// Reads an agent's answer on its models for its user, and keeps what it says of the
/// agent's readiness.
pub fn record_agent_models<F: Fn(&str) -> Option<String>>(
    cache: &mut ReadinessCache,
    command: &str,
    args: &Vec<String>,
    env: &EnvMap,
    raw: &Json,
    persisted_model: Option<String>,
    resolve: &F,
    now: u128,
) -> (r: AgentModelsResponse)
    requires
        old(cache).wf(),
        env.wf(),
        digest::digestible(env@),
        call_requires(*resolve, (command,)),
    ensures
        final(cache).wf(),
        r@ == models::normalized_models(raw.tree(), text::opt_text(persisted_model)),
        exists|key: CacheKeyModel|
            {
                &&& #[trigger] cache::keyed_by(*resolve, command@, text::texts(args@), env@, key)
                &&& final(cache)@ == old(cache)@.insert(
                    key,
                    (CachedReadiness { status: cache::models_status(r@), observed_at: now }),
                )
            },
{
    let response = models::normalize_agent_models(raw, persisted_model);
    cache::cache_agent_models_result(cache, command, args, env, &response, resolve, now);
    response
}

/// The readiness of a runtime that follows from its policy alone.
pub open spec fn settled(policy: RuntimeReadinessPolicy) -> Option<RuntimeReadinessStatus> {
    match policy {
        RuntimeReadinessPolicy::AvailabilityOnly => Some(RuntimeReadinessStatus::Ready),
        RuntimeReadinessPolicy::Authentication => Some(RuntimeReadinessStatus::Unknown),
        RuntimeReadinessPolicy::AcpModelCatalog => None,
    }
}

/// The readiness of a launch that needs no probe: a launch without a known runtime is ready.
pub open spec fn settled_launch(m: CatalogModel, d: DescriptorModel) -> Option<
    RuntimeReadinessStatus,
> {
    match descriptor::launch_runtime(m, d.runtime_id, d.command) {
        Some(i) => settled(m.runtimes[i].readiness_policy),
        None => Some(RuntimeReadinessStatus::Ready),
    }
}

/// The readiness of a launch that needs no probe.
fn settled_readiness(catalog: &Catalog, d: &EffectiveHarnessDescriptor) -> (r: Option<
    RuntimeReadinessStatus,
>)
    ensures
        r == settled_launch(catalog@, d@),
{
    match d.known_runtime(catalog) {
        Some(runtime) => match runtime.readiness_policy {
            RuntimeReadinessPolicy::AvailabilityOnly => Some(RuntimeReadinessStatus::Ready),
            RuntimeReadinessPolicy::Authentication => Some(RuntimeReadinessStatus::Unknown),
            RuntimeReadinessPolicy::AcpModelCatalog => None,
        },
        None => Some(RuntimeReadinessStatus::Ready),
    }
}

/// What is known of the readiness of a launch, without a probe.
pub fn descriptor_cached_readiness<F: Fn(&str) -> Option<String>>(
    cache: &mut ReadinessCache,
    catalog: &Catalog,
    d: &EffectiveHarnessDescriptor,
    resolve: &F,
    now: u128,
) -> (r: RuntimeReadinessStatus)
    requires
        old(cache).wf(),
        d.env.wf(),
        digest::digestible(d.env@),
        settled_launch(catalog@, d@) is None ==> forall|c: &str|
            c@ == d@.command ==> #[trigger] call_requires(*resolve, (c,)),
    ensures
        final(cache).wf(),
        match settled_launch(catalog@, d@) {
            Some(status) => r == status && final(cache)@ == old(cache)@,
            None => exists|key: CacheKeyModel|
                {
                    &&& #[trigger] cache::keyed_by(
                        *resolve,
                        d@.command,
                        d@.args,
                        d@.env,
                        key,
                    )
                    &&& r == cache::known(old(cache)@, key, now)
                    &&& final(cache)@ == cache::looked_up(old(cache)@, key, now)
                },
        },
{
    match settled_readiness(catalog, d) {
        Some(status) => status,
        None => {
            let r = cache::cached_runtime_readiness(
                cache,
                d.command.as_str(),
                &d.args,
                &d.env,
                resolve,
                now,
            );
            proof {
                let key = choose|key: CacheKeyModel|
                    {
                        &&& #[trigger] cache::keyed_by(
                            *resolve,
                            d.command@,
                            text::texts(d.args@),
                            d.env@,
                            key,
                        )
                        &&& r == cache::known(old(cache)@, key, now)
                        &&& cache@ == cache::looked_up(old(cache)@, key, now)
                    };
                assert(cache::keyed_by(*resolve, d@.command, d@.args, d@.env, key));
            }
            r
        },
    }
}

/// What one probe adds to the findings.
#[verifier::ext_equal]
pub struct Finding {
    pub key: CacheKeyModel,
    pub found: CachedReadiness,
}

/// Whether a probe of this launch comes to this finding.
pub open spec fn probed<
    F: Fn(&str) -> Option<String>,
    P: Fn(&EffectiveHarnessDescriptor) -> ProbeAnswer,
>(resolve: F, probe: P, d: EffectiveHarnessDescriptor, finding: Finding) -> bool {
    &&& cache::keyed_by(resolve, d@.command, d@.args, d@.env, finding.key)
    &&& exists|answer: ProbeAnswer|
        {
            &&& #[trigger] call_ensures(probe, (&d,), answer)
            &&& finding.found == CachedReadiness {
                status: probe_status(answer),
                observed_at: answer.finished_at,
            }
        }
}

/// Finds out the readiness of a launch, by a probe where it needs one, and keeps the finding.
/// `probe` asks the runtime for its models, and is called on no launch whose readiness follows
/// from its policy alone; where it fails, the readiness is unknown.
pub fn force_descriptor_readiness<
    F: Fn(&str) -> Option<String>,
    P: Fn(&EffectiveHarnessDescriptor) -> ProbeAnswer,
>(
    cache: &mut ReadinessCache,
    catalog: &Catalog,
    d: &EffectiveHarnessDescriptor,
    resolve: &F,
    probe: &P,
) -> (r: RuntimeReadinessStatus)
    requires
        old(cache).wf(),
        d.env.wf(),
        digest::digestible(d.env@),
        settled_launch(catalog@, d@) is None ==> forall|c: &str|
            c@ == d@.command ==> #[trigger] call_requires(*resolve, (c,)),
        settled_launch(catalog@, d@) is None ==> call_requires(*probe, (d,)),
    ensures
        final(cache).wf(),
        match settled_launch(catalog@, d@) {
            Some(status) => r == status && final(cache)@ == old(cache)@,
            None => exists|finding: Finding|
                {
                    &&& #[trigger] probed(*resolve, *probe, *d, finding)
                    &&& r == finding.found.status
                    &&& final(cache)@ == old(cache)@.insert(finding.key, finding.found)
                },
        },
{
    match settled_readiness(catalog, d) {
        Some(status) => status,
        None => {
            let answer = probe(d);
            let status = status_of_probe(&answer);
            let key = cache::readiness_cache_key(d.command.as_str(), &d.args, &d.env, resolve);
            let ghost finding = Finding {
                key: key@,
                found: CachedReadiness { status, observed_at: answer.finished_at },
            };
            assert(call_ensures(*probe, (d,), answer));
            assert(probed(*resolve, *probe, *d, finding));
            cache.put_cached(key, status, answer.finished_at);
            status
        },
    }
}

/// The environment that a harness of the catalog is probed with: what is built in, under the
/// harness's own variables, under those of all agents.
pub open spec fn catalog_env(
    baked: Map<Seq<char>, Seq<char>>,
    own: Map<Seq<char>, Seq<char>>,
    global: Map<Seq<char>, Seq<char>>,
    reserved: spec_fn(Seq<char>) -> bool,
    allowed: spec_fn(Seq<char>) -> bool,
) -> Map<Seq<char>, Seq<char>> {
    baked.union_prefer_right(descriptor::harness_env(own, reserved)).union_prefer_right(
        descriptor::user_env(Map::empty(), global, allowed),
    )
}

/// Whether an entry of the catalog is probed: it is available, and its runtime is one that
/// is asked for its models.
pub open spec fn is_probed(m: CatalogModel, entry: EntryModel) -> bool {
    &&& entry.availability == AcpAvailabilityStatus::Available
    &&& match identity::runtime_at(m, entry.id) {
        Some(i) => m.runtimes[i].readiness_policy == RuntimeReadinessPolicy::AcpModelCatalog,
        None => false,
    }
}

/// The findings with those of the probes, one after the other.
pub open spec fn with_findings(
    before: Map<CacheKeyModel, CachedReadiness>,
    findings: Seq<Option<Finding>>,
) -> Map<CacheKeyModel, CachedReadiness>
    decreases findings.len(),
{
    if findings.len() == 0 {
        before
    } else {
        let rest = with_findings(before, findings.drop_last());
        match findings.last() {
            Some(finding) => rest.insert(finding.key, finding.found),
            None => rest,
        }
    }
}

impl<'a, A, N, M, R, U> HarnessHost<'a, A, N, M, R, U> where
    A: Fn(&str) -> bool,
    N: Fn(&str, Vec<String>) -> Vec<String>,
    M: Fn(
        &KnownAcpRuntime,
        &ManagedAgentRecord,
        &Vec<AgentDefinition>,
        &GlobalAgentConfig,
    ) -> Vec<(String, String)>,
    R: Fn(&str) -> bool,
    U: Fn(&str) -> bool,
 {
    /// The environment that a harness with these variables of its own is probed with.
    pub open spec fn probed_env(
        self,
        own: Map<Seq<char>, Seq<char>>,
        global: Map<Seq<char>, Seq<char>>,
    ) -> Map<Seq<char>, Seq<char>> {
        catalog_env(
            self.baked_env@,
            own,
            global,
            decision::verdict(self.is_reserved_env_key),
            decision::verdict(self.is_user_env_key),
        )
    }

    /// Whether the environment of every runtime can be digested.
    pub open spec fn can_digest(self, global: Map<Seq<char>, Seq<char>>) -> bool {
        forall|i: int|
            0 <= i < self.catalog@.runtimes.len() ==> digest::digestible(
                self.probed_env(
                    env_map::pairs_env((#[trigger] self.catalog@.runtimes[i]).default_env),
                    global,
                ),
            )
    }

    /// Whether `d` is the launch that the harness with this id is probed as.
    pub open spec fn probe_launch(
        self,
        id: Seq<char>,
        global: Map<Seq<char>, Seq<char>>,
        d: DescriptorModel,
    ) -> bool {
        exists|launch: LaunchModel|
            {
                &&& #[trigger] identity::launches(
                    *self.catalog,
                    id,
                    self.command_is_available,
                    Ok(launch),
                )
                &&& d == DescriptorModel {
                    runtime_id: Some(launch.runtime_id),
                    command: launch.command,
                    args: launch.default_args,
                    env: self.probed_env(launch.definition_env(), global),
                }
            }
    }

    /// Whether `d` is the launch of one of these entries that is probed.
    pub open spec fn is_to_be_probed(
        self,
        entries: Seq<AcpRuntimeCatalogEntry>,
        global: Map<Seq<char>, Seq<char>>,
        d: DescriptorModel,
    ) -> bool {
        exists|i: int|
            0 <= i < entries.len() && is_probed(self.catalog@, (#[trigger] entries[i])@)
                && self.probe_launch(entries[i]@.id, global, d)
    }

    /// Whether refreshing an entry makes it `after`, with this finding.
    pub open spec fn refreshes<
        F: Fn(&str) -> Option<String>,
        P: Fn(&EffectiveHarnessDescriptor) -> ProbeAnswer,
    >(
        self,
        global: Map<Seq<char>, Seq<char>>,
        resolve: F,
        probe: P,
        before: EntryModel,
        after: EntryModel,
        finding: Option<Finding>,
    ) -> bool {
        if is_probed(self.catalog@, before) {
            &&& finding matches Some(f)
            &&& after == (EntryModel { runtime_readiness: f.found.status, ..before })
            &&& exists|d: EffectiveHarnessDescriptor|
                self.probe_launch(before.id, global, d@) && #[trigger] probed(
                    resolve,
                    probe,
                    d,
                    f,
                )
        } else {
            after == before && finding is None
        }
    }

    /// The launch that the harness of a runtime is probed as.
    fn launch_to_probe(&self, id: &str, global: &GlobalAgentConfig) -> (r:
        EffectiveHarnessDescriptor)
        requires
            self.ready(),
            global.env_vars.wf(),
            identity::runtime_at(self.catalog@, id@) is Some,
        ensures
            r.env.wf(),
            self.probe_launch(id@, global.env_vars@, r@),
            r@.runtime_id == Some(id@),
            identity::runtime_at(self.catalog@, id@) matches Some(i) ==> r@.env
                == self.probed_env(
                env_map::pairs_env(self.catalog@.runtimes[i].default_env),
                global.env_vars@,
            ),
    {
        let found = self.resolve_catalog_harness_by_id(id);
        let ghost launch = identity::launch_view(found)->Ok_0;
        let spec = match found {
            Ok(spec) => spec,
            Err(_) => {
                assert(false);
                vstd::pervasive::unreached()
            },
        };
        let mut env = self.baked_env.copy();
        let own = spec.definition_env();
        let own = own.filtered(&self.is_reserved_env_key, false);
        env.extend(&own);
        let nothing = EnvMap::new();
        let of_all = descriptor::merged_user_env(
            &nothing,
            &global.env_vars,
            &self.is_user_env_key,
        );
        env.extend(&of_all);
        let d = EffectiveHarnessDescriptor {
            runtime_id: Some(spec.runtime_id),
            command: spec.command,
            args: spec.default_args,
            env,
        };
        assert(identity::launches(
            *self.catalog,
            id@,
            self.command_is_available,
            Ok(launch),
        ));
        assert(d@.env =~= self.probed_env(launch.definition_env(), global.env_vars@));
        d
    }

    /// Whether an entry of the catalog is probed.
    fn entry_is_probed(&self, entry: &AcpRuntimeCatalogEntry) -> (r: bool)
        ensures
            r == is_probed(self.catalog@, entry@),
    {
        match entry.availability {
            AcpAvailabilityStatus::Available => match self.catalog.known_acp_runtime_exact(
                entry.id.as_str(),
            ) {
                Some(runtime) => match runtime.readiness_policy {
                    RuntimeReadinessPolicy::AcpModelCatalog => true,
                    _ => false,
                },
                None => false,
            },
            _ => false,
        }
    }

    /// Finds out the readiness of every entry that is probed, and keeps the findings. All
    /// else of the entries stays as it is, and no other launch is probed.
    pub fn refresh_catalog_runtime_readiness<
        F: Fn(&str) -> Option<String>,
        P: Fn(&EffectiveHarnessDescriptor) -> ProbeAnswer,
    >(
        &self,
        cache: &mut ReadinessCache,
        entries: &mut Vec<AcpRuntimeCatalogEntry>,
        global: &GlobalAgentConfig,
        resolve: &F,
        probe: &P,
    )
        requires
            self.ready(),
            old(cache).wf(),
            global.env_vars.wf(),
            self.can_digest(global.env_vars@),
            forall|c: &str| #[trigger] call_requires(*resolve, (c,)),
            forall|l: &EffectiveHarnessDescriptor|
                self.is_to_be_probed(old(entries)@, global.env_vars@, l@)
                    ==> #[trigger] call_requires(*probe, (l,)),
        ensures
            final(cache).wf(),
            final(entries)@.len() == old(entries)@.len(),
            exists|findings: Seq<Option<Finding>>|
                {
                    &&& findings.len() == old(entries)@.len()
                    &&& final(cache)@ == #[trigger] with_findings(old(cache)@, findings)
                    &&& forall|i: int|
                        0 <= i < findings.len() ==> self.refreshes(
                            global.env_vars@,
                            *resolve,
                            *probe,
                            old(entries)@[i]@,
                            final(entries)@[i]@,
                            #[trigger] findings[i],
                        )
                },
    {
        let ghost before = entries@;
        let ghost start = cache@;
        let ghost mut findings: Seq<Option<Finding>> = Seq::empty();
        let mut i: usize = 0;
        while i < entries.len()
            invariant
                i <= entries.len(),
                entries@.len() == before.len(),
                findings.len() == i,
                self.ready(),
                cache.wf(),
                global.env_vars.wf(),
                self.can_digest(global.env_vars@),
                forall|c: &str| #[trigger] call_requires(*resolve, (c,)),
                forall|l: &EffectiveHarnessDescriptor|
                    self.is_to_be_probed(before, global.env_vars@, l@)
                        ==> #[trigger] call_requires(*probe, (l,)),
                cache@ == with_findings(start, findings),
                forall|j: int| i <= j < before.len() ==> entries@[j] == #[trigger] before[j],
                forall|j: int|
                    0 <= j < i ==> self.refreshes(
                        global.env_vars@,
                        *resolve,
                        *probe,
                        before[j]@,
                        entries@[j]@,
                        #[trigger] findings[j],
                    ),
            decreases entries.len() - i,
        {
            let ghost seen = entries@;
            let ghost entry = entries@[i as int]@;
            let ghost mut made: Option<Finding> = None;
            if self.entry_is_probed(&entries[i]) {
                let d = self.launch_to_probe(entries[i].id.as_str(), global);
                let ghost earlier = cache@;
                proof {
                    search::first_holds(
                        self.catalog@.runtimes,
                        |r: RuntimeModel| r.id == entry.id,
                    );
                    let k = identity::runtime_at(self.catalog@, entry.id)->0;
                    assert(digest::digestible(
                        self.probed_env(
                            env_map::pairs_env(self.catalog@.runtimes[k].default_env),
                            global.env_vars@,
                        ),
                    ));
                    assert(d.env@ == d@.env);
                    assert(entries@[i as int] == before[i as int]);
                    assert(self.is_to_be_probed(before, global.env_vars@, d@));
                }
                let status = force_descriptor_readiness(cache, self.catalog, &d, resolve, probe);
                proof {
                    let f = choose|f: Finding|
                        {
                            &&& #[trigger] probed(*resolve, *probe, d, f)
                            &&& status == f.found.status
                            &&& cache@ == earlier.insert(f.key, f.found)
                        };
                    made = Some(f);
                }
                entries[i].runtime_readiness = status;
                assert(entries@[i as int]@ =~= (EntryModel { runtime_readiness: status, ..entry }));
            }
            proof {
                assert(self.refreshes(
                    global.env_vars@,
                    *resolve,
                    *probe,
                    before[i as int]@,
                    entries@[i as int]@,
                    made,
                ));
                let longer = findings.push(made);
                assert(longer.drop_last() =~= findings);
                assert forall|j: int| 0 <= j < i + 1 implies self.refreshes(
                    global.env_vars@,
                    *resolve,
                    *probe,
                    before[j]@,
                    entries@[j]@,
                    #[trigger] longer[j],
                ) by {
                    if j < i {
                        assert(longer[j] == findings[j]);
                        assert(entries@[j] == seen[j]);
                    }
                }
                findings = longer;
            }
            i += 1;
        }
        assert(cache@ == with_findings(start, findings));
    }
}

} // verus!
