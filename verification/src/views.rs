//! Models leave nothing out: each says as much as the value that it stands for.
use vstd::prelude::*;

use crate::catalog::identity;
use crate::catalog::identity::{Catalog, CatalogHarnessLaunchSpec};
use crate::catalog::runtime_metadata;
use crate::catalog::runtime_metadata::KnownAcpRuntime;
use crate::delivery::observe;
use crate::delivery::observe::{DeliveryFrame, PendingDelivery};
use crate::delivery::outbox;
use crate::delivery::outbox::{FinalReplyTarget, LoadIssue};
use crate::delivery::record;
use crate::delivery::record::{HostFinalDeliveryRecord, OutboxScope};
use crate::delivery::recovery;
use crate::delivery::run;
use crate::delivery::run::{DeliveryTransition, HostFinalDeliveryOutcome};
use crate::env_map;
use crate::json;
use crate::json::Json;
use crate::ompk_execution;
use crate::ompk_execution::{
    CanonicalPath, OmpkExecutionError, OmpkExecutionPolicy, OmpkExecutionRequest, PathProbe,
};
use crate::permission;
use crate::permission::PermissionBinding;
use crate::readiness::descriptor;
use crate::readiness::descriptor::EffectiveHarnessDescriptor;
use crate::readiness::models;
use crate::readiness::models::AgentModelInfo;
use crate::readiness::providers;
use crate::readiness::records;
use crate::readiness::records::{AgentDefinition, ManagedAgentRecord};
use crate::room_event;
use crate::room_event::RoomEvent;
use crate::text;

verus! {

/// An optional text is there in its model exactly where it is there, as it stands.
pub proof fn law_optional_texts_are_kept(s: String, t: &str, w: &'static str, v: Json)
    ensures
        text::opt_text(Some(s)) == Some(s@),
        text::opt_text(None) is None,
        outbox::opt_str(Some(t)) == Some(t@),
        outbox::opt_str(None) is None,
        providers::opt_str(Some(t)) == Some(t@),
        providers::opt_str(None) is None,
        runtime_metadata::opt_word(Some(w)) == Some(w@),
        runtime_metadata::opt_word(None) is None,
        json::opt_tree(Some(v)) == Some(v.tree()),
        json::opt_tree(None) is None,
{
}

/// The model of a list of texts has each of them, in their order, and no other.
pub proof fn law_lists_of_texts_are_kept(
    texts: Seq<String>,
    words: Seq<&'static str>,
    pairs: Seq<(String, String)>,
    word_pairs: Seq<(&'static str, &'static str)>,
    tags: Seq<Vec<String>>,
    ids: Seq<[u8; 32]>,
    i: int,
)
    ensures
        text::texts(texts).len() == texts.len(),
        0 <= i < texts.len() ==> text::texts(texts)[i] == texts[i]@,
        runtime_metadata::words(words).len() == words.len(),
        0 <= i < words.len() ==> runtime_metadata::words(words)[i] == words[i]@,
        env_map::pair_views(pairs).len() == pairs.len(),
        0 <= i < pairs.len() ==> env_map::pair_views(pairs)[i] == (pairs[i].0@, pairs[i].1@),
        runtime_metadata::word_pairs(word_pairs).len() == word_pairs.len(),
        0 <= i < word_pairs.len() ==> runtime_metadata::word_pairs(word_pairs)[i] == (
            word_pairs[i].0@,
            word_pairs[i].1@,
        ),
        room_event::tag_texts(tags).len() == tags.len(),
        0 <= i < tags.len() ==> room_event::tag_texts(tags)[i] == text::texts(tags[i]@),
        outbox::hex_ids(ids).len() == ids.len(),
        0 <= i < ids.len() ==> outbox::hex_ids(ids)[i] == text::hex_encode(ids[i]@),
{
}

/// The model of a list has the model of each member, in their order, and no other.
pub proof fn law_lists_are_kept_whole(
    transitions: Seq<DeliveryTransition>,
    frames: Seq<DeliveryFrame>,
    outcomes: Seq<HostFinalDeliveryOutcome>,
    pending: Seq<PendingDelivery>,
    bindings: Seq<PermissionBinding>,
    offered: Seq<AgentModelInfo>,
    personas: Seq<AgentDefinition>,
    i: int,
)
    ensures
        run::steps(transitions).len() == transitions.len(),
        0 <= i < transitions.len() ==> run::steps(transitions)[i] == transitions[i]@,
        observe::frame_models(frames).len() == frames.len(),
        0 <= i < frames.len() ==> observe::frame_models(frames)[i] == frames[i]@,
        observe::outcome_models(outcomes).len() == outcomes.len(),
        0 <= i < outcomes.len() ==> observe::outcome_models(outcomes)[i] == outcomes[i]@,
        observe::stored_ids(pending).len() == pending.len(),
        0 <= i < pending.len() ==> observe::stored_ids(pending)[i] == pending[i].stored_id@,
        recovery::pending_models(pending).len() == pending.len(),
        0 <= i < pending.len() ==> recovery::pending_models(pending)[i].stored_id
            == pending[i].stored_id@ && recovery::pending_models(pending)[i].event_id
            == pending[i].event_id@,
        permission::bindings(bindings).len() == bindings.len(),
        0 <= i < bindings.len() ==> permission::bindings(bindings)[i] == bindings[i]@,
        models::model_views(offered).len() == offered.len(),
        0 <= i < offered.len() ==> models::model_views(offered)[i] == offered[i]@,
        records::persona_views(personas).len() == personas.len(),
        0 <= i < personas.len() ==> records::persona_views(personas)[i] == personas[i]@,
{
}

/// The model of a catalog has every runtime, every preset and every definition, in their order,
/// and that of a policy every workspace, by all the components of its path.
pub proof fn law_catalogs_and_policies_are_kept_whole(
    catalog: Catalog,
    policy: OmpkExecutionPolicy,
    path: CanonicalPath,
    probe: PathProbe,
    i: int,
)
    ensures
        catalog@.runtimes.len() == catalog.runtimes@.len(),
        0 <= i < catalog.runtimes@.len() ==> catalog@.runtimes[i] == catalog.runtimes@[i]@,
        catalog@.presets.len() == catalog.presets@.len(),
        0 <= i < catalog.presets@.len() ==> catalog@.presets[i] == catalog.presets@[i]@,
        catalog@.customs.len() == catalog.customs@.len(),
        0 <= i < catalog.customs@.len() ==> catalog@.customs[i] == catalog.customs@[i]@,
        policy@.enabled == policy.enabled,
        policy@.allowed_workspaces.len() == policy.allowed_workspaces@.len(),
        0 <= i < policy.allowed_workspaces@.len() ==> policy@.allowed_workspaces[i]
            == policy.allowed_workspaces@[i]@,
        path@.len() == path.components@.len(),
        0 <= i < path.components@.len() ==> path@[i] == path.components@[i]@,
        probe@.absolute == probe.absolute && probe@.directory == probe.directory,
        probe.canonical matches Some(p) ==> probe@.canonical == Some(p@),
        probe.canonical is None ==> probe@.canonical is None,
{
}

/// The models of what is kept of a delivery, and of an event, say what their fields say.
pub proof fn law_records_and_events_are_kept_whole(
    r: HostFinalDeliveryRecord,
    o: HostFinalDeliveryOutcome,
    issue: LoadIssue,
    scope: OutboxScope,
    event: RoomEvent,
)
    ensures
        r@.version == r.version && r@.event_id == r.event_id@,
        r@.event_bytes_b64 == text::opt_text(r.event_bytes_b64),
        r@.relay_url == r.relay_url@ && r@.sender_pubkey == r.sender_pubkey@,
        r@.channel_id == r.channel_id@ && r@.trigger_event_id == r.trigger_event_id@,
        r@.source_event_ids == text::texts(r.source_event_ids@),
        r@.logical_attempts == r.logical_attempts && r@.state == r.state,
        r@.next_attempt_unix_ms == r.next_attempt_unix_ms,
        r@.diagnostic == text::opt_text(r.diagnostic),
        o@.disposition == o.disposition && o@.channel_id == o.channel_id,
        o@.event_id == text::opt_text(o.event_id),
        o@.trigger_event_id == text::opt_text(o.trigger_event_id),
        o@.resumed == o.resumed && o@.transitions == run::steps(o.transitions@),
        issue@.event_id == text::opt_text(issue.event_id),
        issue@.channel_id == issue.channel_id && issue@.reason == issue.reason@,
        scope@.relay_url == scope.relay_url@ && scope@.sender_pubkey == scope.sender_pubkey@,
        event@.id == event.id@ && event@.kind == event.kind,
        event@.tags == room_event::tag_texts(event.tags@),
{
}

/// The models of an agent's records and of its launch say what their fields say.
pub proof fn law_launches_are_kept_whole<'a>(
    r: ManagedAgentRecord,
    p: AgentDefinition,
    d: EffectiveHarnessDescriptor,
    spec: CatalogHarnessLaunchSpec<'a>,
    runtime: &KnownAcpRuntime,
    target: FinalReplyTarget,
)
    ensures
        r@.persona_id == text::opt_text(r.persona_id),
        r@.runtime == text::opt_text(r.runtime),
        r@.launch_runtime_id == text::opt_text(r.launch_runtime_id),
        r@.raw_command_explicit == r.raw_command_explicit,
        r@.agent_command_override == text::opt_text(r.agent_command_override),
        r@.agent_args == text::texts(r.agent_args@),
        r@.env_vars == r.env_vars@,
        p@.id == p.id@ && p@.runtime == text::opt_text(p.runtime) && p@.env_vars == p.env_vars@,
        d@.runtime_id == text::opt_text(d.runtime_id) && d@.command == d.command@,
        d@.args == text::texts(d.args@) && d@.env == d.env@,
        spec@.runtime_id == spec.runtime_id@ && spec@.command == spec.command@,
        spec@.default_args == text::texts(spec.default_args@),
        spec.known_runtime matches Some(k) ==> spec@.known_runtime == Some(k@),
        spec.known_runtime is None ==> spec@.known_runtime is None,
        spec.definition matches Some(def) ==> spec@.definition == Some(def@),
        spec.definition is None ==> spec@.definition is None,
        descriptor::launch_model(Some(spec)) == Some(spec@),
        descriptor::launch_model(None) is None,
        descriptor::referenced_runtime(Some(runtime)) == Some(*runtime),
        descriptor::referenced_runtime(None) is None,
        run::opt_target(Some(&target)) == Some(target),
        run::opt_target(None) is None,
{
}

/// An answer is a success or an error in its model exactly where it is one, with what it holds.
pub proof fn law_answers_are_kept_apart<'a>(
    bytes: Vec<u8>,
    word: &'static str,
    command: String,
    reason: String,
    d: EffectiveHarnessDescriptor,
    spec: CatalogHarnessLaunchSpec<'a>,
    request: OmpkExecutionRequest,
    refusal: OmpkExecutionError,
)
    ensures
        record::fault_of(Ok(())) is None,
        record::fault_of(Err(word)) == Some(word@),
        record::bytes_view(Ok(bytes)) == Ok::<Seq<u8>, Seq<char>>(bytes@),
        record::bytes_view(Err(word)) == Err::<Seq<u8>, Seq<char>>(word@),
        descriptor::command_view(Ok(command)) == Ok::<Seq<char>, Seq<char>>(command@),
        descriptor::command_view(Err(reason)) == Err::<Seq<char>, Seq<char>>(reason@),
        descriptor::descriptor_view(Ok(d)) == Ok::<descriptor::DescriptorModel, Seq<char>>(d@),
        descriptor::descriptor_view(Err(reason)) == Err::<
            descriptor::DescriptorModel,
            Seq<char>,
        >(reason@),
        identity::launch_view(Ok(spec)) == Ok::<identity::LaunchModel, Seq<char>>(spec@),
        identity::launch_view(Err(reason)) == Err::<identity::LaunchModel, Seq<char>>(reason@),
        ompk_execution::answer_view(Ok(Some(request))) == Ok::<
            Option<ompk_execution::RequestModel>,
            OmpkExecutionError,
        >(Some(request@)),
        ompk_execution::answer_view(Ok(None)) == Ok::<
            Option<ompk_execution::RequestModel>,
            OmpkExecutionError,
        >(None),
        ompk_execution::answer_view(Err(refusal)) == Err::<
            Option<ompk_execution::RequestModel>,
            OmpkExecutionError,
        >(refusal),
        request@.execution_id == request.execution_id@,
        request.cwd matches Some(p) ==> request@.cwd == Some(p@),
        request.cwd is None ==> request@.cwd is None,
{
}

} // verus!
