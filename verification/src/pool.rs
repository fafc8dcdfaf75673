//! The sessions that an agent keeps, and what ends them.
use std::collections::HashMap;
use vstd::prelude::*;

use crate::json::Json;
use crate::text;

verus! {

broadcast use vstd::std_specs::hash::group_hash_axioms;

/// Where a prompt came from.
#[derive(Debug, Clone, Copy, PartialEq, Eq, Structural)]
pub enum PromptSource {
    Channel(u128),
    Heartbeat,
}

/// What an agent keeps of its sessions, by channel.
pub struct SessionState {
    /// The session of each channel.
    pub sessions: HashMap<u128, String>,
    /// The directory that each channel's session was started in.
    pub session_cwds: HashMap<u128, String>,
    pub heartbeat_session: Option<String>,
    /// The turns taken in each channel's session.
    pub turn_counts: HashMap<u128, u32>,
    pub heartbeat_turn_count: u32,
    /// The core prompt section of each channel's session.
    pub core_sections: HashMap<u128, String>,
    /// The canvas section of each channel's session.
    pub canvas_sections: HashMap<u128, String>,
}

impl SessionState {
    /// Whether anything is kept of a channel.
    pub open spec fn keeps(self, channel_id: u128) -> bool {
        ||| self.sessions@.contains_key(channel_id)
        ||| self.session_cwds@.contains_key(channel_id)
        ||| self.turn_counts@.contains_key(channel_id)
        ||| self.core_sections@.contains_key(channel_id)
        ||| self.canvas_sections@.contains_key(channel_id)
    }

    /// Whether `next` is this state with everything of one channel gone and nothing else
    /// changed.
    pub open spec fn without_channel(self, channel_id: u128, next: SessionState) -> bool {
        &&& next.sessions@ == self.sessions@.remove(channel_id)
        &&& next.session_cwds@ == self.session_cwds@.remove(channel_id)
        &&& next.turn_counts@ == self.turn_counts@.remove(channel_id)
        &&& next.core_sections@ == self.core_sections@.remove(channel_id)
        &&& next.canvas_sections@ == self.canvas_sections@.remove(channel_id)
        &&& next.heartbeat_session == self.heartbeat_session
        &&& next.heartbeat_turn_count == self.heartbeat_turn_count
    }

    /// Whether `next` keeps of all channels what this state does.
    pub open spec fn same_channels(self, next: SessionState) -> bool {
        &&& next.sessions@ == self.sessions@
        &&& next.session_cwds@ == self.session_cwds@
        &&& next.turn_counts@ == self.turn_counts@
        &&& next.core_sections@ == self.core_sections@
        &&& next.canvas_sections@ == self.canvas_sections@
    }

    /// Whether `next` is this state once the session of `source` is given up.
    pub open spec fn invalidated(self, source: PromptSource, next: SessionState) -> bool {
        match source {
            PromptSource::Channel(channel_id) => self.without_channel(channel_id, next),
            PromptSource::Heartbeat => {
                &&& self.same_channels(next)
                &&& next.heartbeat_session is None
                &&& next.heartbeat_turn_count == 0
            },
        }
    }

    /// The state of an agent without sessions.
    pub fn new() -> (r: SessionState)
        ensures
            forall|channel_id: u128| !r.keeps(channel_id),
            r.heartbeat_session is None,
            r.heartbeat_turn_count == 0,
    {
        SessionState {
            sessions: HashMap::new(),
            session_cwds: HashMap::new(),
            heartbeat_session: None,
            turn_counts: HashMap::new(),
            heartbeat_turn_count: 0,
            core_sections: HashMap::new(),
            canvas_sections: HashMap::new(),
        }
    }

    /// Gives up the session of a prompt source, with its turn count.
    pub fn invalidate(&mut self, source: &PromptSource)
        ensures
            old(self).invalidated(*source, *final(self)),
    {
        match source {
            PromptSource::Channel(channel_id) => {
                let _ = self.invalidate_channel(channel_id);
            },
            PromptSource::Heartbeat => {
                self.heartbeat_session = None;
                self.heartbeat_turn_count = 0;
            },
        }
    }

    /// Gives up the session of a channel, with all that belongs to it; whether there was
    /// one.
    pub fn invalidate_channel(&mut self, channel_id: &u128) -> (r: bool)
        ensures
            r == old(self).sessions@.contains_key(*channel_id),
            old(self).without_channel(*channel_id, *final(self)),
    {
        let _ = self.turn_counts.remove(channel_id);
        let _ = self.core_sections.remove(channel_id);
        let _ = self.canvas_sections.remove(channel_id);
        let _ = self.session_cwds.remove(channel_id);
        self.sessions.remove(channel_id).is_some()
    }

    /// Whether a channel's session must not be used for a prompt in this directory: it was
    /// started in another, or in one that is not known.
    pub open spec fn stale_cwd(self, channel_id: u128, desired_cwd: Seq<char>) -> bool {
        &&& self.sessions@.contains_key(channel_id)
        &&& !(self.session_cwds@.contains_key(channel_id) && self.session_cwds@[channel_id]@
            == desired_cwd)
    }

    /// Gives up a channel's session where it was not started in the desired directory;
    /// whether it did.
    pub fn rotate_if_cwd_changed(&mut self, channel_id: &u128, desired_cwd: &str) -> (r: bool)
        ensures
            r == old(self).stale_cwd(*channel_id, desired_cwd@),
            r ==> old(self).without_channel(*channel_id, *final(self)),
            !r ==> *final(self) == *old(self),
    {
        if !self.sessions.contains_key(channel_id) {
            return false;
        }
        let same = match self.session_cwds.get(channel_id) {
            Some(cwd) => text::same(cwd.as_str(), desired_cwd),
            None => false,
        };
        if same {
            return false;
        }
        let _ = self.invalidate_channel(channel_id);
        true
    }

    /// Gives up all sessions.
    pub fn invalidate_all(&mut self)
        ensures
            forall|channel_id: u128| !final(self).keeps(channel_id),
            final(self).heartbeat_session is None,
            final(self).heartbeat_turn_count == 0,
    {
        self.sessions.clear();
        self.session_cwds.clear();
        self.turn_counts.clear();
        self.heartbeat_session = None;
        self.heartbeat_turn_count = 0;
        self.core_sections.clear();
        self.canvas_sections.clear();
    }

    /// Whether anything is kept of a channel.
    pub fn has_channel_state(&self, channel_id: &u128) -> (r: bool)
        ensures
            r == self.keeps(*channel_id),
    {
        self.sessions.contains_key(channel_id) || self.session_cwds.contains_key(channel_id)
            || self.turn_counts.contains_key(channel_id) || self.core_sections.contains_key(
            channel_id,
        ) || self.canvas_sections.contains_key(channel_id)
    }
}

/// Giving up a channel's session leaves nothing of that channel and all of the others.
pub proof fn law_invalidation_is_complete_and_scoped(
    before: SessionState,
    after: SessionState,
    channel_id: u128,
    other: u128,
)
    requires
        before.without_channel(channel_id, after),
    ensures
        !after.keeps(channel_id),
        other != channel_id ==> {
            &&& after.keeps(other) == before.keeps(other)
            &&& before.sessions@.contains_key(other) ==> after.sessions@[other]
                == before.sessions@[other]
            &&& before.session_cwds@.contains_key(other) ==> after.session_cwds@[other]
                == before.session_cwds@[other]
            &&& before.turn_counts@.contains_key(other) ==> after.turn_counts@[other]
                == before.turn_counts@[other]
        },
{
}

/// A channel's session that is kept for a prompt was started in the prompt's directory.
pub proof fn law_kept_session_has_the_desired_cwd(
    state: SessionState,
    channel_id: u128,
    desired_cwd: Seq<char>,
)
    requires
        state.sessions@.contains_key(channel_id),
        !state.stale_cwd(channel_id, desired_cwd),
    ensures
        state.session_cwds@.contains_key(channel_id),
        state.session_cwds@[channel_id]@ == desired_cwd,
{
}

/// What is asked of a turn under way.
#[derive(Debug, Clone, PartialEq, Eq)]
pub enum ControlSignal {
    /// To stop, and drop its batch.
    Cancel,
    /// To stop, and prompt anew with the new request in place of the old.
    Interrupt,
    /// To stop, and prompt anew with the new message added to the work.
    Steer,
    /// To stop, drop its batch, and give up its session.
    Rotate,
    /// To switch to this model, and prompt anew in a fresh session.
    SwitchModel(String),
}

impl ControlSignal {
    /// Whether the signal gives up the session even where the turn has just ended.
    pub open spec fn ends_session(self) -> bool {
        self is Rotate || self is SwitchModel
    }
}

/// What a control signal still does where it comes just after its turn has ended.
pub fn apply_completed_before_control_signal(
    state: &mut SessionState,
    source: &PromptSource,
    control_signal: &ControlSignal,
)
    ensures
        control_signal.ends_session() ==> old(state).invalidated(*source, *final(state)),
        !control_signal.ends_session() ==> *final(state) == *old(state),
{
    match control_signal {
        ControlSignal::Rotate => state.invalidate(source),
        ControlSignal::SwitchModel(_) => state.invalidate(source),
        ControlSignal::Cancel => {},
        ControlSignal::Interrupt => {},
        ControlSignal::Steer => {},
    }
}

/// Whether an agent takes the system prompt apart from the user's messages. `meta_adapter` is
/// the name under which the adapter that reads it from the request's metadata introduces
/// itself.
pub open spec fn takes_system_prompt(
    protocol_version: u32,
    agent_name: Seq<char>,
    goose_system_prompt_supported: Option<bool>,
    meta_adapter: Seq<char>,
) -> bool {
    if agent_name == "goose"@ {
        goose_system_prompt_supported == Some(true)
    } else {
        agent_name == meta_adapter || protocol_version >= 2
    }
}

/// Whether an agent takes the system prompt apart from the user's messages.
pub fn has_system_prompt_support(
    protocol_version: u32,
    agent_name: &str,
    goose_system_prompt_supported: Option<bool>,
    meta_adapter: &str,
) -> (r: bool)
    ensures
        r == takes_system_prompt(
            protocol_version,
            agent_name@,
            goose_system_prompt_supported,
            meta_adapter@,
        ),
{
    if text::same(agent_name, "goose") {
        match goose_system_prompt_supported {
            Some(supported) => supported,
            None => false,
        }
    } else if text::same(agent_name, meta_adapter) {
        true
    } else {
        protocol_version >= 2
    }
}

/// How a new session is given its system prompt.
#[derive(Debug, Clone, Copy)]
pub enum SystemPromptTransport<'a> {
    /// In the request's own field.
    Field(&'a str),
    /// In the request's metadata.
    ClaudeMeta(&'a str),
}

/// How a new session is given its system prompt, if it is at all.
pub open spec fn prompt_transport(
    is_goose: bool,
    protocol_version: u32,
    agent_name: Seq<char>,
    prompt: Option<&str>,
    meta_adapter: Seq<char>,
) -> Option<SystemPromptTransport<'_>> {
    match prompt {
        None => None,
        Some(p) => if is_goose {
            None
        } else if agent_name == meta_adapter {
            Some(SystemPromptTransport::ClaudeMeta(p))
        } else if protocol_version >= 2 {
            Some(SystemPromptTransport::Field(p))
        } else {
            None
        },
    }
}

/// How a new session is given its system prompt, if it is at all.
pub fn session_new_system_prompt<'a>(
    is_goose: bool,
    protocol_version: u32,
    agent_name: &str,
    prompt: Option<&'a str>,
    meta_adapter: &str,
) -> (r: Option<SystemPromptTransport<'a>>)
    ensures
        r == prompt_transport(is_goose, protocol_version, agent_name@, prompt, meta_adapter@),
{
    let by_meta = text::same(agent_name, meta_adapter);
    if is_goose || (protocol_version < 2 && !by_meta) {
        return None;
    }
    match prompt {
        None => None,
        Some(p) => if by_meta {
            Some(SystemPromptTransport::ClaudeMeta(p))
        } else {
            Some(SystemPromptTransport::Field(p))
        },
    }
}

/// An agent other than Goose is given a system prompt with its new session exactly where it
/// takes one apart from the user's messages.
pub proof fn law_prompt_is_sent_where_it_is_taken(
    protocol_version: u32,
    agent_name: Seq<char>,
    goose_system_prompt_supported: Option<bool>,
    prompt: &str,
    meta_adapter: Seq<char>,
)
    requires
        agent_name != "goose"@,
    ensures
        prompt_transport(false, protocol_version, agent_name, Some(prompt), meta_adapter) is Some
            <==> takes_system_prompt(
            protocol_version,
            agent_name,
            goose_system_prompt_supported,
            meta_adapter,
        ),
{
}

/// What an agent said of its models when its first session began.
pub struct AgentModelCapabilities {
    /// The configuration options that choose a model.
    pub config_options_raw: Vec<Json>,
    /// The models that the session can switch between.
    pub available_models_raw: Option<Json>,
}

/// An agent, with the state of its sessions.
pub struct OwnedAgent {
    pub index: usize,
    pub state: SessionState,
    /// What the agent said of its models; `None` until its first session.
    pub model_capabilities: Option<AgentModelCapabilities>,
    /// The model that is applied to every new session.
    pub desired_model: Option<String>,
    /// Whether that model was set while the agent ran.
    pub model_overridden: bool,
    /// The name under which the agent introduced itself.
    pub agent_name: String,
    /// Whether Goose accepted its own system-prompt method, once that is known.
    pub goose_system_prompt_supported: Option<bool>,
    pub protocol_version: u32,
}

impl OwnedAgent {
    /// Whether the agent takes the system prompt apart from the user's messages.
    pub fn has_system_prompt_support(&self, meta_adapter: &str) -> (r: bool)
        ensures
            r == takes_system_prompt(
                self.protocol_version,
                self.agent_name@,
                self.goose_system_prompt_supported,
                meta_adapter@,
            ),
    {
        has_system_prompt_support(
            self.protocol_version,
            self.agent_name.as_str(),
            self.goose_system_prompt_supported,
            meta_adapter,
        )
    }
}

/// Something is kept of a channel exactly where one of its session, its directory, its turn
/// count, its core section or its canvas section is.
pub proof fn law_any_part_is_channel_state(state: SessionState, channel_id: u128)
    ensures
        !state.keeps(channel_id) <==> {
            &&& !state.sessions@.contains_key(channel_id)
            &&& !state.session_cwds@.contains_key(channel_id)
            &&& !state.turn_counts@.contains_key(channel_id)
            &&& !state.core_sections@.contains_key(channel_id)
            &&& !state.canvas_sections@.contains_key(channel_id)
        },
{
}

/// Giving up the session of a prompt source touches that source alone: a channel's takes all of
/// the channel and nothing of another one or of the heartbeat, with every value kept as it is;
/// the heartbeat's takes its session and its turns and nothing of any channel.
pub proof fn law_sources_are_given_up_apart(
    before: SessionState,
    after: SessionState,
    source: PromptSource,
    other: u128,
)
    requires
        before.invalidated(source, after),
        source != PromptSource::Channel(other),
    ensures
        before.sessions@.contains_key(other) == after.sessions@.contains_key(other),
        before.session_cwds@.contains_key(other) == after.session_cwds@.contains_key(other),
        before.turn_counts@.contains_key(other) == after.turn_counts@.contains_key(other),
        before.core_sections@.contains_key(other) == after.core_sections@.contains_key(other),
        before.canvas_sections@.contains_key(other) == after.canvas_sections@.contains_key(other),
        before.sessions@.contains_key(other) ==> after.sessions@[other] == before.sessions@[other],
        before.session_cwds@.contains_key(other) ==> after.session_cwds@[other]
            == before.session_cwds@[other],
        before.turn_counts@.contains_key(other) ==> after.turn_counts@[other]
            == before.turn_counts@[other],
        before.core_sections@.contains_key(other) ==> after.core_sections@[other]
            == before.core_sections@[other],
        before.canvas_sections@.contains_key(other) ==> after.canvas_sections@[other]
            == before.canvas_sections@[other],
        source matches PromptSource::Channel(own) ==> {
            &&& !after.keeps(own)
            &&& after.heartbeat_session == before.heartbeat_session
            &&& after.heartbeat_turn_count == before.heartbeat_turn_count
        },
        source is Heartbeat ==> after.heartbeat_session is None && after.heartbeat_turn_count == 0,
{
}

/// A channel's session is rotated exactly where there is one and its directory is unknown or
/// another; what else the state holds does not count.
pub proof fn law_sessions_rotate_with_their_directory(
    state: SessionState,
    channel_id: u128,
    desired_cwd: Seq<char>,
)
    ensures
        state.stale_cwd(channel_id, desired_cwd) <==> state.sessions@.contains_key(channel_id) && (
        !state.session_cwds@.contains_key(channel_id) || state.session_cwds@[channel_id]@
            != desired_cwd),
{
}

/// Of the signals that come just after their turn, only those that ask for a fresh session still
/// give the session up; the others leave everything as it is.
pub proof fn law_late_signals_end_sessions_on_request(signal: ControlSignal)
    ensures
        signal is Rotate || signal is SwitchModel ==> signal.ends_session(),
        signal is Cancel || signal is Interrupt || signal is Steer ==> !signal.ends_session(),
{
}

/// Goose takes a system prompt of its own exactly where it accepted the method; any other agent
/// exactly where it is the adapter that reads the metadata or speaks the second version of the
/// protocol or a later one. A new session is given its prompt, where there is one, in the
/// metadata to that adapter, whatever the version, and in the field to every other agent of the
/// second version or later; Goose is given none.
pub proof fn law_system_prompts_go_where_they_are_read(
    protocol_version: u32,
    agent_name: Seq<char>,
    goose_system_prompt_supported: Option<bool>,
    prompt: &str,
    meta_adapter: Seq<char>,
)
    ensures
        takes_system_prompt(
            protocol_version,
            "goose"@,
            goose_system_prompt_supported,
            meta_adapter,
        ) <==> goose_system_prompt_supported == Some(true),
        agent_name != "goose"@ ==> (takes_system_prompt(
            protocol_version,
            agent_name,
            goose_system_prompt_supported,
            meta_adapter,
        ) <==> agent_name == meta_adapter || protocol_version > 1),
        prompt_transport(true, protocol_version, agent_name, Some(prompt), meta_adapter) is None,
        prompt_transport(false, protocol_version, agent_name, None, meta_adapter) is None,
        agent_name == meta_adapter ==> prompt_transport(
            false,
            protocol_version,
            agent_name,
            Some(prompt),
            meta_adapter,
        ) == Some(SystemPromptTransport::ClaudeMeta(prompt)),
        agent_name != meta_adapter && protocol_version > 1 ==> prompt_transport(
            false,
            protocol_version,
            agent_name,
            Some(prompt),
            meta_adapter,
        ) == Some(SystemPromptTransport::Field(prompt)),
        agent_name != meta_adapter && protocol_version <= 1 ==> prompt_transport(
            false,
            protocol_version,
            agent_name,
            Some(prompt),
            meta_adapter,
        ) is None,
{
}

} // verus!
