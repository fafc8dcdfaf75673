use buzz_core::pair_key::{effective_agent_relay_url, resolve_workspace_pair_key};
use buzz_core::pool::{
    apply_completed_before_control_signal, has_system_prompt_support, session_new_system_prompt,
    ControlSignal, PromptSource, SessionState, SystemPromptTransport,
};

const META_ADAPTER: &str = "@adapters/meta";

fn busy_state() -> SessionState {
    let mut state = SessionState::new();
    for channel in [1u128, 2] {
        state.sessions.insert(channel, format!("session-{channel}"));
        state.session_cwds.insert(channel, "/work".to_string());
        state.turn_counts.insert(channel, 3);
        state.core_sections.insert(channel, "core".to_string());
        state.canvas_sections.insert(channel, "canvas".to_string());
    }
    state.heartbeat_session = Some("beat".to_string());
    state.heartbeat_turn_count = 4;
    state
}

#[test]
fn invalidating_a_channel_clears_it_and_nothing_else() {
    let mut state = busy_state();
    state.invalidate(&PromptSource::Channel(1));
    assert!(!state.has_channel_state(&1));
    assert!(state.has_channel_state(&2));
    assert_eq!(state.heartbeat_session.as_deref(), Some("beat"));
    assert_eq!(state.heartbeat_turn_count, 4);
}

#[test]
fn invalidating_the_heartbeat_keeps_the_channels() {
    let mut state = busy_state();
    state.invalidate(&PromptSource::Heartbeat);
    assert_eq!(state.heartbeat_session, None);
    assert_eq!(state.heartbeat_turn_count, 0);
    assert!(state.has_channel_state(&1));
}

#[test]
fn invalidating_all_leaves_nothing() {
    let mut state = busy_state();
    state.invalidate_all();
    assert!(!state.has_channel_state(&1));
    assert!(!state.has_channel_state(&2));
    assert_eq!(state.heartbeat_session, None);
    assert_eq!(state.heartbeat_turn_count, 0);
}

#[test]
fn a_session_is_kept_only_in_its_own_directory() {
    let mut state = busy_state();
    assert!(!state.rotate_if_cwd_changed(&1, "/work"));
    assert!(state.has_channel_state(&1));
    assert!(state.rotate_if_cwd_changed(&1, "/other"));
    assert!(!state.has_channel_state(&1));
    assert!(state.has_channel_state(&2));
    assert!(!state.rotate_if_cwd_changed(&3, "/other"));
}

#[test]
fn late_signals_end_the_session_where_they_have_to() {
    for (signal, ends) in [
        (ControlSignal::Cancel, false),
        (ControlSignal::Interrupt, false),
        (ControlSignal::Steer, false),
        (ControlSignal::Rotate, true),
        (ControlSignal::SwitchModel("m".to_string()), true),
    ] {
        let mut state = busy_state();
        apply_completed_before_control_signal(&mut state, &PromptSource::Channel(1), &signal);
        assert_eq!(state.has_channel_state(&1), !ends);
        assert!(state.has_channel_state(&2));
    }
}

#[test]
fn system_prompts_are_sent_where_they_are_taken() {
    assert!(!has_system_prompt_support(2, "goose", None, META_ADAPTER));
    assert!(!has_system_prompt_support(2, "goose", Some(false), META_ADAPTER));
    assert!(has_system_prompt_support(1, "goose", Some(true), META_ADAPTER));
    assert!(has_system_prompt_support(1, META_ADAPTER, None, META_ADAPTER));
    assert!(has_system_prompt_support(2, "other", None, META_ADAPTER));
    assert!(!has_system_prompt_support(1, "other", None, META_ADAPTER));

    assert!(matches!(
        session_new_system_prompt(false, 1, META_ADAPTER, Some("p"), META_ADAPTER),
        Some(SystemPromptTransport::ClaudeMeta("p"))
    ));
    assert!(matches!(
        session_new_system_prompt(false, 2, "other", Some("p"), META_ADAPTER),
        Some(SystemPromptTransport::Field("p"))
    ));
    assert!(session_new_system_prompt(false, 1, "other", Some("p"), META_ADAPTER).is_none());
    assert!(session_new_system_prompt(true, 2, "goose", Some("p"), META_ADAPTER).is_none());
    assert!(session_new_system_prompt(false, 2, "other", None, META_ADAPTER).is_none());
}

#[test]
fn the_workspace_relay_makes_the_pair_key() {
    assert_eq!(
        effective_agent_relay_url("wss://pinned.example", "wss://workspace.example"),
        "wss://workspace.example"
    );
    let make = |pubkey: String, relay: &str| -> Result<String, ()> {
        if relay.is_empty() {
            Err(())
        } else {
            Ok(format!("{pubkey}@{relay}"))
        }
    };
    assert_eq!(
        resolve_workspace_pair_key(
            "agent",
            "wss://pinned.example",
            "wss://workspace.example",
            &make
        )
        .as_deref(),
        Some("agent@wss://workspace.example")
    );
    assert_eq!(
        resolve_workspace_pair_key("agent", "", "wss://workspace.example", &make),
        resolve_workspace_pair_key("agent", "wss://other", "wss://workspace.example", &make)
    );
    assert_eq!(
        resolve_workspace_pair_key("agent", "wss://pinned.example", "", &make),
        None
    );
}
