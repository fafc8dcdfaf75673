use buzz_core::catalog::definition::HarnessDefinition;
use buzz_core::catalog::identity::Catalog;
use buzz_core::catalog::presets::preset_harnesses;
use buzz_core::catalog::runtime_metadata::{known_acp_runtimes, KnownAcpRuntime};
use buzz_core::env_map::EnvMap;
use buzz_core::readiness::descriptor::{
    EffectiveAgentEnv, EffectiveHarnessDescriptor, HarnessHost,
};
use buzz_core::readiness::records::{AgentDefinition, GlobalAgentConfig, ManagedAgentRecord};

fn env(pairs: &[(&str, &str)]) -> EnvMap {
    let mut env = EnvMap::new();
    for (key, value) in pairs {
        env.insert(key.to_string(), value.to_string());
    }
    env
}

fn catalog(customs: Vec<HarnessDefinition>) -> Catalog {
    Catalog {
        runtimes: known_acp_runtimes(),
        presets: preset_harnesses(),
        customs,
    }
}

fn record() -> ManagedAgentRecord {
    ManagedAgentRecord {
        pubkey: "a".repeat(64),
        relay_url: "wss://relay.example".to_string(),
        persona_id: Some("persona".to_string()),
        runtime: None,
        model: None,
        provider: None,
        launch_runtime_id: None,
        raw_command_explicit: false,
        agent_command_override: None,
        agent_args: Vec::new(),
        env_vars: EnvMap::new(),
    }
}

fn global() -> GlobalAgentConfig {
    GlobalAgentConfig {
        model: None,
        provider: None,
        env_vars: EnvMap::new(),
    }
}

/// Tells a runtime its id, and the model of the agent, of its persona or of all agents.
fn told(
    runtime: &KnownAcpRuntime,
    record: &ManagedAgentRecord,
    personas: &Vec<AgentDefinition>,
    global: &GlobalAgentConfig,
) -> Vec<(String, String)> {
    let persona = personas
        .iter()
        .find(|persona| Some(&persona.id) == record.persona_id.as_ref());
    let model = record
        .model
        .as_ref()
        .or(persona.and_then(|persona| persona.model.as_ref()))
        .or(global.model.as_ref());
    let mut pairs = vec![("RUNTIME".to_string(), runtime.id.to_string())];
    if let Some(model) = model {
        pairs.push(("MODEL".to_string(), model.clone()));
    }
    pairs
}

fn resolve_with(
    catalog: &Catalog,
    baked: &EnvMap,
    record: &ManagedAgentRecord,
    personas: &Vec<AgentDefinition>,
    global: &GlobalAgentConfig,
    recorded: Result<String, String>,
) -> Result<EffectiveHarnessDescriptor, String> {
    let host = HarnessHost {
        catalog,
        baked_env: baked,
        command_is_available: |_: &str| false,
        normalize_args: |_: &str, args: Vec<String>| args,
        metadata_env: told,
        is_reserved_env_key: |key: &str| key.starts_with("BUZZ_"),
        is_user_env_key: |key: &str| !key.starts_with("BUZZ_"),
    };
    host.resolve_effective_harness_descriptor(record, personas, global, recorded)
}

fn agent_env(
    catalog: &Catalog,
    record: &ManagedAgentRecord,
    recorded: Result<String, String>,
    display_command: &str,
) -> EffectiveAgentEnv {
    let baked = EnvMap::new();
    let host = HarnessHost {
        catalog,
        baked_env: &baked,
        command_is_available: |_: &str| false,
        normalize_args: |_: &str, args: Vec<String>| args,
        metadata_env: |_: &KnownAcpRuntime,
                       _: &ManagedAgentRecord,
                       _: &Vec<AgentDefinition>,
                       _: &GlobalAgentConfig| Vec::new(),
        is_reserved_env_key: |_: &str| false,
        is_user_env_key: |_: &str| true,
    };
    host.resolve_effective_agent_env(
        record,
        &Vec::new(),
        None,
        &global(),
        recorded,
        display_command,
    )
}

fn get<'a>(env: &'a EnvMap, key: &str) -> Option<&'a str> {
    env.get(key).map(String::as_str)
}

#[test]
fn legacy_unique_command_recovers_catalog_launch_defaults() {
    let mut record = record();
    record.agent_command_override = Some("/opt/tools/ompk".to_string());

    let descriptor = resolve_with(
        &catalog(Vec::new()),
        &EnvMap::new(),
        &record,
        &Vec::new(),
        &global(),
        Ok("/opt/tools/ompk".to_string()),
    )
    .expect("legacy command should recover its unique catalog identity");

    assert_eq!(descriptor.runtime_id.as_deref(), Some("ompk"));
    assert_eq!(descriptor.command, "ompk");
    assert_eq!(descriptor.args, ["acp"]);
}

#[test]
fn explicit_raw_command_never_selects_catalog_by_path() {
    let mut record = record();
    record.agent_command_override = Some("/opt/tools/ompk".to_string());
    record.raw_command_explicit = true;

    let descriptor = resolve_with(
        &catalog(Vec::new()),
        &EnvMap::new(),
        &record,
        &Vec::new(),
        &global(),
        Ok("/opt/tools/ompk".to_string()),
    )
    .expect("raw command should resolve without a catalog launch spec");

    assert_eq!(descriptor.runtime_id, None);
    assert_eq!(descriptor.command, "/opt/tools/ompk");
    assert!(descriptor.args.is_empty());
}

#[test]
fn a_chosen_harness_that_is_gone_is_an_error() {
    let mut record = record();
    record.launch_runtime_id = Some("gone".to_string());
    let error = resolve_with(
        &catalog(Vec::new()),
        &EnvMap::new(),
        &record,
        &Vec::new(),
        &global(),
        Ok("ompk".to_string()),
    )
    .unwrap_err();
    assert_eq!(error, "DANGLING_HARNESS_ID:gone");
}

#[test]
fn a_record_without_a_command_is_an_error() {
    let error = resolve_with(
        &catalog(Vec::new()),
        &EnvMap::new(),
        &record(),
        &Vec::new(),
        &global(),
        Err("no command".to_string()),
    )
    .unwrap_err();
    assert_eq!(error, "no command");
}

#[test]
fn the_personas_runtime_is_used_where_the_agent_asks_for_none() {
    let personas = vec![AgentDefinition {
        id: "persona".to_string(),
        runtime: Some("goose".to_string()),
        model: None,
        provider: None,
        env_vars: EnvMap::new(),
    }];
    let descriptor = resolve_with(
        &catalog(Vec::new()),
        &EnvMap::new(),
        &record(),
        &personas,
        &global(),
        Ok("ignored".to_string()),
    )
    .unwrap();
    assert_eq!(descriptor.runtime_id.as_deref(), Some("goose"));
    assert_eq!(descriptor.command, "goose");
}

#[test]
fn an_agents_own_arguments_stand_before_the_harness_ones() {
    let mut record = record();
    record.launch_runtime_id = Some("ompk".to_string());
    record.agent_args = vec!["  ".to_string()];
    let defaults = resolve_with(
        &catalog(Vec::new()),
        &EnvMap::new(),
        &record,
        &Vec::new(),
        &global(),
        Ok("ompk".to_string()),
    )
    .unwrap();
    assert_eq!(defaults.args, ["acp"]);

    record.agent_args = vec!["serve".to_string()];
    let own = resolve_with(
        &catalog(Vec::new()),
        &EnvMap::new(),
        &record,
        &Vec::new(),
        &global(),
        Ok("ompk".to_string()),
    )
    .unwrap();
    assert_eq!(own.args, ["serve"]);
}

#[test]
fn the_layers_of_the_environment_win_in_their_order() {
    let custom = HarnessDefinition {
        id: "custom".to_string(),
        label: "Custom".to_string(),
        command: "custom-command".to_string(),
        args: Vec::new(),
        env: env(&[("A", "definition"), ("B", "definition"), ("BUZZ_X", "no")]),
        install_instructions_url: String::new(),
        install_hint: String::new(),
    };
    let mut record = record();
    record.launch_runtime_id = Some("custom".to_string());
    record.env_vars = env(&[("D", "agent"), ("BUZZ_Y", "no")]);
    let personas = vec![AgentDefinition {
        id: "persona".to_string(),
        runtime: None,
        model: None,
        provider: None,
        env_vars: env(&[("C", "persona"), ("D", "persona")]),
    }];
    let global = GlobalAgentConfig {
        model: None,
        provider: None,
        env_vars: env(&[("B", "global"), ("C", "global")]),
    };
    let baked = env(&[("A", "baked"), ("Z", "baked")]);
    let descriptor = resolve_with(
        &catalog(vec![custom]),
        &baked,
        &record,
        &personas,
        &global,
        Ok("ignored".to_string()),
    )
    .unwrap();
    assert_eq!(get(&descriptor.env, "Z"), Some("baked"));
    assert_eq!(get(&descriptor.env, "A"), Some("definition"));
    assert_eq!(get(&descriptor.env, "B"), Some("global"));
    assert_eq!(get(&descriptor.env, "C"), Some("persona"));
    assert_eq!(get(&descriptor.env, "D"), Some("agent"));
    assert_eq!(get(&descriptor.env, "BUZZ_X"), None);
    assert_eq!(get(&descriptor.env, "BUZZ_Y"), None);
    assert_eq!(get(&descriptor.env, "RUNTIME"), None);
}

#[test]
fn a_known_runtime_is_told_its_model_and_provider() {
    let mut record = record();
    record.launch_runtime_id = Some("goose".to_string());
    let catalog = catalog(Vec::new());
    let descriptor = resolve_with(
        &catalog,
        &EnvMap::new(),
        &record,
        &Vec::new(),
        &global(),
        Ok("ignored".to_string()),
    )
    .unwrap();
    assert_eq!(get(&descriptor.env, "RUNTIME"), Some("goose"));
    assert_eq!(descriptor.known_runtime(&catalog).map(|r| r.id), Some("goose"));
    assert_eq!(get(&descriptor.env, "MODEL"), None);

    let global = GlobalAgentConfig {
        model: Some("of all".to_string()),
        provider: None,
        env_vars: EnvMap::new(),
    };
    let personas = vec![AgentDefinition {
        id: "persona".to_string(),
        runtime: None,
        model: Some("of the persona".to_string()),
        provider: None,
        env_vars: EnvMap::new(),
    }];
    let model = |record: &ManagedAgentRecord, personas: &Vec<AgentDefinition>| {
        let descriptor = resolve_with(
            &catalog,
            &EnvMap::new(),
            record,
            personas,
            &global,
            Ok("ignored".to_string()),
        )
        .unwrap();
        get(&descriptor.env, "MODEL").map(str::to_string)
    };
    assert_eq!(model(&record, &Vec::new()).as_deref(), Some("of all"));
    assert_eq!(model(&record, &personas).as_deref(), Some("of the persona"));
    record.model = Some("its own".to_string());
    assert_eq!(model(&record, &personas).as_deref(), Some("its own"));
}

#[test]
fn a_launch_that_cannot_be_worked_out_is_shown_by_its_command() {
    let mut record = record();
    record.launch_runtime_id = Some("gone".to_string());
    record.agent_args = vec!["x".to_string()];
    let shown = agent_env(&catalog(Vec::new()), &record, Ok("a".to_string()), "shown");
    assert_eq!(shown.effective_command, "shown");
    assert_eq!(shown.effective_args, ["x"]);
    assert_eq!(shown.runtime_id, None);

    record.launch_runtime_id = Some("ompk".to_string());
    let launched = agent_env(&catalog(Vec::new()), &record, Ok("a".to_string()), "shown");
    assert_eq!(launched.effective_command, "ompk");
    assert_eq!(launched.runtime_id.as_deref(), Some("ompk"));
}

#[test]
fn an_environment_lists_its_variables_in_order() {
    let mut vars = env(&[("B", "2"), ("A", "1"), ("AB", "3"), ("B", "4")]);
    assert_eq!(vars.len(), 3);
    assert_eq!(vars.key_at(0), "A");
    assert_eq!(vars.key_at(1), "AB");
    assert_eq!(vars.key_at(2), "B");
    assert_eq!(vars.value_at(2), "4");
    vars.insert_pairs(&vec![("A".to_string(), "5".to_string())]);
    assert_eq!(get(&vars, "A"), Some("5"));
}
