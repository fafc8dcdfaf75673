use buzz_core::catalog::identity::Catalog;
use buzz_core::catalog::presets::{
    preset_catalog_entry, preset_harnesses, AcpAvailabilityStatus, AcpRuntimeCatalogEntry,
    RuntimeReadinessStatus,
};
use buzz_core::catalog::runtime_metadata::{known_acp_runtimes, KnownAcpRuntime};
use buzz_core::env_map::EnvMap;
use buzz_core::json::Json;
use buzz_core::readiness::cache::{
    cache_agent_models_result, cached_runtime_readiness, canonical_command, readiness_cache_key,
    ReadinessCache, READINESS_CACHE_TTL_NANOS,
};
use buzz_core::readiness::descriptor::{EffectiveHarnessDescriptor, HarnessHost};
use buzz_core::readiness::digest::env_digest;
use buzz_core::readiness::models::normalize_agent_models;
use buzz_core::readiness::probe::{
    descriptor_cached_readiness, force_descriptor_readiness, join_args, next_probe_move,
    probe_env, read_probe_output, record_agent_models, status_of_answer, ProbeAnswer, ProbeMove,
    ProbeState,
};
use buzz_core::readiness::records::{AgentDefinition, GlobalAgentConfig, ManagedAgentRecord};
use sha2::Digest;

fn text(value: &str) -> Json {
    Json::Text(value.to_string())
}

fn object(members: Vec<(&str, Json)>) -> Json {
    Json::Object(
        members
            .into_iter()
            .map(|(name, value)| (name.to_string(), value))
            .collect(),
    )
}

fn option(id: &str, name: &str) -> Json {
    object(vec![("value", text(id)), ("displayName", text(name))])
}

fn listed(id: &str, name: &str, description: &str) -> Json {
    object(vec![
        ("modelId", text(id)),
        ("name", text(name)),
        ("description", text(description)),
    ])
}

fn answer(options: Vec<Json>) -> Json {
    object(vec![
        (
            "agent",
            object(vec![("name", text("Oh My PK")), ("version", text("test"))]),
        ),
        (
            "stable",
            object(vec![(
                "configOptions",
                Json::Array(vec![object(vec![
                    ("category", text("model")),
                    ("options", Json::Array(options)),
                ])]),
            )]),
        ),
    ])
}

/// What an agent with one model writes.
const ONE_MODEL: &str = r#"{
    "agent": {"name": "Oh My PK", "version": "test"},
    "unstable": {"availableModels": [{"modelId": "a", "name": "A", "description": "first"}]}
}"#;

fn not_found(_command: &str) -> Option<String> {
    None
}

fn env(pairs: &[(&str, &str)]) -> EnvMap {
    let mut env = EnvMap::new();
    for (key, value) in pairs {
        env.insert(key.to_string(), value.to_string());
    }
    env
}

fn catalog() -> Catalog {
    Catalog {
        runtimes: known_acp_runtimes(),
        presets: preset_harnesses(),
        customs: Vec::new(),
    }
}

fn launch(id: Option<&str>, command: &str) -> EffectiveHarnessDescriptor {
    EffectiveHarnessDescriptor {
        runtime_id: id.map(str::to_string),
        command: command.to_string(),
        args: vec!["acp".to_string()],
        env: EnvMap::new(),
    }
}

#[test]
fn model_catalog_classification_preserves_full_ids() {
    let raw = answer(vec![
        option("anthropic/sonnet-4", "Sonnet"),
        option("openai-codex/gpt-5.3", "Codex"),
    ]);
    let response = normalize_agent_models(&raw, None);
    assert_eq!(
        response
            .models
            .iter()
            .map(|model| model.id.as_str())
            .collect::<Vec<_>>(),
        vec!["anthropic/sonnet-4", "openai-codex/gpt-5.3"]
    );
    assert!(response.supports_switching);
}

#[test]
fn cache_key_digests_environment_without_retaining_secret() {
    let args = vec!["acp".to_string()];
    let first = env(&[("ANTHROPIC_API_KEY", "secret-one")]);
    let second = env(&[("ANTHROPIC_API_KEY", "secret-two")]);
    let first_key = readiness_cache_key("ompk", &args, &first, &not_found);
    let second_key = readiness_cache_key("ompk", &args, &second, &not_found);
    assert_ne!(first_key, second_key);
    let debug = format!("{first_key:?}");
    assert!(!debug.contains("secret-one"));
    assert!(!debug.contains("ANTHROPIC_API_KEY"));
}

#[test]
fn cache_only_read_never_executes_a_probe() {
    let mut cache = ReadinessCache::new();
    cache.invalidate_runtime_readiness();
    let args = vec!["acp".to_string()];
    let env = EnvMap::new();
    assert_eq!(
        cached_runtime_readiness(
            &mut cache,
            "definitely-missing-ompk",
            &args,
            &env,
            &not_found,
            0
        ),
        RuntimeReadinessStatus::Unknown
    );
}

#[test]
fn the_digest_is_that_of_the_framed_entries() {
    let mut framed: Vec<u8> = Vec::new();
    for part in ["A", "1", "B", "zwei"] {
        framed.extend((part.len() as u64).to_le_bytes());
        framed.extend(part.as_bytes());
    }
    let expected: [u8; 32] = sha2::Sha256::digest(&framed).into();
    assert_eq!(env_digest(&env(&[("B", "zwei"), ("A", "1")])), expected);
    let nothing: [u8; 32] = sha2::Sha256::digest([]).into();
    assert_eq!(env_digest(&EnvMap::new()), nothing);
    assert_ne!(env_digest(&env(&[("A", "1B")])), env_digest(&env(&[("A1", "B")])));
}

#[test]
fn commands_are_known_by_the_path_that_they_are_found_at() {
    assert_eq!(canonical_command("ompk", &not_found), "ompk");
    assert_eq!(
        canonical_command("ompk", &|c: &str| Some(format!("/usr/bin/{c}"))),
        "/usr/bin/ompk"
    );
}

#[test]
fn findings_count_for_thirty_seconds() {
    let mut cache = ReadinessCache::new();
    let args = vec!["acp".to_string()];
    let vars = env(&[("A", "1")]);
    let key = readiness_cache_key("ompk", &args, &vars, &not_found);
    let other = readiness_cache_key("ompk", &args, &EnvMap::new(), &not_found);
    let put_at = 1_000;
    cache.put_cached(key, RuntimeReadinessStatus::Ready, put_at);
    let key = readiness_cache_key("ompk", &args, &vars, &not_found);
    assert_eq!(
        cache.lookup(&key, put_at + READINESS_CACHE_TTL_NANOS),
        RuntimeReadinessStatus::Ready
    );
    assert_eq!(cache.lookup(&key, 0), RuntimeReadinessStatus::Ready);
    assert_eq!(cache.lookup(&other, put_at), RuntimeReadinessStatus::Unknown);
    assert_eq!(
        cache.lookup(&key, put_at + READINESS_CACHE_TTL_NANOS + 1),
        RuntimeReadinessStatus::Unknown
    );
    assert_eq!(cache.lookup(&key, put_at), RuntimeReadinessStatus::Unknown);
}

#[test]
fn a_later_finding_replaces_an_earlier_one() {
    let mut cache = ReadinessCache::new();
    let args = Vec::new();
    let vars = EnvMap::new();
    let key = || readiness_cache_key("ompk", &args, &vars, &not_found);
    cache.put_cached(key(), RuntimeReadinessStatus::Ready, 1);
    cache.put_cached(key(), RuntimeReadinessStatus::ModelUnavailable, 2);
    assert_eq!(
        cache.lookup(&key(), 3),
        RuntimeReadinessStatus::ModelUnavailable
    );
    cache.invalidate_runtime_readiness();
    assert_eq!(cache.lookup(&key(), 3), RuntimeReadinessStatus::Unknown);
}

#[test]
fn of_models_with_one_id_the_first_counts() {
    let mut raw = answer(vec![option("a", "First"), option("a", "Second")]);
    if let Json::Object(members) = &mut raw {
        members.push((
            "unstable".to_string(),
            object(vec![
                ("currentModelId", text("b")),
                (
                    "availableModels",
                    Json::Array(vec![
                        listed("a", "Third", "again"),
                        listed("b", "Other", "new"),
                        object(vec![("name", text("without an id"))]),
                        Json::Null,
                    ]),
                ),
            ]),
        ));
    }
    let response = normalize_agent_models(&raw, Some("chosen".to_string()));
    assert_eq!(response.agent_name, "Oh My PK");
    assert_eq!(response.agent_version, "test");
    assert_eq!(response.models.len(), 2);
    assert_eq!(response.models[0].id, "a");
    assert_eq!(response.models[0].name.as_deref(), Some("First"));
    assert_eq!(response.models[0].description, None);
    assert_eq!(response.models[1].id, "b");
    assert_eq!(response.models[1].description.as_deref(), Some("new"));
    assert_eq!(response.agent_default_model.as_deref(), Some("b"));
    assert_eq!(response.selected_model.as_deref(), Some("chosen"));
}

#[test]
fn an_answer_without_models_is_read_all_the_same() {
    for raw in [
        Json::Null,
        Json::Bool(true),
        Json::Number("1".to_string()),
        object(vec![("unstable", Json::Null)]),
        object(vec![(
            "stable",
            object(vec![(
                "configOptions",
                Json::Array(vec![object(vec![
                    ("category", text("mode")),
                    ("options", Json::Array(vec![option("a", "A")])),
                ])]),
            )]),
        )]),
    ] {
        let response = normalize_agent_models(&raw, None);
        assert_eq!(response.agent_name, "unknown");
        assert_eq!(response.agent_version, "unknown");
        assert!(response.models.is_empty());
        assert!(!response.supports_switching);
        assert_eq!(response.agent_default_model, None);
    }
}

#[test]
fn only_model_catalogs_are_looked_up() {
    let catalog = catalog();
    let mut cache = ReadinessCache::new();
    for (d, expected) in [
        (launch(None, "no-such-harness"), RuntimeReadinessStatus::Ready),
        (launch(Some("goose"), "goose"), RuntimeReadinessStatus::Ready),
        (launch(Some("codex"), "codex-acp"), RuntimeReadinessStatus::Unknown),
        (launch(Some("ompk"), "ompk"), RuntimeReadinessStatus::Unknown),
    ] {
        assert_eq!(
            descriptor_cached_readiness(&mut cache, &catalog, &d, &not_found, 0),
            expected
        );
    }
}

#[test]
fn a_forced_look_probes_model_catalogs_and_keeps_the_finding() {
    let catalog = catalog();
    let mut cache = ReadinessCache::new();
    let ompk = launch(Some("ompk"), "ompk");
    for (succeeded, stdout, expected) in [
        (true, ONE_MODEL, RuntimeReadinessStatus::Ready),
        (true, "null", RuntimeReadinessStatus::ModelUnavailable),
        (true, "not JSON", RuntimeReadinessStatus::Unknown),
        (false, ONE_MODEL, RuntimeReadinessStatus::Unknown),
    ] {
        let probe = |_: &EffectiveHarnessDescriptor| ProbeAnswer {
            succeeded,
            stdout: stdout.as_bytes().to_vec(),
            finished_at: 50,
        };
        assert_eq!(
            force_descriptor_readiness(&mut cache, &catalog, &ompk, &not_found, &probe),
            expected
        );
        assert_eq!(
            descriptor_cached_readiness(&mut cache, &catalog, &ompk, &not_found, 51),
            expected
        );
    }
    let never = |_: &EffectiveHarnessDescriptor| -> ProbeAnswer { panic!("probed") };
    assert_eq!(
        force_descriptor_readiness(
            &mut cache,
            &catalog,
            &launch(Some("goose"), "goose"),
            &not_found,
            &never
        ),
        RuntimeReadinessStatus::Ready
    );
}

fn entry(id: &str, availability: AcpAvailabilityStatus) -> AcpRuntimeCatalogEntry {
    let preset = preset_harnesses().remove(0);
    let mut entry = preset_catalog_entry(
        &preset,
        &|_: &str| None,
        &|_: &str, args: Vec<String>| args,
    );
    entry.id = id.to_string();
    entry.availability = availability;
    entry.runtime_readiness = RuntimeReadinessStatus::AuthenticationRequired;
    entry
}

#[test]
fn refreshing_probes_available_model_catalogs_only() {
    let catalog = catalog();
    let baked = env(&[("BAKED", "1")]);
    let host = HarnessHost {
        catalog: &catalog,
        baked_env: &baked,
        command_is_available: |_: &str| false,
        normalize_args: |_: &str, args: Vec<String>| args,
        metadata_env: |_: &KnownAcpRuntime,
                       _: &ManagedAgentRecord,
                       _: &Vec<AgentDefinition>,
                       _: &GlobalAgentConfig| Vec::new(),
        is_reserved_env_key: |_: &str| false,
        is_user_env_key: |key: &str| key != "HIDDEN",
    };
    let mut cache = ReadinessCache::new();
    let mut entries = vec![
        entry("ompk", AcpAvailabilityStatus::Available),
        entry("ompk", AcpAvailabilityStatus::NotInstalled),
        entry("goose", AcpAvailabilityStatus::Available),
        entry("nobody", AcpAvailabilityStatus::Available),
    ];
    let global = GlobalAgentConfig {
        model: None,
        provider: None,
        env_vars: env(&[("SHARED", "2"), ("HIDDEN", "3")]),
    };
    let probes = std::cell::Cell::new(0);
    let probe = |d: &EffectiveHarnessDescriptor| {
        probes.set(probes.get() + 1);
        assert_eq!(d.runtime_id.as_deref(), Some("ompk"));
        assert_eq!(d.command, "ompk");
        assert_eq!(d.args, ["acp"]);
        assert_eq!(d.env.len(), 2);
        assert_eq!(d.env.get("BAKED").map(String::as_str), Some("1"));
        assert_eq!(d.env.get("SHARED").map(String::as_str), Some("2"));
        ProbeAnswer {
            succeeded: true,
            stdout: ONE_MODEL.as_bytes().to_vec(),
            finished_at: 7,
        }
    };
    host.refresh_catalog_runtime_readiness(
        &mut cache,
        &mut entries,
        &global,
        &not_found,
        &probe,
    );
    assert_eq!(probes.get(), 1);
    assert_eq!(entries[0].runtime_readiness, RuntimeReadinessStatus::Ready);
    for other in &entries[1..] {
        assert_eq!(
            other.runtime_readiness,
            RuntimeReadinessStatus::AuthenticationRequired
        );
    }
    let vars = env(&[("BAKED", "1"), ("SHARED", "2")]);
    let args = vec!["acp".to_string()];
    assert_eq!(
        cached_runtime_readiness(&mut cache, "ompk", &args, &vars, &not_found, 8),
        RuntimeReadinessStatus::Ready
    );
}

#[test]
fn models_that_a_user_asks_for_are_kept_as_a_finding() {
    let mut cache = ReadinessCache::new();
    let args = vec!["acp".to_string()];
    let vars = EnvMap::new();
    let response = record_agent_models(
        &mut cache,
        "ompk",
        &args,
        &vars,
        &answer(vec![option("a", "A")]),
        None,
        &not_found,
        5,
    );
    assert_eq!(response.models.len(), 1);
    assert_eq!(
        cached_runtime_readiness(&mut cache, "ompk", &args, &vars, &not_found, 6),
        RuntimeReadinessStatus::Ready
    );
    let empty = normalize_agent_models(&Json::Null, None);
    cache_agent_models_result(&mut cache, "ompk", &args, &vars, &empty, &not_found, 7);
    assert_eq!(
        cached_runtime_readiness(&mut cache, "ompk", &args, &vars, &not_found, 8),
        RuntimeReadinessStatus::ModelUnavailable
    );
}

#[test]
fn a_probe_is_told_its_launch_and_nothing_reserved() {
    let reserved = |key: &str| key.starts_with("BUZZ_");
    let vars = probe_env(
        "/usr/bin/ompk",
        &vec!["acp".to_string(), "--fast".to_string()],
        &env(&[
            ("BUZZ_ACP_AGENT_COMMAND", "other"),
            ("BUZZ_SECRET", "s"),
            ("TOKEN", "t"),
        ]),
        &reserved,
    );
    let value = |key: &str| vars.get(key).map(String::as_str);
    assert_eq!(value("BUZZ_ACP_AGENT_COMMAND"), Some("/usr/bin/ompk"));
    assert_eq!(value("BUZZ_ACP_AGENT_ARGS"), Some("acp,--fast"));
    assert_eq!(value("BUZZ_SECRET"), None);
    assert_eq!(value("TOKEN"), Some("t"));
    assert_eq!(vars.len(), 3);
}

#[test]
fn the_output_of_a_probe_is_read_where_it_ended_well() {
    let read = read_probe_output(true, ONE_MODEL.as_bytes()).unwrap();
    let response = normalize_agent_models(&read, None);
    assert_eq!(response.agent_name, "Oh My PK");
    assert_eq!(response.agent_version, "test");
    assert_eq!(response.models.len(), 1);
    assert_eq!(response.models[0].id, "a");
    assert_eq!(response.models[0].name.as_deref(), Some("A"));
    assert_eq!(response.models[0].description.as_deref(), Some("first"));
    assert!(matches!(
        read_probe_output(true, b"[1, true, \"x\"]"),
        Some(Json::Array(items)) if matches!(
            items.as_slice(),
            [Json::Number(one), Json::Bool(true), Json::Text(x)] if one == "1" && x == "x"
        )
    ));
    assert!(read_probe_output(false, ONE_MODEL.as_bytes()).is_none());
    assert!(read_probe_output(true, b"{").is_none());
    assert!(read_probe_output(true, b"").is_none());
}

#[test]
fn an_answer_settles_the_readiness() {
    assert_eq!(status_of_answer(&None), RuntimeReadinessStatus::Unknown);
    assert_eq!(
        status_of_answer(&Some(Json::Null)),
        RuntimeReadinessStatus::ModelUnavailable
    );
    assert_eq!(
        status_of_answer(&Some(answer(vec![option("a", "A")]))),
        RuntimeReadinessStatus::Ready
    );
}

#[test]
fn arguments_are_joined_by_commas() {
    let args = |list: &[&str]| list.iter().map(|a| a.to_string()).collect::<Vec<_>>();
    assert_eq!(join_args(&args(&[])), "");
    assert_eq!(join_args(&args(&["a"])), "a");
    assert_eq!(join_args(&args(&["a", "", "b c"])), "a,,b c");
}

#[test]
fn a_probe_is_waited_for_until_its_deadline() {
    assert_eq!(
        next_probe_move(ProbeState::Running, 9, 10),
        ProbeMove::Wait
    );
    assert_eq!(
        next_probe_move(ProbeState::Running, 10, 10),
        ProbeMove::TimeOut
    );
    assert_eq!(
        next_probe_move(ProbeState::Exited, 11, 10),
        ProbeMove::Collect
    );
    assert_eq!(next_probe_move(ProbeState::Lost, 9, 10), ProbeMove::Fail);
}

#[test]
fn absorbed_findings_stand_over_the_earlier_ones() {
    let args = Vec::new();
    let vars = EnvMap::new();
    let key = |command: &str| readiness_cache_key(command, &args, &vars, &not_found);
    let mut cache = ReadinessCache::new();
    cache.put_cached(key("a"), RuntimeReadinessStatus::Ready, 1);
    cache.put_cached(key("b"), RuntimeReadinessStatus::Ready, 1);
    let mut found = ReadinessCache::new();
    found.put_cached(key("b"), RuntimeReadinessStatus::ModelUnavailable, 2);
    found.put_cached(key("c"), RuntimeReadinessStatus::Ready, 2);
    cache.absorb(&found);
    assert_eq!(cache.lookup(&key("a"), 3), RuntimeReadinessStatus::Ready);
    assert_eq!(
        cache.lookup(&key("b"), 3),
        RuntimeReadinessStatus::ModelUnavailable
    );
    assert_eq!(cache.lookup(&key("c"), 3), RuntimeReadinessStatus::Ready);
}
