use buzz_core::catalog::presets::{
    preset_catalog_entry, preset_harnesses, AcpAvailabilityStatus, AcpRuntimeCatalogEntry,
    PresetHarness, RuntimeReadinessStatus,
};

/// Amp-shaped preset: an ACP adapter (`amp-acp`) wrapping a separately
/// installed vendor CLI (`amp`).
const ADAPTER_PRESET: PresetHarness = PresetHarness {
    id: "amp-test",
    label: "Amp Test",
    command: "amp-acp",
    args: &[],
    install_instructions_url: "https://example.com/install",
    install_hint: "Install the amp-acp npm adapter.",
    underlying_cli: Some("amp"),
    login_hint: Some("Run `amp-test login`."),
};

fn entry_of(preset: &PresetHarness, present: &[&str]) -> AcpRuntimeCatalogEntry {
    preset_catalog_entry(
        preset,
        &|command: &str| {
            present
                .contains(&command)
                .then_some(format!("/usr/local/bin/{command}"))
        },
        &|_: &str, args: Vec<String>| args,
    )
}

#[test]
fn preset_entry_adapter_missing_when_underlying_cli_present() {
    let entry = entry_of(&ADAPTER_PRESET, &["amp"]);
    assert_eq!(entry.availability, AcpAvailabilityStatus::AdapterMissing);
    assert!(entry.command.is_none());
    assert!(entry.binary_path.is_none());
    assert_eq!(
        entry.underlying_cli_path.as_deref(),
        Some("/usr/local/bin/amp")
    );
    assert!(!entry.requires_external_cli);
    assert_eq!(entry.install_hint, "Install the amp-acp npm adapter.");
}

#[test]
fn preset_entry_not_installed_when_both_missing() {
    let entry = entry_of(&ADAPTER_PRESET, &[]);
    assert_eq!(entry.availability, AcpAvailabilityStatus::NotInstalled);
    assert!(entry.underlying_cli_path.is_none());
    assert!(!entry.requires_external_cli);
}

#[test]
fn preset_entry_available_when_adapter_and_cli_present() {
    let entry = entry_of(&ADAPTER_PRESET, &["amp-acp", "amp"]);
    assert_eq!(entry.availability, AcpAvailabilityStatus::Available);
    assert_eq!(entry.command.as_deref(), Some("amp-acp"));
    assert_eq!(entry.binary_path.as_deref(), Some("/usr/local/bin/amp-acp"));
    assert_eq!(
        entry.underlying_cli_path.as_deref(),
        Some("/usr/local/bin/amp")
    );
}

#[test]
fn preset_entry_stays_available_when_adapter_present_but_cli_absent() {
    let entry = entry_of(&ADAPTER_PRESET, &["amp-acp"]);
    assert_eq!(entry.availability, AcpAvailabilityStatus::Available);
    assert_eq!(entry.command.as_deref(), Some("amp-acp"));
    assert_eq!(entry.binary_path.as_deref(), Some("/usr/local/bin/amp-acp"));
    assert!(entry.underlying_cli_path.is_none());
}

#[test]
fn preset_entry_without_underlying_cli_stays_simple() {
    let preset = PresetHarness {
        underlying_cli: None,
        ..ADAPTER_PRESET
    };
    let entry = entry_of(&preset, &[]);
    assert_eq!(entry.availability, AcpAvailabilityStatus::NotInstalled);
    assert!(!entry.requires_external_cli);
    assert!(entry.underlying_cli_path.is_none());
}

#[test]
fn preset_entry_carries_login_hint_only_once_the_command_resolves() {
    let installed = entry_of(&ADAPTER_PRESET, &["amp-acp", "amp"]);
    assert_eq!(
        installed.login_hint.as_deref(),
        Some("Run `amp-test login`.")
    );

    let absent = entry_of(&ADAPTER_PRESET, &[]);
    assert_eq!(absent.availability, AcpAvailabilityStatus::NotInstalled);
    assert!(absent.login_hint.is_none());
}

#[test]
fn preset_entry_without_login_hint_stays_silent() {
    let preset = PresetHarness {
        login_hint: None,
        ..ADAPTER_PRESET
    };
    let entry = entry_of(&preset, &["amp-acp"]);
    assert_eq!(entry.availability, AcpAvailabilityStatus::Available);
    assert!(entry.login_hint.is_none());
}

#[test]
fn ompk_preset_probes_the_fork_specific_binary_and_documents_sign_in() {
    let presets = preset_harnesses();
    let preset = presets
        .iter()
        .find(|p| p.id == "ompk")
        .expect("ompk preset present");
    assert_eq!(preset.command, "ompk");
    assert_eq!(preset.args, &["acp"]);

    let hint = preset.login_hint.expect("ompk documents its sign-in path");
    for provider in ["anthropic", "cursor", "openai-codex"] {
        assert!(
            hint.contains(provider),
            "sign-in hint must name the {provider} provider id"
        );
    }

    let upstream_omp = presets
        .iter()
        .find(|p| p.id == "omp")
        .expect("upstream omp preset remains available alongside ompk");
    assert_eq!(upstream_omp.command, "omp");
    assert_eq!(upstream_omp.args, &["acp"]);
}

#[test]
fn preset_arguments_are_normalized_for_the_command() {
    let preset = PresetHarness {
        args: &["acp"],
        ..ADAPTER_PRESET
    };
    let entry = preset_catalog_entry(
        &preset,
        &|_: &str| None,
        &|command: &str, mut args: Vec<String>| {
            args.push(command.to_string());
            args
        },
    );
    assert_eq!(entry.default_args, vec!["acp", "amp-acp"]);
    assert_eq!(entry.runtime_readiness, RuntimeReadinessStatus::Unknown);
}

#[test]
fn runtime_readiness_wire_values_are_frozen() {
    for (status, wire) in [
        (RuntimeReadinessStatus::Ready, "\"ready\""),
        (
            RuntimeReadinessStatus::AuthenticationRequired,
            "\"authentication_required\"",
        ),
        (
            RuntimeReadinessStatus::ModelUnavailable,
            "\"model_unavailable\"",
        ),
        (RuntimeReadinessStatus::Unknown, "\"unknown\""),
    ] {
        assert_eq!(serde_json::to_string(status.as_str()).unwrap(), wire);
    }
}
