use buzz_core::catalog::identity::Catalog;
use buzz_core::catalog::presets::preset_harnesses;
use buzz_core::catalog::runtime_metadata::{
    known_acp_runtimes, known_acp_runtimes_with, HarnessSource, KnownAcpRuntime,
    RuntimeAuthentication, RuntimeReadinessPolicy, VendorWords,
};

fn catalog() -> Catalog {
    Catalog {
        runtimes: known_acp_runtimes(),
        presets: preset_harnesses(),
        customs: Vec::new(),
    }
}

fn known<'a>(catalog: &'a Catalog, id: &str) -> &'a KnownAcpRuntime {
    catalog.known_acp_runtime_exact(id).unwrap()
}

#[test]
fn vendor_metadata_distinguishes_cli_and_adapter_guidance() {
    let catalog = catalog();
    let goose = known(&catalog, "goose");
    assert_eq!(
        goose.cli_install_instructions_url,
        "https://goose-docs.ai/docs/getting-started/installation/"
    );
    assert!(goose.adapter_install_instructions_url.is_empty());
    assert!(goose.cli_install_hint.contains("Goose CLI"));
    assert!(goose
        .cli_install_commands_windows
        .iter()
        .any(|command| command.contains("raw.githubusercontent.com/aaif-goose/goose/main")));
    assert!(goose
        .cli_install_commands_windows
        .iter()
        .any(|command| command.contains("$env:CONFIGURE='false'")));

    let codex = known(&catalog, "codex");
    assert_eq!(
        codex.cli_install_instructions_url,
        "https://developers.openai.com/codex/cli/"
    );
    assert!(codex.adapter_install_instructions_url.contains("codex-acp"));
    assert!(codex.cli_install_hint.contains("Codex CLI"));
}

#[test]
fn frozen_authentication_and_readiness_policies_are_truthful() {
    let catalog = catalog();
    for id in ["goose", "buzz-agent"] {
        let runtime = known(&catalog, id);
        assert_eq!(runtime.authentication, RuntimeAuthentication::NotApplicable);
        assert_eq!(
            runtime.readiness_policy,
            RuntimeReadinessPolicy::AvailabilityOnly
        );
    }

    let codex = known(&catalog, "codex");
    assert_eq!(
        codex.authentication,
        RuntimeAuthentication::CliProbe {
            args: &["codex", "login", "status"],
            login_hint: "Run `codex login` to authenticate.",
        }
    );
    assert_eq!(
        codex.readiness_policy,
        RuntimeReadinessPolicy::Authentication
    );
}

#[test]
fn ompk_rich_metadata_contains_only_verified_capabilities() {
    let catalog = catalog();
    let ompk = catalog
        .known_acp_runtime_exact("ompk")
        .expect("OMPK must be rich metadata");
    assert_eq!(ompk.id, "ompk");
    assert_eq!(ompk.commands, &["ompk"]);
    assert!(ompk.aliases.is_empty());
    assert_eq!(ompk.source, HarnessSource::Preset);
    assert_eq!(ompk.default_args, &["acp"]);
    assert!(matches!(
        ompk.authentication,
        RuntimeAuthentication::AcpMethods { .. }
    ));
    assert_eq!(
        ompk.readiness_policy,
        RuntimeReadinessPolicy::AcpModelCatalog
    );
    assert!(ompk.supports_acp_model_switching);
    assert!(ompk.model_env_var.is_none());
    assert!(ompk.provider_env_var.is_none());
    assert!(ompk.thinking_env_var.is_none());
    assert!(ompk.max_tokens_env_var.is_none());
    assert!(ompk.context_limit_env_var.is_none());
    assert!(ompk.max_rounds_env_var.is_none());
    assert!(ompk.config_file_path.is_none());
    assert!(ompk.config_file_format.is_none());
    assert!(!ompk.supports_acp_native_config);
    assert!(ompk.mcp_command.is_none());
    assert!(!ompk.mcp_hooks);
    assert!(ompk.default_env.is_empty());
    assert!(ompk.underlying_cli.is_none());
    assert!(ompk.cli_install_commands.is_empty());
    assert!(ompk.cli_install_commands_windows.is_empty());
    assert!(ompk.adapter_install_commands.is_empty());
    assert!(ompk.required_normalized_fields.is_empty());
}

#[test]
fn a_host_adds_the_runtimes_of_further_vendors() {
    let acme = VendorWords {
        id: "acme",
        label: "Acme",
        commands: &["acme-agent-acp", "acme-code-acp"],
        cli: "acme",
        cli_install_instructions_url: "https://acme.example/docs/getting-started",
        adapter_install_instructions_url: "https://example.com/acme-agent-acp",
        cli_install_hint: "Install the Acme CLI.",
        adapter_install_hint: "Install the acme-agent-acp adapter.",
        probe_args: &["acme", "auth", "status"],
        login_hint: "Run the Acme CLI to complete authentication.",
    };
    let runtimes = known_acp_runtimes_with(&vec![acme]);
    let ids: Vec<&str> = runtimes.iter().map(|runtime| runtime.id).collect();
    assert_eq!(ids, vec!["goose", "buzz-agent", "codex", "ompk", "acme"]);
    let catalog = Catalog {
        runtimes,
        presets: preset_harnesses(),
        customs: Vec::new(),
    };
    let acme = known(&catalog, "acme");
    assert_eq!(acme.label, "Acme");
    assert_eq!(acme.underlying_cli, Some("acme"));
    assert_eq!(acme.source, HarnessSource::Builtin);
    assert_eq!(
        acme.cli_install_instructions_url,
        "https://acme.example/docs/getting-started"
    );
    assert!(acme
        .adapter_install_instructions_url
        .contains("acme-agent-acp"));
    assert!(acme.cli_install_hint.contains("Acme CLI"));
    assert!(acme.adapter_install_hint.contains("acme-agent-acp"));
    assert_eq!(
        acme.authentication,
        RuntimeAuthentication::CliProbe {
            args: &["acme", "auth", "status"],
            login_hint: "Run the Acme CLI to complete authentication.",
        }
    );
    assert_eq!(
        acme.authentication.probe_args(),
        Some(&["acme", "auth", "status"][..])
    );
    assert_eq!(
        acme.readiness_policy,
        RuntimeReadinessPolicy::Authentication
    );
    let spec = catalog
        .resolve_catalog_harness_by_id_with("acme", &|command: &str| command == "acme-code-acp")
        .ok()
        .unwrap();
    assert_eq!(spec.runtime_id, "acme");
    assert_eq!(spec.command, "acme-code-acp");
}

#[test]
fn windows_has_install_commands_of_its_own_where_they_differ() {
    let catalog = catalog();
    let goose = known(&catalog, "goose");
    assert_eq!(
        goose.cli_install_commands_for_os(true),
        goose.cli_install_commands_windows
    );
    assert_eq!(
        goose.cli_install_commands_for_os(false),
        goose.cli_install_commands
    );
    let ompk = known(&catalog, "ompk");
    assert_eq!(
        ompk.cli_install_commands_for_os(true),
        ompk.cli_install_commands
    );
}

#[test]
fn authentication_tells_how_to_sign_in() {
    let none = RuntimeAuthentication::NotApplicable;
    assert_eq!(none.probe_args(), None);
    assert_eq!(none.login_hint(), None);
    assert!(!none.can_connect_account());

    let cli = RuntimeAuthentication::CliProbe {
        args: &["codex", "login", "status"],
        login_hint: "Run `codex login` to authenticate.",
    };
    assert_eq!(cli.probe_args(), Some(&["codex", "login", "status"][..]));
    assert_eq!(cli.login_hint(), Some("Run `codex login` to authenticate."));

    let methods = RuntimeAuthentication::AcpMethods { login_hint: "Sign in." };
    assert_eq!(methods.probe_args(), None);
    assert_eq!(methods.login_hint(), Some("Sign in."));
}
