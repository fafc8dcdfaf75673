use buzz_core::catalog::catalog_ids::{builtin_ids, check_id_collision};
use buzz_core::catalog::definition::HarnessDefinition;
use buzz_core::catalog::identity::{normalize_command_identity, Catalog};
use buzz_core::catalog::presets::{
    preset_harness_definitions, preset_harness_ids, preset_harnesses,
};
use buzz_core::catalog::runtime_metadata::{
    known_acp_runtimes, known_acp_runtimes_with, VendorWords,
};
use buzz_core::env_map::EnvMap;

fn catalog(customs: Vec<HarnessDefinition>) -> Catalog {
    Catalog {
        runtimes: known_acp_runtimes(),
        presets: preset_harnesses(),
        customs,
    }
}

fn custom_definition(id: &str, command: &str, args: &[&str]) -> HarnessDefinition {
    let mut env = EnvMap::new();
    env.insert("CUSTOM_TOKEN".to_string(), "value".to_string());
    HarnessDefinition {
        id: id.to_string(),
        label: id.to_string(),
        command: command.to_string(),
        args: args.iter().map(|arg| (*arg).to_string()).collect(),
        env,
        install_instructions_url: String::new(),
        install_hint: String::new(),
    }
}

#[test]
fn ompk_resolves_to_exact_acp_launch_spec() {
    let catalog = catalog(Vec::new());
    let spec = catalog
        .resolve_catalog_harness_by_id_with("ompk", &|_: &str| false)
        .ok()
        .unwrap();
    assert_eq!(spec.runtime_id, "ompk");
    assert_eq!(spec.command, "ompk");
    assert_eq!(spec.default_args, vec!["acp"]);
    assert!(spec.definition_env().is_empty());
}

#[test]
fn rich_runtime_uses_installed_alternate_command_without_losing_id() {
    let mut catalog = catalog(Vec::new());
    catalog.runtimes = known_acp_runtimes_with(&vec![VendorWords {
        id: "acme",
        label: "Acme",
        commands: &["acme-agent-acp", "acme-code-acp"],
        cli: "acme",
        cli_install_instructions_url: "",
        adapter_install_instructions_url: "",
        cli_install_hint: "",
        adapter_install_hint: "",
        probe_args: &["acme", "auth", "status"],
        login_hint: "",
    }]);
    let spec = catalog
        .resolve_catalog_harness_by_id_with("acme", &|command: &str| command == "acme-code-acp")
        .ok()
        .unwrap();
    assert_eq!(spec.runtime_id, "acme");
    assert_eq!(spec.command, "acme-code-acp");
}

#[test]
fn warmed_custom_definition_edits_are_observed_by_id() {
    let mut catalog = catalog(vec![custom_definition(
        "custom-live",
        "first-command",
        &["first"],
    )]);
    {
        let first = catalog
            .resolve_catalog_harness_by_id_with("custom-live", &|_: &str| false)
            .ok()
            .unwrap();
        assert_eq!(first.command, "first-command");
        assert_eq!(first.default_args, vec!["first"]);
    }

    catalog.customs = vec![custom_definition(
        "custom-live",
        "second-command",
        &["second"],
    )];
    let second = catalog
        .resolve_catalog_harness_by_id_with("custom-live", &|_: &str| false)
        .ok()
        .unwrap();
    assert_eq!(second.command, "second-command");
    assert_eq!(second.default_args, vec!["second"]);
    assert_eq!(
        second
            .definition_env()
            .get("CUSTOM_TOKEN")
            .map(String::as_str),
        Some("value")
    );
}

#[test]
fn deleted_custom_id_is_typed_dangling_error() {
    let catalog = catalog(Vec::new());
    let error = catalog
        .resolve_catalog_harness_by_id_with("deleted-custom", &|_: &str| false)
        .err()
        .unwrap();
    assert_eq!(error, "DANGLING_HARNESS_ID:deleted-custom");
}

#[test]
fn legacy_command_inference_requires_a_unique_identity() {
    let mut catalog = catalog(Vec::new());
    assert_eq!(
        catalog
            .unique_catalog_runtime_id_for_command("C:/tools/ompk.cmd")
            .as_deref(),
        Some("ompk")
    );

    catalog.customs = vec![custom_definition("custom-ompk-command", "ompk", &[])];
    assert_eq!(catalog.unique_catalog_runtime_id_for_command("ompk"), None);
}

#[test]
fn presets_resolve_to_their_own_command_and_arguments() {
    let catalog = catalog(Vec::new());
    let spec = catalog
        .resolve_catalog_harness_by_id_with("omp", &|_: &str| true)
        .ok()
        .unwrap();
    assert_eq!(spec.runtime_id, "omp");
    assert_eq!(spec.command, "omp");
    assert_eq!(spec.default_args, vec!["acp"]);
    assert!(spec.known_runtime.is_none());
}

#[test]
fn a_runtime_stands_before_a_definition_with_its_id() {
    let catalog = catalog(vec![custom_definition("goose", "my-goose", &[])]);
    let spec = catalog
        .resolve_catalog_harness_by_id_with("goose", &|_: &str| false)
        .ok()
        .unwrap();
    assert_eq!(spec.command, "goose");
    assert!(spec.known_runtime.is_some());
}

#[test]
fn the_identity_of_a_command_is_its_base_name() {
    assert_eq!(normalize_command_identity("/opt/tools/ompk"), "ompk");
    assert_eq!(normalize_command_identity("C:\\tools\\OMPK.EXE"), "ompk");
    assert_eq!(normalize_command_identity("ompk.bat"), "ompk");
    assert_eq!(normalize_command_identity("ompk.sh"), "ompk.sh");
}

#[test]
fn reserved_ids_collide_and_free_ones_do_not() {
    let catalog = catalog(Vec::new());
    let ids = builtin_ids(&catalog);
    assert!(ids.iter().any(|id| *id == "goose"));
    assert_eq!(
        check_id_collision(&catalog, "goose").unwrap_err(),
        "id \"goose\" is reserved for a built-in harness and cannot be overridden"
    );
    assert!(check_id_collision(&catalog, "GOOSE").is_err());
    assert!(check_id_collision(&catalog, "omp").is_err());
    assert_eq!(check_id_collision(&catalog, "my-own"), Ok(()));
}

#[test]
fn preset_definitions_carry_the_ids_and_commands() {
    let presets = preset_harnesses();
    let ids = preset_harness_ids(&presets);
    let definitions = preset_harness_definitions(&presets);
    assert_eq!(ids.len(), definitions.len());
    for (id, definition) in ids.iter().zip(&definitions) {
        assert_eq!(*id, definition.id);
        assert!(definition.env.is_empty());
    }
    assert!(ids.contains(&"ompk"));
}
