use buzz_core::readiness::providers::{missing_provider_credential, provider_model_env_key};

fn all_missing(_key: &str) -> bool {
    true
}

#[test]
fn cline_uses_its_own_model_and_credential_keys() {
    assert_eq!(provider_model_env_key(Some("cline")), Some("CLINE_MODEL"));
    assert_eq!(
        missing_provider_credential(Some("cline"), &all_missing),
        Some("CLINE_API_KEY")
    );
}

#[test]
fn cline_accepts_the_openai_compatible_key_as_a_fallback() {
    // buzz-agent reads CLINE_API_KEY, then OPENAI_COMPAT_API_KEY; a user
    // who set only the latter is configured, not missing a credential.
    let only_compat = |key: &str| key != "OPENAI_COMPAT_API_KEY";
    assert_eq!(
        missing_provider_credential(Some("cline"), &only_compat),
        None
    );
}

#[test]
fn known_providers_keep_their_credentials() {
    for (provider, key) in [
        ("anthropic", "ANTHROPIC_API_KEY"),
        ("openai", "OPENAI_COMPAT_API_KEY"),
        ("openrouter", "OPENROUTER_API_KEY"),
        ("databricks", "DATABRICKS_HOST"),
    ] {
        assert_eq!(
            missing_provider_credential(Some(provider), &all_missing),
            Some(key),
            "{provider} must still report its credential"
        );
    }
}

#[test]
fn unknown_or_absent_provider_reports_no_credential_gap() {
    assert_eq!(missing_provider_credential(None, &all_missing), None);
    assert_eq!(
        missing_provider_credential(Some("not-a-provider"), &all_missing),
        None
    );
    assert_eq!(provider_model_env_key(None), None);
}

#[test]
fn a_credential_that_is_there_is_not_missing() {
    let none_missing = |_: &str| false;
    for provider in ["anthropic", "openai", "openrouter", "databricks", "cline"] {
        assert_eq!(
            missing_provider_credential(Some(provider), &none_missing),
            None
        );
    }
}
