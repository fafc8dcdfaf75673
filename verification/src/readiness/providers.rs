//! What the providers of the bundled agent need.
use vstd::prelude::*;

use crate::catalog::runtime_metadata;
use crate::decision;
use crate::text;

verus! {

/// The text of an optional slice.
pub open spec fn opt_str(s: Option<&str>) -> Option<Seq<char>> {
    match s {
        Some(t) => Some(t@),
        None => None,
    }
}

/// The variable that holds a provider's model, where the common one is not set.
pub open spec fn model_key(provider: Option<Seq<char>>) -> Option<Seq<char>> {
    match provider {
        None => None,
        Some(p) => if p == "databricks"@ || p == "databricks_v2"@ || p == "databricks-v2"@ {
            Some("DATABRICKS_MODEL"@)
        } else if p == "anthropic"@ {
            Some("ANTHROPIC_MODEL"@)
        } else if p == "openai"@ || p == "openai-compat"@ {
            Some("OPENAI_COMPAT_MODEL"@)
        } else if p == "cline"@ {
            Some("CLINE_MODEL"@)
        } else if p == "openrouter"@ {
            Some("OPENROUTER_MODEL"@)
        } else {
            None
        },
    }
}

/// The variable that holds a provider's model, where the common one is not set.
pub fn provider_model_env_key(provider: Option<&str>) -> (r: Option<&'static str>)
    ensures
        runtime_metadata::opt_word(r) == model_key(opt_str(provider)),
{
    let p: &str = match provider {
        Some(p) => p,
        None => return None,
    };
    if text::same(p, "databricks") || text::same(p, "databricks_v2") || text::same(
        p,
        "databricks-v2",
    ) {
        Some("DATABRICKS_MODEL")
    } else if text::same(p, "anthropic") {
        Some("ANTHROPIC_MODEL")
    } else if text::same(p, "openai") || text::same(p, "openai-compat") {
        Some("OPENAI_COMPAT_MODEL")
    } else if text::same(p, "cline") {
        Some("CLINE_MODEL")
    } else if text::same(p, "openrouter") {
        Some("OPENROUTER_MODEL")
    } else {
        None
    }
}

/// The variables one of which a provider cannot do without, the one to ask for first.
pub open spec fn credential_keys(provider: Option<Seq<char>>) -> Seq<Seq<char>> {
    match provider {
        None => seq![],
        Some(p) => if p == "anthropic"@ {
            seq!["ANTHROPIC_API_KEY"@]
        } else if p == "openai"@ || p == "openai-compat"@ {
            seq!["OPENAI_COMPAT_API_KEY"@]
        } else if p == "databricks"@ || p == "databricks_v2"@ || p == "databricks-v2"@ {
            seq!["DATABRICKS_HOST"@]
        } else if p == "openrouter"@ {
            seq!["OPENROUTER_API_KEY"@]
        } else if p == "cline"@ {
            seq!["CLINE_API_KEY"@, "OPENAI_COMPAT_API_KEY"@]
        } else {
            seq![]
        },
    }
}

/// The variable that a provider still needs: the first of those that would do, where none
/// of them is set.
pub open spec fn missing_credential(
    provider: Option<Seq<char>>,
    missing: spec_fn(Seq<char>) -> bool,
) -> Option<Seq<char>> {
    let keys = credential_keys(provider);
    if keys.len() > 0 && forall|i: int| 0 <= i < keys.len() ==> missing(#[trigger] keys[i]) {
        Some(keys[0])
    } else {
        None
    }
}

/// The variable that a provider still needs, if any. Of a provider that is not known none
/// is asked for.
pub fn missing_provider_credential<F: Fn(&str) -> bool>(
    provider: Option<&str>,
    env_key_missing: &F,
) -> (r: Option<&'static str>)
    requires
        decision::decides(*env_key_missing),
    ensures
        runtime_metadata::opt_word(r) == missing_credential(
            opt_str(provider),
            decision::verdict(*env_key_missing),
        ),
{
    let ghost keys = credential_keys(opt_str(provider));
    let ghost missing = decision::verdict(*env_key_missing);
    let p: &str = match provider {
        Some(p) => p,
        None => return None,
    };
    let key: &'static str = if text::same(p, "anthropic") {
        "ANTHROPIC_API_KEY"
    } else if text::same(p, "openai") || text::same(p, "openai-compat") {
        "OPENAI_COMPAT_API_KEY"
    } else if text::same(p, "databricks") || text::same(p, "databricks_v2") || text::same(
        p,
        "databricks-v2",
    ) {
        "DATABRICKS_HOST"
    } else if text::same(p, "openrouter") {
        "OPENROUTER_API_KEY"
    } else if text::same(p, "cline") {
        assert(keys[0] == "CLINE_API_KEY"@ && keys[1] == "OPENAI_COMPAT_API_KEY"@);
        if decision::ask(env_key_missing, "CLINE_API_KEY") && decision::ask(
            env_key_missing,
            "OPENAI_COMPAT_API_KEY",
        ) {
            return Some("CLINE_API_KEY");
        }
        return None;
    } else {
        return None;
    };
    assert(keys[0] == key@);
    if decision::ask(env_key_missing, key) {
        Some(key)
    } else {
        None
    }
}

/// A variable that is asked for is one that is missing, and where no variable is missing
/// none is asked for.
pub proof fn law_only_missing_credentials_are_asked_for(
    provider: Option<Seq<char>>,
    missing: spec_fn(Seq<char>) -> bool,
)
    ensures
        missing_credential(provider, missing) matches Some(key) ==> missing(key),
        (forall|key: Seq<char>| !#[trigger] missing(key)) ==> missing_credential(provider, missing) is None,
{
    let keys = credential_keys(provider);
    if keys.len() > 0 {
        assert(keys[0] == keys[0]);
    }
}

} // verus!
