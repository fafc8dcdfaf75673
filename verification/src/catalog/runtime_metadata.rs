//! What is known of the richly described runtimes.
use vstd::prelude::*;

use crate::text;

verus! {

/// The texts of a list of words.
pub open spec fn words(v: Seq<&'static str>) -> Seq<Seq<char>> {
    v.map_values(|w: &'static str| w@)
}

/// The text of an optional word.
pub open spec fn opt_word(w: Option<&'static str>) -> Option<Seq<char>> {
    match w {
        Some(t) => Some(t@),
        None => None,
    }
}

/// The texts of a list of pairs of words.
pub open spec fn word_pairs(v: Seq<(&'static str, &'static str)>) -> Seq<(Seq<char>, Seq<char>)> {
    v.map_values(|p: (&'static str, &'static str)| (p.0@, p.1@))
}

/// The strings of a list of words.
pub fn to_strings(v: &[&'static str]) -> (r: Vec<String>)
    ensures
        text::texts(r@) == words(v@),
{
    let mut out: Vec<String> = Vec::new();
    let mut i: usize = 0;
    while i < v.len()
        invariant
            i <= v.len(),
            out@.len() == i,
            forall|k: int| 0 <= k < i ==> (#[trigger] out@[k])@ == v@[k]@,
        decreases v.len() - i,
    {
        out.push(v[i].to_owned());
        i += 1;
    }
    assert(text::texts(out@) =~= words(v@));
    out
}

/// Where a harness comes from.
#[derive(Debug, Clone, Copy, PartialEq, Eq, Structural)]
pub enum HarnessSource {
    Builtin,
    Preset,
    Custom,
}

/// How a runtime lets its user sign in.
#[derive(Debug, Clone, Copy, PartialEq, Eq)]
pub enum RuntimeAuthentication {
    /// There is nothing to sign in to.
    NotApplicable,
    /// A command tells, without asking anything, whether the user is signed in: the first
    /// argument is the executable.
    CliProbe { args: &'static [&'static str], login_hint: &'static str },
    /// The runtime offers methods of its own over the protocol.
    AcpMethods { login_hint: &'static str },
}

/// What an authentication holds.
#[verifier::ext_equal]
pub enum AuthenticationModel {
    NotApplicable,
    CliProbe { args: Seq<Seq<char>>, login_hint: Seq<char> },
    AcpMethods { login_hint: Seq<char> },
}

impl View for RuntimeAuthentication {
    type V = AuthenticationModel;

    open spec fn view(&self) -> AuthenticationModel {
        match *self {
            RuntimeAuthentication::NotApplicable => AuthenticationModel::NotApplicable,
            RuntimeAuthentication::CliProbe { args, login_hint } => AuthenticationModel::CliProbe {
                args: words(args@),
                login_hint: login_hint@,
            },
            RuntimeAuthentication::AcpMethods { login_hint } => AuthenticationModel::AcpMethods {
                login_hint: login_hint@,
            },
        }
    }
}

impl RuntimeAuthentication {
    /// The command that tells whether the user is signed in, where there is one.
    pub fn probe_args(self) -> (r: Option<&'static [&'static str]>)
        ensures
            match self@ {
                AuthenticationModel::CliProbe { args, .. } => r is Some && words(r->0@) == args,
                _ => r is None,
            },
    {
        match self {
            RuntimeAuthentication::CliProbe { args, .. } => Some(args),
            RuntimeAuthentication::NotApplicable => None,
            RuntimeAuthentication::AcpMethods { .. } => None,
        }
    }

    /// How to sign in, where there is something to sign in to.
    pub fn login_hint(self) -> (r: Option<&'static str>)
        ensures
            opt_word(r) == match self@ {
                AuthenticationModel::NotApplicable => None,
                AuthenticationModel::CliProbe { login_hint, .. } => Some(login_hint),
                AuthenticationModel::AcpMethods { login_hint } => Some(login_hint),
            },
    {
        match self {
            RuntimeAuthentication::NotApplicable => None,
            RuntimeAuthentication::CliProbe { login_hint, .. } => Some(login_hint),
            RuntimeAuthentication::AcpMethods { login_hint } => Some(login_hint),
        }
    }

    /// Whether there is something to sign in to.
    pub fn can_connect_account(self) -> (r: bool)
        ensures
            r == !(self@ is NotApplicable),
    {
        match self {
            RuntimeAuthentication::NotApplicable => false,
            RuntimeAuthentication::CliProbe { .. } => true,
            RuntimeAuthentication::AcpMethods { .. } => true,
        }
    }
}

/// What decides whether an installed runtime can serve a session.
#[derive(Debug, Clone, Copy, PartialEq, Eq, Structural)]
pub enum RuntimeReadinessPolicy {
    AvailabilityOnly,
    Authentication,
    AcpModelCatalog,
}

/// What is known of a runtime: what it can do, and how it is installed.
#[derive(Debug)]
pub struct KnownAcpRuntime {
    pub id: &'static str,
    pub label: &'static str,
    /// The commands that start it, the preferred one first.
    pub commands: &'static [&'static str],
    pub aliases: &'static [&'static str],
    pub avatar_url: &'static str,
    /// Who may edit it, whatever else is known of it.
    pub source: HarnessSource,
    /// Its arguments where an agent has none of its own.
    pub default_args: &'static [&'static str],
    pub mcp_command: Option<&'static str>,
    /// Whether the hook tools are enabled for it.
    pub mcp_hooks: bool,
    /// The vendor's own command, where the runtime is an adapter to it.
    pub underlying_cli: Option<&'static str>,
    /// The commands that install the vendor's CLI, in order.
    pub cli_install_commands: &'static [&'static str],
    /// The same on Windows, where they differ.
    pub cli_install_commands_windows: &'static [&'static str],
    /// The commands that install the adapter, behind the CLI.
    pub adapter_install_commands: &'static [&'static str],
    pub cli_install_instructions_url: &'static str,
    pub adapter_install_instructions_url: &'static str,
    pub cli_install_hint: &'static str,
    pub adapter_install_hint: &'static str,
    /// Where the runtime looks for skills, where it is not the common place.
    pub skill_dir: Option<&'static str>,
    /// Whether it switches models over the protocol.
    pub supports_acp_model_switching: bool,
    pub model_env_var: Option<&'static str>,
    pub provider_env_var: Option<&'static str>,
    /// Whether its provider cannot be chosen.
    pub provider_locked: bool,
    /// The variables that it is started with.
    pub default_env: &'static [(&'static str, &'static str)],
    pub config_file_path: Option<&'static str>,
    pub config_file_format: Option<&'static str>,
    /// Whether its configuration is read and written over the protocol.
    pub supports_acp_native_config: bool,
    pub thinking_env_var: Option<&'static str>,
    pub max_tokens_env_var: Option<&'static str>,
    pub context_limit_env_var: Option<&'static str>,
    pub max_rounds_env_var: Option<&'static str>,
    /// The settings that it cannot work without.
    pub required_normalized_fields: &'static [&'static str],
    pub authentication: RuntimeAuthentication,
    pub readiness_policy: RuntimeReadinessPolicy,
}

/// What a runtime's description holds.
#[verifier::ext_equal]
pub struct RuntimeModel {
    pub id: Seq<char>,
    pub label: Seq<char>,
    pub commands: Seq<Seq<char>>,
    pub aliases: Seq<Seq<char>>,
    pub avatar_url: Seq<char>,
    pub source: HarnessSource,
    pub default_args: Seq<Seq<char>>,
    pub mcp_command: Option<Seq<char>>,
    pub mcp_hooks: bool,
    pub underlying_cli: Option<Seq<char>>,
    pub cli_install_commands: Seq<Seq<char>>,
    pub cli_install_commands_windows: Seq<Seq<char>>,
    pub adapter_install_commands: Seq<Seq<char>>,
    pub cli_install_instructions_url: Seq<char>,
    pub adapter_install_instructions_url: Seq<char>,
    pub cli_install_hint: Seq<char>,
    pub adapter_install_hint: Seq<char>,
    pub skill_dir: Option<Seq<char>>,
    pub supports_acp_model_switching: bool,
    pub model_env_var: Option<Seq<char>>,
    pub provider_env_var: Option<Seq<char>>,
    pub provider_locked: bool,
    pub default_env: Seq<(Seq<char>, Seq<char>)>,
    pub config_file_path: Option<Seq<char>>,
    pub config_file_format: Option<Seq<char>>,
    pub supports_acp_native_config: bool,
    pub thinking_env_var: Option<Seq<char>>,
    pub max_tokens_env_var: Option<Seq<char>>,
    pub context_limit_env_var: Option<Seq<char>>,
    pub max_rounds_env_var: Option<Seq<char>>,
    pub required_normalized_fields: Seq<Seq<char>>,
    pub authentication: AuthenticationModel,
    pub readiness_policy: RuntimeReadinessPolicy,
}

impl View for KnownAcpRuntime {
    type V = RuntimeModel;

    open spec fn view(&self) -> RuntimeModel {
        RuntimeModel {
            id: self.id@,
            label: self.label@,
            commands: words(self.commands@),
            aliases: words(self.aliases@),
            avatar_url: self.avatar_url@,
            source: self.source,
            default_args: words(self.default_args@),
            mcp_command: opt_word(self.mcp_command),
            mcp_hooks: self.mcp_hooks,
            underlying_cli: opt_word(self.underlying_cli),
            cli_install_commands: words(self.cli_install_commands@),
            cli_install_commands_windows: words(self.cli_install_commands_windows@),
            adapter_install_commands: words(self.adapter_install_commands@),
            cli_install_instructions_url: self.cli_install_instructions_url@,
            adapter_install_instructions_url: self.adapter_install_instructions_url@,
            cli_install_hint: self.cli_install_hint@,
            adapter_install_hint: self.adapter_install_hint@,
            skill_dir: opt_word(self.skill_dir),
            supports_acp_model_switching: self.supports_acp_model_switching,
            model_env_var: opt_word(self.model_env_var),
            provider_env_var: opt_word(self.provider_env_var),
            provider_locked: self.provider_locked,
            default_env: word_pairs(self.default_env@),
            config_file_path: opt_word(self.config_file_path),
            config_file_format: opt_word(self.config_file_format),
            supports_acp_native_config: self.supports_acp_native_config,
            thinking_env_var: opt_word(self.thinking_env_var),
            max_tokens_env_var: opt_word(self.max_tokens_env_var),
            context_limit_env_var: opt_word(self.context_limit_env_var),
            max_rounds_env_var: opt_word(self.max_rounds_env_var),
            required_normalized_fields: words(self.required_normalized_fields@),
            authentication: self.authentication@,
            readiness_policy: self.readiness_policy,
        }
    }
}

impl KnownAcpRuntime {
    /// The commands that install the vendor's CLI on this platform.
    pub fn cli_install_commands_for_os(&self, windows: bool) -> (r: &'static [&'static str])
        ensures
            words(r@) == if windows && self@.cli_install_commands_windows.len() > 0 {
                self@.cli_install_commands_windows
            } else {
                self@.cli_install_commands
            },
    {
        if windows && self.cli_install_commands_windows.len() > 0 {
            self.cli_install_commands_windows
        } else {
            self.cli_install_commands
        }
    }
}

/// A runtime of which nothing is known but its names.
pub open spec fn plain_runtime(
    id: Seq<char>,
    label: Seq<char>,
    commands: Seq<Seq<char>>,
    source: HarnessSource,
) -> RuntimeModel {
    RuntimeModel {
        id,
        label,
        commands,
        aliases: Seq::empty(),
        avatar_url: Seq::empty(),
        source,
        default_args: Seq::empty(),
        mcp_command: None,
        mcp_hooks: false,
        underlying_cli: None,
        cli_install_commands: Seq::empty(),
        cli_install_commands_windows: Seq::empty(),
        adapter_install_commands: Seq::empty(),
        cli_install_instructions_url: Seq::empty(),
        adapter_install_instructions_url: Seq::empty(),
        cli_install_hint: Seq::empty(),
        adapter_install_hint: Seq::empty(),
        skill_dir: None,
        supports_acp_model_switching: false,
        model_env_var: None,
        provider_env_var: None,
        provider_locked: false,
        default_env: Seq::empty(),
        config_file_path: None,
        config_file_format: None,
        supports_acp_native_config: false,
        thinking_env_var: None,
        max_tokens_env_var: None,
        context_limit_env_var: None,
        max_rounds_env_var: None,
        required_normalized_fields: Seq::empty(),
        authentication: AuthenticationModel::NotApplicable,
        readiness_policy: RuntimeReadinessPolicy::AvailabilityOnly,
    }
}

/// A runtime of which nothing is known but its names.
fn plain(
    id: &'static str,
    label: &'static str,
    commands: &'static [&'static str],
    source: HarnessSource,
) -> (r: KnownAcpRuntime)
    ensures
        r@ == plain_runtime(id@, label@, words(commands@), source),
{
    proof {
        reveal_strlit("");
    }
    let r = KnownAcpRuntime {
        id,
        label,
        commands,
        aliases: &[],
        avatar_url: "",
        source,
        default_args: &[],
        mcp_command: None,
        mcp_hooks: false,
        underlying_cli: None,
        cli_install_commands: &[],
        cli_install_commands_windows: &[],
        adapter_install_commands: &[],
        cli_install_instructions_url: "",
        adapter_install_instructions_url: "",
        cli_install_hint: "",
        adapter_install_hint: "",
        skill_dir: None,
        supports_acp_model_switching: false,
        model_env_var: None,
        provider_env_var: None,
        provider_locked: false,
        default_env: &[],
        config_file_path: None,
        config_file_format: None,
        supports_acp_native_config: false,
        thinking_env_var: None,
        max_tokens_env_var: None,
        context_limit_env_var: None,
        max_rounds_env_var: None,
        required_normalized_fields: &[],
        authentication: RuntimeAuthentication::NotApplicable,
        readiness_policy: RuntimeReadinessPolicy::AvailabilityOnly,
    };
    assert(r@ =~= plain_runtime(id@, label@, words(commands@), source));
    r
}

/// Goose, Block's agent.
pub open spec fn goose_model() -> RuntimeModel {
    RuntimeModel {
        default_args: seq!["acp"@],
        cli_install_commands_windows: seq!["$env:CONFIGURE='false'; irm https://raw.githubusercontent.com/aaif-goose/goose/main/download_cli.ps1 | iex"@],
        cli_install_instructions_url: "https://goose-docs.ai/docs/getting-started/installation/"@,
        cli_install_hint: "Install the Goose CLI."@,
        ..plain_runtime("goose"@, "Goose"@, seq!["goose"@], HarnessSource::Builtin)
    }
}

/// Goose, Block's agent.
fn goose() -> (r: KnownAcpRuntime)
    ensures
        r@ == goose_model(),
{
    let mut r = plain("goose", "Goose", &["goose"], HarnessSource::Builtin);
    r.default_args = &["acp"];
    r.cli_install_commands_windows = &["$env:CONFIGURE='false'; irm https://raw.githubusercontent.com/aaif-goose/goose/main/download_cli.ps1 | iex"];
    r.cli_install_instructions_url = "https://goose-docs.ai/docs/getting-started/installation/";
    r.cli_install_hint = "Install the Goose CLI.";
    assert(r@.commands =~= goose_model().commands);
    assert(r@.default_args =~= goose_model().default_args);
    assert(r@.cli_install_commands_windows =~= goose_model().cli_install_commands_windows);
    r
}

/// The bundled agent.
pub open spec fn buzz_agent_model() -> RuntimeModel {
    plain_runtime("buzz-agent"@, "Buzz Agent"@, seq!["buzz-agent"@], HarnessSource::Builtin)
}

/// The bundled agent.
fn buzz_agent() -> (r: KnownAcpRuntime)
    ensures
        r@ == buzz_agent_model(),
{
    let r = plain("buzz-agent", "Buzz Agent", &["buzz-agent"], HarnessSource::Builtin);
    assert(r@.commands =~= buzz_agent_model().commands);
    r
}

/// The words of a vendor whose CLI is reached through an adapter.
#[derive(Debug, Clone, Copy)]
pub struct VendorWords {
    pub id: &'static str,
    pub label: &'static str,
    /// The commands that start the adapter, the preferred one first.
    pub commands: &'static [&'static str],
    /// The vendor's own command.
    pub cli: &'static str,
    pub cli_install_instructions_url: &'static str,
    pub adapter_install_instructions_url: &'static str,
    pub cli_install_hint: &'static str,
    pub adapter_install_hint: &'static str,
    /// The command that tells whether the user is signed in.
    pub probe_args: &'static [&'static str],
    pub login_hint: &'static str,
}

impl VendorWords {
    /// What is known of the vendor's runtime: it is ready once its user is signed in, which a
    /// command of the CLI tells.
    pub open spec fn runtime(self) -> RuntimeModel {
        RuntimeModel {
            underlying_cli: Some(self.cli@),
            cli_install_instructions_url: self.cli_install_instructions_url@,
            adapter_install_instructions_url: self.adapter_install_instructions_url@,
            cli_install_hint: self.cli_install_hint@,
            adapter_install_hint: self.adapter_install_hint@,
            authentication: AuthenticationModel::CliProbe {
                args: words(self.probe_args@),
                login_hint: self.login_hint@,
            },
            readiness_policy: RuntimeReadinessPolicy::Authentication,
            ..plain_runtime(self.id@, self.label@, words(self.commands@), HarnessSource::Builtin)
        }
    }
}

/// The runtime of a vendor whose CLI is reached through an adapter.
pub fn adapter_runtime(vendor: &VendorWords) -> (r: KnownAcpRuntime)
    ensures
        r@ == vendor.runtime(),
{
    let mut r = plain(vendor.id, vendor.label, vendor.commands, HarnessSource::Builtin);
    r.underlying_cli = Some(vendor.cli);
    r.cli_install_instructions_url = vendor.cli_install_instructions_url;
    r.adapter_install_instructions_url = vendor.adapter_install_instructions_url;
    r.cli_install_hint = vendor.cli_install_hint;
    r.adapter_install_hint = vendor.adapter_install_hint;
    r.authentication = RuntimeAuthentication::CliProbe {
        args: vendor.probe_args,
        login_hint: vendor.login_hint,
    };
    r.readiness_policy = RuntimeReadinessPolicy::Authentication;
    assert(r@ =~= vendor.runtime());
    r
}

/// Codex, through its adapter.
pub open spec fn codex_model() -> RuntimeModel {
    RuntimeModel {
        underlying_cli: Some("codex"@),
        cli_install_instructions_url: "https://developers.openai.com/codex/cli/"@,
        adapter_install_instructions_url: "https://github.com/zed-industries/codex-acp"@,
        cli_install_hint: "Install the Codex CLI."@,
        adapter_install_hint: "Install the codex-acp adapter."@,
        authentication: AuthenticationModel::CliProbe {
            args: seq!["codex"@, "login"@, "status"@],
            login_hint: "Run `codex login` to authenticate."@,
        },
        readiness_policy: RuntimeReadinessPolicy::Authentication,
        ..plain_runtime("codex"@, "Codex"@, seq!["codex-acp"@], HarnessSource::Builtin)
    }
}

/// Codex, through its adapter.
fn codex() -> (r: KnownAcpRuntime)
    ensures
        r@ == codex_model(),
{
    let r = adapter_runtime(
        &VendorWords {
            id: "codex",
            label: "Codex",
            commands: &["codex-acp"],
            cli: "codex",
            cli_install_instructions_url: "https://developers.openai.com/codex/cli/",
            adapter_install_instructions_url: "https://github.com/zed-industries/codex-acp",
            cli_install_hint: "Install the Codex CLI.",
            adapter_install_hint: "Install the codex-acp adapter.",
            probe_args: &["codex", "login", "status"],
            login_hint: "Run `codex login` to authenticate.",
        },
    );
    assert(r@.commands =~= codex_model().commands);
    assert(r@.authentication =~= codex_model().authentication);
    r
}

/// Oh My PK.
pub open spec fn ompk_model() -> RuntimeModel {
    RuntimeModel {
        default_args: seq!["acp"@],
        cli_install_instructions_url: "https://github.com/kingkillery/oh-my-pk"@,
        cli_install_hint: "Buzz talks to Oh My PK through its CLI's ACP mode (ompk acp)."@,
        supports_acp_model_switching: true,
        authentication: AuthenticationModel::AcpMethods {
            login_hint: "Sign in from a terminal with `ompk auth-broker login anthropic` (also `cursor`, `openai-codex`), or run `ompk` and use `/login`."@,
        },
        readiness_policy: RuntimeReadinessPolicy::AcpModelCatalog,
        ..plain_runtime("ompk"@, "Oh My PK"@, seq!["ompk"@], HarnessSource::Preset)
    }
}

/// Oh My PK.
fn ompk() -> (r: KnownAcpRuntime)
    ensures
        r@ == ompk_model(),
{
    let mut r = plain("ompk", "Oh My PK", &["ompk"], HarnessSource::Preset);
    r.default_args = &["acp"];
    r.cli_install_instructions_url = "https://github.com/kingkillery/oh-my-pk";
    r.cli_install_hint = "Buzz talks to Oh My PK through its CLI's ACP mode (ompk acp).";
    r.supports_acp_model_switching = true;
    r.authentication = RuntimeAuthentication::AcpMethods {
        login_hint: "Sign in from a terminal with `ompk auth-broker login anthropic` (also `cursor`, `openai-codex`), or run `ompk` and use `/login`.",
    };
    r.readiness_policy = RuntimeReadinessPolicy::AcpModelCatalog;
    assert(r@.commands =~= ompk_model().commands);
    assert(r@.default_args =~= ompk_model().default_args);
    r
}

/// What is known of the richly described runtimes, in the order of the catalog.
pub open spec fn runtime_models() -> Seq<RuntimeModel> {
    seq![goose_model(), buzz_agent_model(), codex_model(), ompk_model()]
}

/// What a list of runtimes holds.
pub open spec fn runtime_views(v: Seq<KnownAcpRuntime>) -> Seq<RuntimeModel> {
    v.map_values(|r: KnownAcpRuntime| r@)
}

/// The runtimes that are described here, in the order of the catalog.
pub fn known_acp_runtimes() -> (r: Vec<KnownAcpRuntime>)
    ensures
        runtime_views(r@) == runtime_models(),
{
    let mut r: Vec<KnownAcpRuntime> = Vec::new();
    r.push(goose());
    r.push(buzz_agent());
    r.push(codex());
    r.push(ompk());
    assert(runtime_views(r@) =~= runtime_models());
    r
}

/// What is known of the runtimes of some vendors.
pub open spec fn vendor_models(vendors: Seq<VendorWords>) -> Seq<RuntimeModel> {
    vendors.map_values(|v: VendorWords| v.runtime())
}

/// The runtimes that are described here, and behind them those of the vendors that a host adds.
pub fn known_acp_runtimes_with(vendors: &Vec<VendorWords>) -> (r: Vec<KnownAcpRuntime>)
    ensures
        runtime_views(r@) == runtime_models() + vendor_models(vendors@),
{
    let mut r: Vec<KnownAcpRuntime> = known_acp_runtimes();
    let ghost own = runtime_models();
    let ghost added = vendor_models(vendors@);
    assert(runtime_views(r@) =~= own + added.take(0));
    let mut i: usize = 0;
    while i < vendors.len()
        invariant
            i <= vendors.len(),
            added == vendor_models(vendors@),
            runtime_views(r@) == own + added.take(i as int),
        decreases vendors.len() - i,
    {
        let ghost before = runtime_views(r@);
        r.push(adapter_runtime(&vendors[i]));
        assert(runtime_views(r@) =~= before.push(added[i as int]));
        assert(own + added.take(i + 1) =~= (own + added.take(i as int)).push(added[i as int]));
        i += 1;
    }
    assert(added.take(added.len() as int) =~= added);
    r
}

} // verus!
