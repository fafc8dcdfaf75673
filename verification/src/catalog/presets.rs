//! The presets: harnesses whose command and arguments are known, and nothing more.
use vstd::prelude::*;

use crate::catalog::definition;
use crate::catalog::definition::{DefinitionModel, HarnessDefinition};
use crate::catalog::runtime_metadata;
use crate::catalog::runtime_metadata::HarnessSource;
use crate::env_map::EnvMap;
use crate::text;

verus! {

/// A preset.
#[derive(Debug, Clone, Copy)]
pub struct PresetHarness {
    pub id: &'static str,
    pub label: &'static str,
    pub command: &'static str,
    pub args: &'static [&'static str],
    pub install_instructions_url: &'static str,
    pub install_hint: &'static str,
    /// The vendor's own command, where the preset is an adapter to it. It is looked for
    /// only to tell a missing adapter from a missing harness: an adapter that is there can
    /// be chosen whether or not the vendor's command is.
    pub underlying_cli: Option<&'static str>,
    /// How to sign in, where that is documented. It never says whether the user is.
    pub login_hint: Option<&'static str>,
}

/// What a preset holds.
#[verifier::ext_equal]
pub struct PresetModel {
    pub id: Seq<char>,
    pub label: Seq<char>,
    pub command: Seq<char>,
    pub args: Seq<Seq<char>>,
    pub install_instructions_url: Seq<char>,
    pub install_hint: Seq<char>,
    pub underlying_cli: Option<Seq<char>>,
    pub login_hint: Option<Seq<char>>,
}

impl View for PresetHarness {
    type V = PresetModel;

    open spec fn view(&self) -> PresetModel {
        PresetModel {
            id: self.id@,
            label: self.label@,
            command: self.command@,
            args: runtime_metadata::words(self.args@),
            install_instructions_url: self.install_instructions_url@,
            install_hint: self.install_hint@,
            underlying_cli: runtime_metadata::opt_word(self.underlying_cli),
            login_hint: runtime_metadata::opt_word(self.login_hint),
        }
    }
}

/// What a list of presets holds.
pub open spec fn preset_views(v: Seq<PresetHarness>) -> Seq<PresetModel> {
    v.map_values(|p: PresetHarness| p@)
}

/// Whether a harness can be used.
#[derive(Debug, Clone, Copy, PartialEq, Eq, Structural)]
pub enum AcpAvailabilityStatus {
    Available,
    AdapterMissing,
    CliMissing,
    NotInstalled,
}

/// Whether the user of a harness is signed in.
#[derive(Debug, Clone, Copy, PartialEq, Eq, Structural)]
pub enum AuthStatus {
    NotApplicable,
    LoggedIn,
    LoggedOut,
    Unknown,
}

/// Whether a runtime can serve a session.
#[derive(Debug, Clone, Copy, PartialEq, Eq, Structural)]
pub enum RuntimeReadinessStatus {
    Ready,
    AuthenticationRequired,
    ModelUnavailable,
    Unknown,
}

impl RuntimeReadinessStatus {
    /// The status as it is written.
    pub open spec fn wire(self) -> Seq<char> {
        match self {
            RuntimeReadinessStatus::Ready => "ready"@,
            RuntimeReadinessStatus::AuthenticationRequired => "authentication_required"@,
            RuntimeReadinessStatus::ModelUnavailable => "model_unavailable"@,
            RuntimeReadinessStatus::Unknown => "unknown"@,
        }
    }

    /// The status as it is written.
    pub fn as_str(&self) -> (r: &'static str)
        ensures
            r@ == self.wire(),
    {
        match self {
            RuntimeReadinessStatus::Ready => "ready",
            RuntimeReadinessStatus::AuthenticationRequired => "authentication_required",
            RuntimeReadinessStatus::ModelUnavailable => "model_unavailable",
            RuntimeReadinessStatus::Unknown => "unknown",
        }
    }
}

/// A harness as the catalog shows it.
#[derive(Debug)]
pub struct AcpRuntimeCatalogEntry {
    pub id: String,
    pub label: String,
    pub avatar_url: String,
    pub availability: AcpAvailabilityStatus,
    pub command: Option<String>,
    pub binary_path: Option<String>,
    pub default_args: Vec<String>,
    pub mcp_command: Option<String>,
    pub model_env_var: Option<String>,
    pub provider_env_var: Option<String>,
    pub thinking_env_var: Option<String>,
    pub install_hint: String,
    pub install_instructions_url: String,
    pub can_auto_install: bool,
    pub requires_external_cli: bool,
    pub underlying_cli_path: Option<String>,
    pub node_required: bool,
    pub auth_status: AuthStatus,
    pub login_hint: Option<String>,
    pub source: HarnessSource,
    pub definition_env: EnvMap,
    pub runtime_readiness: RuntimeReadinessStatus,
}

/// What an entry holds.
#[verifier::ext_equal]
pub struct EntryModel {
    pub id: Seq<char>,
    pub label: Seq<char>,
    pub avatar_url: Seq<char>,
    pub availability: AcpAvailabilityStatus,
    pub command: Option<Seq<char>>,
    pub binary_path: Option<Seq<char>>,
    pub default_args: Seq<Seq<char>>,
    pub mcp_command: Option<Seq<char>>,
    pub model_env_var: Option<Seq<char>>,
    pub provider_env_var: Option<Seq<char>>,
    pub thinking_env_var: Option<Seq<char>>,
    pub install_hint: Seq<char>,
    pub install_instructions_url: Seq<char>,
    pub can_auto_install: bool,
    pub requires_external_cli: bool,
    pub underlying_cli_path: Option<Seq<char>>,
    pub node_required: bool,
    pub auth_status: AuthStatus,
    pub login_hint: Option<Seq<char>>,
    pub source: HarnessSource,
    pub definition_env: Map<Seq<char>, Seq<char>>,
    pub runtime_readiness: RuntimeReadinessStatus,
}

impl View for AcpRuntimeCatalogEntry {
    type V = EntryModel;

    open spec fn view(&self) -> EntryModel {
        EntryModel {
            id: self.id@,
            label: self.label@,
            avatar_url: self.avatar_url@,
            availability: self.availability,
            command: text::opt_text(self.command),
            binary_path: text::opt_text(self.binary_path),
            default_args: text::texts(self.default_args@),
            mcp_command: text::opt_text(self.mcp_command),
            model_env_var: text::opt_text(self.model_env_var),
            provider_env_var: text::opt_text(self.provider_env_var),
            thinking_env_var: text::opt_text(self.thinking_env_var),
            install_hint: self.install_hint@,
            install_instructions_url: self.install_instructions_url@,
            can_auto_install: self.can_auto_install,
            requires_external_cli: self.requires_external_cli,
            underlying_cli_path: text::opt_text(self.underlying_cli_path),
            node_required: self.node_required,
            auth_status: self.auth_status,
            login_hint: text::opt_text(self.login_hint),
            source: self.source,
            definition_env: self.definition_env@,
            runtime_readiness: self.runtime_readiness,
        }
    }
}

/// Whether a preset can be used, given where its command and the vendor's own command
/// were found.
pub open spec fn preset_availability(
    command_path: Option<Seq<char>>,
    cli_path: Option<Seq<char>>,
) -> AcpAvailabilityStatus {
    if command_path is Some {
        AcpAvailabilityStatus::Available
    } else if cli_path is Some {
        AcpAvailabilityStatus::AdapterMissing
    } else {
        AcpAvailabilityStatus::NotInstalled
    }
}

/// The entry of a preset, given where its command and the vendor's own command were found
/// and what its arguments come to.
pub open spec fn preset_entry(
    def: PresetModel,
    command_path: Option<Seq<char>>,
    cli_path: Option<Seq<char>>,
    args: Seq<Seq<char>>,
) -> EntryModel {
    EntryModel {
        id: def.id,
        label: def.label,
        avatar_url: Seq::empty(),
        availability: preset_availability(command_path, cli_path),
        command: if command_path is Some {
            Some(def.command)
        } else {
            None
        },
        binary_path: command_path,
        default_args: args,
        mcp_command: None,
        model_env_var: None,
        provider_env_var: None,
        thinking_env_var: None,
        install_hint: def.install_hint,
        install_instructions_url: def.install_instructions_url,
        can_auto_install: false,
        requires_external_cli: false,
        underlying_cli_path: cli_path,
        node_required: false,
        auth_status: AuthStatus::NotApplicable,
        login_hint: if command_path is Some {
            def.login_hint
        } else {
            None
        },
        source: HarnessSource::Preset,
        definition_env: Map::empty(),
        runtime_readiness: RuntimeReadinessStatus::Unknown,
    }
}

/// The entry of a preset, given where its command and the vendor's own command were found
/// and what its arguments come to.
pub fn entry_of_preset(
    def: &PresetHarness,
    command_path: Option<String>,
    cli_path: Option<String>,
    args: Vec<String>,
) -> (r: AcpRuntimeCatalogEntry)
    ensures
        r@ == preset_entry(
            def@,
            text::opt_text(command_path),
            text::opt_text(cli_path),
            text::texts(args@),
        ),
        r.definition_env.wf(),
{
    let found = command_path.is_some();
    let availability = if found {
        AcpAvailabilityStatus::Available
    } else if cli_path.is_some() {
        AcpAvailabilityStatus::AdapterMissing
    } else {
        AcpAvailabilityStatus::NotInstalled
    };
    let command: Option<String> = if found {
        Some(def.command.to_owned())
    } else {
        None
    };
    let login_hint: Option<String> = match def.login_hint {
        Some(hint) if found => Some(hint.to_owned()),
        _ => None,
    };
    AcpRuntimeCatalogEntry {
        id: def.id.to_owned(),
        label: def.label.to_owned(),
        avatar_url: String::new(),
        availability,
        command,
        binary_path: command_path,
        default_args: args,
        mcp_command: None,
        model_env_var: None,
        provider_env_var: None,
        thinking_env_var: None,
        install_hint: def.install_hint.to_owned(),
        install_instructions_url: def.install_instructions_url.to_owned(),
        can_auto_install: false,
        requires_external_cli: false,
        underlying_cli_path: cli_path,
        node_required: false,
        auth_status: AuthStatus::NotApplicable,
        login_hint,
        source: HarnessSource::Preset,
        definition_env: EnvMap::new(),
        runtime_readiness: RuntimeReadinessStatus::Unknown,
    }
}

/// The entry of a preset. `resolve` finds a command, and `normalize_args` tells what a
/// command's arguments come to.
pub fn preset_catalog_entry<
    R: Fn(&str) -> Option<String>,
    N: Fn(&str, Vec<String>) -> Vec<String>,
>(def: &PresetHarness, resolve: &R, normalize_args: &N) -> (r: AcpRuntimeCatalogEntry)
    requires
        call_requires(*resolve, (def.command,)),
        def.underlying_cli matches Some(cli) ==> call_requires(*resolve, (cli,)),
        forall|args: Vec<String>|
            text::texts(args@) == def@.args ==> #[trigger] call_requires(
                *normalize_args,
                (def.command, args),
            ),
    ensures
        r.definition_env.wf(),
        exists|
            command_path: Option<String>,
            cli_path: Option<String>,
            given: Vec<String>,
            args: Vec<String>,
        |
            {
                &&& call_ensures(*resolve, (def.command,), command_path)
                &&& match def.underlying_cli {
                    Some(cli) => call_ensures(*resolve, (cli,), cli_path),
                    None => cli_path is None,
                }
                &&& text::texts(given@) == def@.args
                &&& #[trigger] call_ensures(*normalize_args, (def.command, given), args)
                &&& r@ == #[trigger] preset_entry(
                    def@,
                    text::opt_text(command_path),
                    text::opt_text(cli_path),
                    text::texts(args@),
                )
            },
{
    let command_path = resolve(def.command);
    let cli_path: Option<String> = match def.underlying_cli {
        Some(cli) => resolve(cli),
        None => None,
    };
    let given: Vec<String> = runtime_metadata::to_strings(def.args);
    let ghost handed = given;
    let args = normalize_args(def.command, given);
    assert(call_ensures(*normalize_args, (def.command, handed), args));
    entry_of_preset(def, command_path, cli_path, args)
}

/// How OpenClaw is installed, and where its tools run.
pub const OPENCLAW_INSTALL_HINT: &'static str = "Buzz talks to OpenClaw through its ACP mode (openclaw acp), which relies on the OpenClaw Gateway daemon. Follow the setup guide to install both.\n\n\u{26a0}\u{fe0f}  Execution-locus note: `openclaw acp` runs tools inside the OpenClaw Gateway daemon, not in the Desktop process. Desktop-injected BUZZ_* env vars are visible to the `openclaw` harness process itself, but do NOT automatically reach the Gateway's execution environment. If your tools or agent logic needs BUZZ_* credentials at execution time, set them on the Gateway's own environment separately.";

/// Cursor.
pub open spec fn cursor_preset_model() -> PresetModel {
    PresetModel {
        id: "cursor"@,
        label: "Cursor"@,
        command: "cursor-agent"@,
        args: seq!["acp"@],
        install_instructions_url: "https://cursor.com/downloads"@,
        install_hint: "Buzz talks to Cursor through the cursor-agent CLI's ACP mode."@,
        underlying_cli: None,
        login_hint: None,
    }
}

/// Cursor.
fn cursor_preset() -> (r: PresetHarness)
    ensures
        r@ == cursor_preset_model(),
{
    let r = PresetHarness {
        id: "cursor",
        label: "Cursor",
        command: "cursor-agent",
        args: &["acp"],
        install_instructions_url: "https://cursor.com/downloads",
        install_hint: "Buzz talks to Cursor through the cursor-agent CLI's ACP mode.",
        underlying_cli: None,
        login_hint: None,
    };
    assert(r@.args =~= cursor_preset_model().args);
    r
}

/// Oh My PK.
pub open spec fn ompk_preset_model() -> PresetModel {
    PresetModel {
        id: "ompk"@,
        label: "Oh My PK"@,
        command: "ompk"@,
        args: seq!["acp"@],
        install_instructions_url: "https://github.com/kingkillery/oh-my-pk"@,
        install_hint: "Buzz talks to Oh My PK through its CLI's ACP mode (ompk acp)."@,
        underlying_cli: None,
        login_hint: Some("Sign in from a terminal with `ompk auth-broker login anthropic` (also `cursor`, `openai-codex`), or run `ompk` and use `/login`."@),
    }
}

/// Oh My PK.
fn ompk_preset() -> (r: PresetHarness)
    ensures
        r@ == ompk_preset_model(),
{
    let r = PresetHarness {
        id: "ompk",
        label: "Oh My PK",
        command: "ompk",
        args: &["acp"],
        install_instructions_url: "https://github.com/kingkillery/oh-my-pk",
        install_hint: "Buzz talks to Oh My PK through its CLI's ACP mode (ompk acp).",
        underlying_cli: None,
        login_hint: Some("Sign in from a terminal with `ompk auth-broker login anthropic` (also `cursor`, `openai-codex`), or run `ompk` and use `/login`."),
    };
    assert(r@.args =~= ompk_preset_model().args);
    r
}

/// Oh My Pi.
pub open spec fn omp_preset_model() -> PresetModel {
    PresetModel {
        id: "omp"@,
        label: "Oh My Pi"@,
        command: "omp"@,
        args: seq!["acp"@],
        install_instructions_url: ""@,
        install_hint: "Buzz talks to Oh My Pi through its CLI's ACP mode (omp acp)."@,
        underlying_cli: None,
        login_hint: None,
    }
}

/// Oh My Pi.
fn omp_preset() -> (r: PresetHarness)
    ensures
        r@ == omp_preset_model(),
{
    let r = PresetHarness {
        id: "omp",
        label: "Oh My Pi",
        command: "omp",
        args: &["acp"],
        install_instructions_url: "",
        install_hint: "Buzz talks to Oh My Pi through its CLI's ACP mode (omp acp).",
        underlying_cli: None,
        login_hint: None,
    };
    assert(r@.args =~= omp_preset_model().args);
    r
}

/// Grok Build.
pub open spec fn grok_preset_model() -> PresetModel {
    PresetModel {
        id: "grok"@,
        label: "Grok Build"@,
        command: "grok"@,
        args: seq!["agent"@, "--always-approve"@, "stdio"@],
        install_instructions_url: "https://build.x.ai/docs"@,
        install_hint: "Buzz talks to Grok Build through its CLI's agent stdio mode."@,
        underlying_cli: None,
        login_hint: None,
    }
}

/// Grok Build.
fn grok_preset() -> (r: PresetHarness)
    ensures
        r@ == grok_preset_model(),
{
    let r = PresetHarness {
        id: "grok",
        label: "Grok Build",
        command: "grok",
        args: &["agent", "--always-approve", "stdio"],
        install_instructions_url: "https://build.x.ai/docs",
        install_hint: "Buzz talks to Grok Build through its CLI's agent stdio mode.",
        underlying_cli: None,
        login_hint: None,
    };
    assert(r@.args =~= grok_preset_model().args);
    r
}

/// OpenCode.
pub open spec fn opencode_preset_model() -> PresetModel {
    PresetModel {
        id: "opencode"@,
        label: "OpenCode"@,
        command: "opencode"@,
        args: seq!["acp"@],
        install_instructions_url: "https://opencode.ai/docs"@,
        install_hint: "Buzz talks to OpenCode through its CLI's ACP mode (opencode acp)."@,
        underlying_cli: None,
        login_hint: None,
    }
}

/// OpenCode.
fn opencode_preset() -> (r: PresetHarness)
    ensures
        r@ == opencode_preset_model(),
{
    let r = PresetHarness {
        id: "opencode",
        label: "OpenCode",
        command: "opencode",
        args: &["acp"],
        install_instructions_url: "https://opencode.ai/docs",
        install_hint: "Buzz talks to OpenCode through its CLI's ACP mode (opencode acp).",
        underlying_cli: None,
        login_hint: None,
    };
    assert(r@.args =~= opencode_preset_model().args);
    r
}

/// Kimi Code.
pub open spec fn kimi_preset_model() -> PresetModel {
    PresetModel {
        id: "kimi"@,
        label: "Kimi Code"@,
        command: "kimi"@,
        args: seq!["acp"@],
        install_instructions_url: "https://kimi.ai/download"@,
        install_hint: "Buzz talks to Kimi Code through its CLI's ACP mode (kimi acp)."@,
        underlying_cli: None,
        login_hint: None,
    }
}

/// Kimi Code.
fn kimi_preset() -> (r: PresetHarness)
    ensures
        r@ == kimi_preset_model(),
{
    let r = PresetHarness {
        id: "kimi",
        label: "Kimi Code",
        command: "kimi",
        args: &["acp"],
        install_instructions_url: "https://kimi.ai/download",
        install_hint: "Buzz talks to Kimi Code through its CLI's ACP mode (kimi acp).",
        underlying_cli: None,
        login_hint: None,
    };
    assert(r@.args =~= kimi_preset_model().args);
    r
}

/// Amp.
pub open spec fn amp_preset_model() -> PresetModel {
    PresetModel {
        id: "amp"@,
        label: "Amp"@,
        command: "amp-acp"@,
        args: seq![],
        install_instructions_url: "https://github.com/tao12345666333/amp-acp"@,
        install_hint: "Buzz talks to the Amp CLI through the amp-acp adapter. Follow the setup guide to install the adapter so the amp-acp command is on your PATH."@,
        underlying_cli: Some("amp"@),
        login_hint: None,
    }
}

/// Amp.
fn amp_preset() -> (r: PresetHarness)
    ensures
        r@ == amp_preset_model(),
{
    let r = PresetHarness {
        id: "amp",
        label: "Amp",
        command: "amp-acp",
        args: &[],
        install_instructions_url: "https://github.com/tao12345666333/amp-acp",
        install_hint: "Buzz talks to the Amp CLI through the amp-acp adapter. Follow the setup guide to install the adapter so the amp-acp command is on your PATH.",
        underlying_cli: Some("amp"),
        login_hint: None,
    };
    assert(r@.args =~= amp_preset_model().args);
    r
}

/// Hermes Agent.
pub open spec fn hermes_preset_model() -> PresetModel {
    PresetModel {
        id: "hermes"@,
        label: "Hermes Agent"@,
        command: "hermes-acp"@,
        args: seq![],
        install_instructions_url: "https://hermes-agent.nousresearch.com"@,
        install_hint: "Buzz talks to Hermes Agent through its hermes-acp command."@,
        underlying_cli: None,
        login_hint: None,
    }
}

/// Hermes Agent.
fn hermes_preset() -> (r: PresetHarness)
    ensures
        r@ == hermes_preset_model(),
{
    let r = PresetHarness {
        id: "hermes",
        label: "Hermes Agent",
        command: "hermes-acp",
        args: &[],
        install_instructions_url: "https://hermes-agent.nousresearch.com",
        install_hint: "Buzz talks to Hermes Agent through its hermes-acp command.",
        underlying_cli: None,
        login_hint: None,
    };
    assert(r@.args =~= hermes_preset_model().args);
    r
}

/// OpenClaw.
pub open spec fn openclaw_preset_model() -> PresetModel {
    PresetModel {
        id: "openclaw"@,
        label: "OpenClaw"@,
        command: "openclaw"@,
        args: seq!["acp"@],
        install_instructions_url: "https://docs.openclaw.ai/start/getting-started"@,
        install_hint: OPENCLAW_INSTALL_HINT@,
        underlying_cli: None,
        login_hint: None,
    }
}

/// OpenClaw.
fn openclaw_preset() -> (r: PresetHarness)
    ensures
        r@ == openclaw_preset_model(),
{
    let r = PresetHarness {
        id: "openclaw",
        label: "OpenClaw",
        command: "openclaw",
        args: &["acp"],
        install_instructions_url: "https://docs.openclaw.ai/start/getting-started",
        install_hint: OPENCLAW_INSTALL_HINT,
        underlying_cli: None,
        login_hint: None,
    };
    assert(r@.args =~= openclaw_preset_model().args);
    r
}

/// The presets, in the order of the catalog.
pub open spec fn preset_models() -> Seq<PresetModel> {
    seq![
        cursor_preset_model(),
        ompk_preset_model(),
        omp_preset_model(),
        grok_preset_model(),
        opencode_preset_model(),
        kimi_preset_model(),
        amp_preset_model(),
        hermes_preset_model(),
        openclaw_preset_model(),
    ]
}

/// The presets, in the order of the catalog.
pub fn preset_harnesses() -> (r: Vec<PresetHarness>)
    ensures
        preset_views(r@) == preset_models(),
{
    let mut r: Vec<PresetHarness> = Vec::new();
    r.push(cursor_preset());
    r.push(ompk_preset());
    r.push(omp_preset());
    r.push(grok_preset());
    r.push(opencode_preset());
    r.push(kimi_preset());
    r.push(amp_preset());
    r.push(hermes_preset());
    r.push(openclaw_preset());
    assert(preset_views(r@) =~= preset_models());
    r
}

/// The definition that a preset stands for.
pub open spec fn preset_definition(p: PresetModel) -> DefinitionModel {
    DefinitionModel {
        id: p.id,
        label: p.label,
        command: p.command,
        args: p.args,
        env: Map::empty(),
        install_instructions_url: p.install_instructions_url,
        install_hint: p.install_hint,
    }
}

impl PresetHarness {
    /// The definition that the preset stands for.
    pub fn definition(&self) -> (r: HarnessDefinition)
        ensures
            r@ == preset_definition(self@),
            r.env.wf(),
    {
        HarnessDefinition {
            id: self.id.to_owned(),
            label: self.label.to_owned(),
            command: self.command.to_owned(),
            args: runtime_metadata::to_strings(self.args),
            env: EnvMap::new(),
            install_instructions_url: self.install_instructions_url.to_owned(),
            install_hint: self.install_hint.to_owned(),
        }
    }
}

/// The definitions that a list of presets stands for.
pub open spec fn preset_definitions(v: Seq<PresetModel>) -> Seq<DefinitionModel> {
    Seq::new(v.len(), |i: int| preset_definition(v[i]))
}

/// The definitions that the presets stand for.
pub fn preset_harness_definitions(presets: &Vec<PresetHarness>) -> (r: Vec<HarnessDefinition>)
    ensures
        definition::definition_views(r@) == preset_definitions(preset_views(presets@)),
        forall|i: int| 0 <= i < r@.len() ==> (#[trigger] r@[i]).env.wf(),
{
    let mut out: Vec<HarnessDefinition> = Vec::new();
    let mut i: usize = 0;
    while i < presets.len()
        invariant
            i <= presets.len(),
            out@.len() == i,
            forall|k: int|
                0 <= k < i ==> (#[trigger] out@[k])@ == preset_definition(presets@[k]@)
                    && out@[k].env.wf(),
        decreases presets.len() - i,
    {
        out.push(presets[i].definition());
        i += 1;
    }
    assert(definition::definition_views(out@) =~= preset_definitions(preset_views(presets@)));
    out
}

/// The ids of a list of presets.
pub open spec fn preset_ids(v: Seq<PresetModel>) -> Seq<Seq<char>> {
    Seq::new(v.len(), |i: int| v[i].id)
}

/// The ids of the presets.
pub fn preset_harness_ids(presets: &Vec<PresetHarness>) -> (r: Vec<&'static str>)
    ensures
        runtime_metadata::words(r@) == preset_ids(preset_views(presets@)),
{
    let mut out: Vec<&'static str> = Vec::new();
    let mut i: usize = 0;
    while i < presets.len()
        invariant
            i <= presets.len(),
            out@.len() == i,
            forall|k: int| 0 <= k < i ==> (#[trigger] out@[k])@ == presets@[k]@.id,
        decreases presets.len() - i,
    {
        out.push(presets[i].id);
        i += 1;
    }
    assert(runtime_metadata::words(out@) =~= preset_ids(preset_views(presets@)));
    out
}

/// A preset whose command is found can be chosen and tells how to sign in. One whose
/// command is not found shows no sign-in hint, and is told as an adapter that is missing
/// exactly where the vendor's own command was found.
pub proof fn law_command_alone_decides_availability(
    def: PresetModel,
    command_path: Option<Seq<char>>,
    cli_path: Option<Seq<char>>,
    args: Seq<Seq<char>>,
)
    ensures
        ({
            let entry = preset_entry(def, command_path, cli_path, args);
            &&& entry.availability is Available <==> command_path is Some
            &&& entry.availability is AdapterMissing <==> command_path is None && cli_path is Some
            &&& entry.availability is NotInstalled <==> command_path is None && cli_path is None
            &&& entry.command is Some <==> command_path is Some
            &&& entry.login_hint is Some ==> entry.availability is Available
            &&& entry.availability is Available ==> entry.login_hint == def.login_hint
            &&& !entry.requires_external_cli
        }),
{
}

} // verus!
