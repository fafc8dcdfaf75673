//! How a harness is found: by its id, or, for old records, by its command.
use vstd::prelude::*;

use crate::catalog::definition;
use crate::catalog::definition::{DefinitionModel, HarnessDefinition};
use crate::catalog::presets;
use crate::catalog::presets::{PresetHarness, PresetModel};
use crate::catalog::runtime_metadata;
use crate::catalog::runtime_metadata::{KnownAcpRuntime, RuntimeModel};
use crate::env_map;
use crate::env_map::EnvMap;
use crate::search;
use crate::text;

verus! {

/// What an id that names nothing is answered with, before the id.
pub const DANGLING_HARNESS_PREFIX: &'static str = "DANGLING_HARNESS_ID:";

/// Everything that can be launched: the richly described runtimes, the presets, and the
/// definitions of the user.
pub struct Catalog {
    pub runtimes: Vec<KnownAcpRuntime>,
    pub presets: Vec<PresetHarness>,
    pub customs: Vec<HarnessDefinition>,
}

/// What a catalog holds.
#[verifier::ext_equal]
pub struct CatalogModel {
    pub runtimes: Seq<RuntimeModel>,
    pub presets: Seq<PresetModel>,
    pub customs: Seq<DefinitionModel>,
}

impl View for Catalog {
    type V = CatalogModel;

    open spec fn view(&self) -> CatalogModel {
        CatalogModel {
            runtimes: runtime_metadata::runtime_views(self.runtimes@),
            presets: presets::preset_views(self.presets@),
            customs: definition::definition_views(self.customs@),
        }
    }
}

/// The position of the runtime with this id.
pub open spec fn runtime_at(m: CatalogModel, id: Seq<char>) -> Option<int> {
    search::first(m.runtimes, |r: RuntimeModel| r.id == id)
}

/// The position of the preset with this id.
pub open spec fn preset_at(m: CatalogModel, id: Seq<char>) -> Option<int> {
    search::first(m.presets, |p: PresetModel| p.id == id)
}

/// The position of the user's definition with this id.
pub open spec fn custom_at(m: CatalogModel, id: Seq<char>) -> Option<int> {
    search::first(m.customs, |d: DefinitionModel| d.id == id)
}

/// One harness of the catalog, with all that it is launched with.
pub struct CatalogHarnessLaunchSpec<'a> {
    pub runtime_id: String,
    pub command: String,
    pub default_args: Vec<String>,
    pub known_runtime: Option<&'a KnownAcpRuntime>,
    pub definition: Option<HarnessDefinition>,
}

/// What a launch description holds.
#[verifier::ext_equal]
pub struct LaunchModel {
    pub runtime_id: Seq<char>,
    pub command: Seq<char>,
    pub default_args: Seq<Seq<char>>,
    pub known_runtime: Option<RuntimeModel>,
    pub definition: Option<DefinitionModel>,
}

impl<'a> View for CatalogHarnessLaunchSpec<'a> {
    type V = LaunchModel;

    open spec fn view(&self) -> LaunchModel {
        LaunchModel {
            runtime_id: self.runtime_id@,
            command: self.command@,
            default_args: text::texts(self.default_args@),
            known_runtime: match self.known_runtime {
                Some(r) => Some(r@),
                None => None,
            },
            definition: match self.definition {
                Some(d) => Some(d@),
                None => None,
            },
        }
    }
}

impl LaunchModel {
    /// The variables that belong to the harness.
    pub open spec fn definition_env(self) -> Map<Seq<char>, Seq<char>> {
        match (self.known_runtime, self.definition) {
            (Some(runtime), _) => env_map::pairs_env(runtime.default_env),
            (None, Some(d)) => d.env,
            (None, None) => Map::empty(),
        }
    }
}

/// Pairs of words as an environment.
pub fn env_of_pairs(pairs: &[(&'static str, &'static str)]) -> (r: EnvMap)
    ensures
        r.wf(),
        r@ == env_map::pairs_env(runtime_metadata::word_pairs(pairs@)),
{
    let mut env = EnvMap::new();
    let mut i: usize = 0;
    let ghost all = runtime_metadata::word_pairs(pairs@);
    while i < pairs.len()
        invariant
            i <= pairs.len(),
            all == runtime_metadata::word_pairs(pairs@),
            env.wf(),
            env@ == env_map::pairs_env(all.take(i as int)),
        decreases pairs.len() - i,
    {
        assert(all.take(i + 1).drop_last() =~= all.take(i as int));
        env.insert(pairs[i].0.to_owned(), pairs[i].1.to_owned());
        i += 1;
    }
    assert(all.take(all.len() as int) =~= all);
    env
}

impl<'a> CatalogHarnessLaunchSpec<'a> {
    /// Whether the definition, where there is one, is well formed.
    pub open spec fn wf(self) -> bool {
        self.definition matches Some(d) ==> d.env.wf()
    }

    /// The variables that belong to the same harness as the command and the arguments.
    pub fn definition_env(&self) -> (r: EnvMap)
        requires
            self.wf(),
        ensures
            r.wf(),
            r@ == self@.definition_env(),
    {
        match self.known_runtime {
            Some(runtime) => env_of_pairs(runtime.default_env),
            None => match &self.definition {
                Some(d) => d.env.copy(),
                None => EnvMap::new(),
            },
        }
    }
}

/// What an id that names nothing is answered with.
pub fn dangling_harness_id(id: &str) -> (r: String)
    ensures
        r@ == DANGLING_HARNESS_PREFIX@ + id@,
{
    let mut s: String = DANGLING_HARNESS_PREFIX.to_owned();
    s.append(id);
    s
}

/// Whether `command` is what a runtime with these commands is started by: the first that is
/// available, and where none is, the preferred one, or the id where there is no command.
pub open spec fn preferred_command<A: Fn(&str) -> bool>(
    available: A,
    commands: Seq<&'static str>,
    id: Seq<char>,
    command: Seq<char>,
) -> bool {
    ||| exists|k: int|
        {
            &&& 0 <= k < commands.len()
            &&& command == (#[trigger] commands[k])@
            &&& call_ensures(available, (commands[k],), true)
            &&& forall|j: int|
                0 <= j < k ==> call_ensures(available, (#[trigger] commands[j],), false)
        }
    ||| {
        &&& forall|j: int|
            0 <= j < commands.len() ==> call_ensures(available, (#[trigger] commands[j],), false)
        &&& command == if commands.len() > 0 {
            commands[0]@
        } else {
            id
        }
    }
}

/// How a richly described runtime is launched.
pub fn rich_launch_spec<'a, A: Fn(&str) -> bool>(
    runtime: &'a KnownAcpRuntime,
    command_is_available: &A,
) -> (r: CatalogHarnessLaunchSpec<'a>)
    requires
        forall|c: &str| #[trigger] call_requires(*command_is_available, (c,)),
    ensures
        r.wf(),
        r@.runtime_id == runtime@.id,
        r@.default_args == runtime@.default_args,
        r@.known_runtime == Some(runtime@),
        r.known_runtime == Some(runtime),
        r@.definition is None,
        preferred_command(
            *command_is_available,
            runtime.commands@,
            runtime@.id,
            r@.command,
        ),
{
    let mut found: Option<&'static str> = None;
    let mut i: usize = 0;
    while i < runtime.commands.len() && found.is_none()
        invariant
            i <= runtime.commands.len(),
            forall|c: &str| #[trigger] call_requires(*command_is_available, (c,)),
            found is None ==> forall|j: int|
                0 <= j < i ==> call_ensures(
                    *command_is_available,
                    (#[trigger] runtime.commands@[j],),
                    false,
                ),
            found matches Some(c) ==> exists|k: int|
                {
                    &&& 0 <= k < runtime.commands@.len()
                    &&& c@ == (#[trigger] runtime.commands@[k])@
                    &&& call_ensures(*command_is_available, (runtime.commands@[k],), true)
                    &&& forall|j: int|
                        0 <= j < k ==> call_ensures(
                            *command_is_available,
                            (#[trigger] runtime.commands@[j],),
                            false,
                        )
                },
        decreases runtime.commands.len() - i,
    {
        let candidate: &'static str = runtime.commands[i];
        if command_is_available(candidate) {
            assert(candidate@ == runtime.commands@[i as int]@);
            found = Some(candidate);
        }
        i += 1;
    }
    let command: &'static str = match found {
        Some(c) => c,
        None => if runtime.commands.len() > 0 {
            runtime.commands[0]
        } else {
            runtime.id
        },
    };
    CatalogHarnessLaunchSpec {
        runtime_id: runtime.id.to_owned(),
        command: command.to_owned(),
        default_args: runtime_metadata::to_strings(runtime.default_args),
        known_runtime: Some(runtime),
        definition: None,
    }
}

/// How a harness is launched of which only the definition is known.
pub open spec fn flat_launch(d: DefinitionModel) -> LaunchModel {
    LaunchModel {
        runtime_id: d.id,
        command: d.command,
        default_args: d.args,
        known_runtime: None,
        definition: Some(d),
    }
}

/// How a harness is launched of which only the definition is known.
pub fn flat_launch_spec<'a>(definition: HarnessDefinition) -> (r: CatalogHarnessLaunchSpec<'a>)
    requires
        definition.env.wf(),
    ensures
        r.wf(),
        r@ == flat_launch(definition@),
        r.known_runtime is None,
{
    CatalogHarnessLaunchSpec {
        runtime_id: definition.id.clone(),
        command: definition.command.clone(),
        default_args: text::copy_list(&definition.args),
        known_runtime: None,
        definition: Some(definition),
    }
}

/// How the harness with this id is launched, where the id names one: a runtime before a
/// preset, a preset before a definition of the user.
pub open spec fn launches<A: Fn(&str) -> bool>(
    catalog: Catalog,
    id: Seq<char>,
    available: A,
    r: Result<LaunchModel, Seq<char>>,
) -> bool {
    match (runtime_at(catalog@, id), preset_at(catalog@, id), custom_at(catalog@, id)) {
        (Some(i), _, _) => {
            &&& r matches Ok(spec)
            &&& spec.runtime_id == id
            &&& spec.default_args == catalog@.runtimes[i].default_args
            &&& spec.known_runtime == Some(catalog@.runtimes[i])
            &&& spec.definition is None
            &&& preferred_command(available, catalog.runtimes@[i].commands@, id, spec.command)
        },
        (None, Some(i), _) => r == Ok::<LaunchModel, Seq<char>>(
            flat_launch(presets::preset_definition(catalog@.presets[i])),
        ),
        (None, None, Some(i)) => r == Ok::<LaunchModel, Seq<char>>(
            flat_launch(catalog@.customs[i]),
        ),
        (None, None, None) => r == Err::<LaunchModel, Seq<char>>(DANGLING_HARNESS_PREFIX@ + id),
    }
}

/// What an answer to an id holds.
pub open spec fn launch_view(r: Result<CatalogHarnessLaunchSpec, String>) -> Result<
    LaunchModel,
    Seq<char>,
> {
    match r {
        Ok(spec) => Ok(spec@),
        Err(reason) => Err(reason@),
    }
}

impl Catalog {
    /// Whether the user's definitions are well formed.
    pub open spec fn wf(self) -> bool {
        forall|i: int| 0 <= i < self.customs@.len() ==> (#[trigger] self.customs@[i]).env.wf()
    }

    /// The richly described runtime with this id.
    pub fn known_acp_runtime_exact(&self, id: &str) -> (r: Option<&KnownAcpRuntime>)
        ensures
            match runtime_at(self@, id@) {
                Some(i) => 0 <= i < self.runtimes@.len() && r == Some(&self.runtimes@[i])
                    && self.runtimes@[i]@ == self@.runtimes[i] && self.runtimes@[i]@.id == id@,
                None => r is None,
            },
    {
        let ghost p = |r: RuntimeModel| r.id == id@;
        let mut i: usize = 0;
        while i < self.runtimes.len()
            invariant
                i <= self.runtimes.len(),
                p == (|r: RuntimeModel| r.id == id@),
                forall|j: int| 0 <= j < i ==> !p(#[trigger] self@.runtimes[j]),
            decreases self.runtimes.len() - i,
        {
            assert(self@.runtimes[i as int] == self.runtimes@[i as int]@);
            if text::same(self.runtimes[i].id, id) {
                proof {
                    search::first_is(self@.runtimes, p, i as int);
                }
                return Some(&self.runtimes[i]);
            }
            i += 1;
        }
        proof {
            search::first_holds(self@.runtimes, p);
        }
        None
    }

    /// The preset with this id.
    pub fn preset_harness_by_id(&self, id: &str) -> (r: Option<&PresetHarness>)
        ensures
            match preset_at(self@, id@) {
                Some(i) => 0 <= i < self.presets@.len() && r == Some(&self.presets@[i])
                    && self.presets@[i]@ == self@.presets[i],
                None => r is None,
            },
    {
        let ghost p = |q: PresetModel| q.id == id@;
        let mut i: usize = 0;
        while i < self.presets.len()
            invariant
                i <= self.presets.len(),
                p == (|q: PresetModel| q.id == id@),
                forall|j: int| 0 <= j < i ==> !p(#[trigger] self@.presets[j]),
            decreases self.presets.len() - i,
        {
            assert(self@.presets[i as int] == self.presets@[i as int]@);
            if text::same(self.presets[i].id, id) {
                proof {
                    search::first_is(self@.presets, p, i as int);
                }
                return Some(&self.presets[i]);
            }
            i += 1;
        }
        proof {
            search::first_holds(self@.presets, p);
        }
        None
    }

    /// The user's definition with this id.
    pub fn lookup_loaded_harness_by_id(&self, id: &str) -> (r: Option<&HarnessDefinition>)
        ensures
            match custom_at(self@, id@) {
                Some(i) => 0 <= i < self.customs@.len() && r == Some(&self.customs@[i])
                    && self.customs@[i]@ == self@.customs[i],
                None => r is None,
            },
    {
        let ghost p = |d: DefinitionModel| d.id == id@;
        let mut i: usize = 0;
        while i < self.customs.len()
            invariant
                i <= self.customs.len(),
                p == (|d: DefinitionModel| d.id == id@),
                forall|j: int| 0 <= j < i ==> !p(#[trigger] self@.customs[j]),
            decreases self.customs.len() - i,
        {
            assert(self@.customs[i as int] == self.customs@[i as int]@);
            if text::same(self.customs[i].id.as_str(), id) {
                proof {
                    search::first_is(self@.customs, p, i as int);
                }
                return Some(&self.customs[i]);
            }
            i += 1;
        }
        proof {
            search::first_holds(self@.customs, p);
        }
        None
    }

    /// How the harness with this id is launched. An id that names nothing is an error and
    /// never falls back to anything.
    pub fn resolve_catalog_harness_by_id_with<'a, A: Fn(&str) -> bool>(
        &'a self,
        id: &str,
        command_is_available: &A,
    ) -> (r: Result<CatalogHarnessLaunchSpec<'a>, String>)
        requires
            self.wf(),
            forall|c: &str| #[trigger] call_requires(*command_is_available, (c,)),
        ensures
            launches(*self, id@, *command_is_available, launch_view(r)),
            r matches Ok(spec) ==> spec.wf(),
            r matches Ok(spec) ==> match runtime_at(self@, id@) {
                Some(i) => spec.known_runtime == Some(&self.runtimes@[i]),
                None => spec.known_runtime is None,
            },
    {
        match self.known_acp_runtime_exact(id) {
            Some(runtime) => {
                let spec = rich_launch_spec(runtime, command_is_available);
                assert(runtime_at(self@, id@) is Some);
                return Ok(spec);
            },
            None => {},
        }
        assert(runtime_at(self@, id@) is None);
        match self.preset_harness_by_id(id) {
            Some(preset) => {
                assert(preset_at(self@, id@) is Some);
                return Ok(flat_launch_spec(preset.definition()));
            },
            None => {},
        }
        assert(preset_at(self@, id@) is None);
        match self.lookup_loaded_harness_by_id(id) {
            Some(d) => {
                assert(custom_at(self@, id@) is Some);
                return Ok(flat_launch_spec(d.copy()));
            },
            None => {},
        }
        assert(custom_at(self@, id@) is None);
        Err(dangling_harness_id(id))
    }
}

/// Whether a character parts the names of a path.
pub open spec fn is_separator(c: char) -> bool {
    c == '/' || c == '\\'
}

/// What stands behind the last separator.
pub open spec fn base_name(s: Seq<char>) -> Seq<char>
    decreases s.len(),
{
    if s.len() == 0 || is_separator(s.last()) {
        Seq::empty()
    } else {
        base_name(s.drop_last()).push(s.last())
    }
}

/// A name without the extension of a Windows executable.
pub open spec fn without_exe(s: Seq<char>) -> Seq<char> {
    let n = s.len() - 4;
    if n >= 0 && (s.skip(n) == ".exe"@ || s.skip(n) == ".cmd"@ || s.skip(n) == ".bat"@) {
        s.take(n)
    } else {
        s
    }
}

/// What makes a command the same command wherever it is installed: its base name in lower
/// case, without the extension of a Windows executable.
pub open spec fn command_identity(command: Seq<char>) -> Seq<char> {
    without_exe(text::ascii_lower(base_name(command)))
}

proof fn base_name_suffix(s: Seq<char>, k: int)
    requires
        0 <= k <= s.len(),
        k == 0 || is_separator(s[k - 1]),
        forall|i: int| k <= i < s.len() ==> !is_separator(#[trigger] s[i]),
    ensures
        base_name(s) == s.skip(k),
    decreases s.len() - k,
{
    if k < s.len() {
        let t = s.drop_last();
        base_name_suffix(t, k);
        assert(s.skip(k) =~= t.skip(k).push(s.last()));
    } else {
        assert(s.skip(k) =~= Seq::empty());
    }
}

/// What makes a command the same command wherever it is installed.
pub fn normalize_command_identity(command: &str) -> (r: String)
    ensures
        r@ == command_identity(command@),
{
    let chars: Vec<char> = text::chars_of(command);
    let mut k: usize = chars.len();
    while k > 0 && chars[k - 1] != '/' && chars[k - 1] != '\\'
        invariant
            k <= chars.len(),
            chars@ == command@,
            forall|i: int| k <= i < chars@.len() ==> !is_separator(#[trigger] chars@[i]),
        decreases k,
    {
        k -= 1;
    }
    proof {
        base_name_suffix(command@, k as int);
    }
    let base = command.substring_char(k, chars.len());
    assert(base@ =~= command@.skip(k as int));
    let lower: String = base.to_ascii_lowercase();
    let n: usize = lower.as_str().unicode_len();
    if n >= 4 {
        let tail = lower.as_str().substring_char(n - 4, n);
        assert(tail@ =~= lower@.skip(n - 4));
        if text::same(tail, ".exe") || text::same(tail, ".cmd") || text::same(tail, ".bat") {
            let head = lower.as_str().substring_char(0, n - 4);
            assert(head@ =~= lower@.take(n - 4));
            return head.to_owned();
        }
    }
    lower
}

/// Whether one of the words names this command.
pub open spec fn names_command(v: Seq<Seq<char>>, identity: Seq<char>) -> bool {
    exists|i: int| 0 <= i < v.len() && command_identity(#[trigger] v[i]) == identity
}

/// Whether a runtime is known by this command.
pub open spec fn runtime_answers(r: RuntimeModel, identity: Seq<char>) -> bool {
    identity == r.id || names_command(r.commands, identity) || names_command(r.aliases, identity)
}

/// Whether a preset is known by this command.
pub open spec fn preset_answers(p: PresetModel, identity: Seq<char>) -> bool {
    identity == p.id || command_identity(p.command) == identity
}

/// Whether a definition is known by this command.
pub open spec fn definition_answers(d: DefinitionModel, identity: Seq<char>) -> bool {
    identity == d.id || command_identity(d.command) == identity
}

/// Whether one of the words names this command.
fn words_name(v: &[&'static str], identity: &str) -> (r: bool)
    ensures
        r == names_command(runtime_metadata::words(v@), identity@),
{
    let ghost all = runtime_metadata::words(v@);
    let mut i: usize = 0;
    while i < v.len()
        invariant
            i <= v.len(),
            all == runtime_metadata::words(v@),
            forall|j: int| 0 <= j < i ==> command_identity(#[trigger] all[j]) != identity@,
        decreases v.len() - i,
    {
        assert(all[i as int] == v@[i as int]@);
        let other: String = normalize_command_identity(v[i]);
        if text::same(other.as_str(), identity) {
            return true;
        }
        i += 1;
    }
    false
}

/// Whether a runtime is known by this command.
fn runtime_named(r: &KnownAcpRuntime, identity: &str) -> (b: bool)
    ensures
        b == runtime_answers(r@, identity@),
{
    text::same(identity, r.id) || words_name(r.commands, identity) || words_name(
        r.aliases,
        identity,
    )
}

/// The ids of all harnesses that are known by this command, in the order of the catalog.
pub open spec fn answering_ids(m: CatalogModel, identity: Seq<char>) -> Seq<Seq<char>> {
    answering_runtimes(m.runtimes, identity) + answering_presets(m.presets, identity)
        + answering_customs(m.customs, identity)
}

/// The ids of the runtimes that are known by this command.
pub open spec fn answering_runtimes(v: Seq<RuntimeModel>, identity: Seq<char>) -> Seq<Seq<char>>
    decreases v.len(),
{
    if v.len() == 0 {
        Seq::empty()
    } else if runtime_answers(v.last(), identity) {
        answering_runtimes(v.drop_last(), identity).push(v.last().id)
    } else {
        answering_runtimes(v.drop_last(), identity)
    }
}

/// The ids of the presets that are known by this command.
pub open spec fn answering_presets(v: Seq<PresetModel>, identity: Seq<char>) -> Seq<Seq<char>>
    decreases v.len(),
{
    if v.len() == 0 {
        Seq::empty()
    } else if preset_answers(v.last(), identity) {
        answering_presets(v.drop_last(), identity).push(v.last().id)
    } else {
        answering_presets(v.drop_last(), identity)
    }
}

/// The ids of the user's definitions that are known by this command.
pub open spec fn answering_customs(v: Seq<DefinitionModel>, identity: Seq<char>) -> Seq<Seq<char>>
    decreases v.len(),
{
    if v.len() == 0 {
        Seq::empty()
    } else if definition_answers(v.last(), identity) {
        answering_customs(v.drop_last(), identity).push(v.last().id)
    } else {
        answering_customs(v.drop_last(), identity)
    }
}

/// What all members of a sequence are, where it has members and they are all the same.
pub open spec fn unanimous(v: Seq<Seq<char>>) -> Option<Seq<char>> {
    if v.len() > 0 && forall|i: int| 0 <= i < v.len() ==> #[trigger] v[i] == v[0] {
        Some(v[0])
    } else {
        None
    }
}

/// The id of the one harness that is known by a command.
pub open spec fn inferred_id(m: CatalogModel, command: Seq<char>) -> Option<Seq<char>> {
    let identity = command_identity(command);
    if identity.len() == 0 {
        None
    } else {
        unanimous(answering_ids(m, identity))
    }
}

impl Catalog {
    /// The ids of all harnesses that are known by this command.
    fn ids_answering(&self, identity: &str) -> (r: Vec<String>)
        ensures
            text::texts(r@) == answering_ids(self@, identity@),
    {
        let mut out: Vec<String> = Vec::new();
        let ghost runtimes = self@.runtimes;
        let ghost presets = self@.presets;
        let ghost customs = self@.customs;
        let mut i: usize = 0;
        assert(text::texts(out@) =~= answering_runtimes(runtimes.take(0), identity@));
        while i < self.runtimes.len()
            invariant
                i <= self.runtimes.len(),
                runtimes == self@.runtimes,
                text::texts(out@) == answering_runtimes(runtimes.take(i as int), identity@),
            decreases self.runtimes.len() - i,
        {
            assert(runtimes.take(i + 1).drop_last() =~= runtimes.take(i as int));
            assert(runtimes.take(i + 1).last() == self.runtimes@[i as int]@);
            if runtime_named(&self.runtimes[i], identity) {
                let ghost before = text::texts(out@);
                out.push(self.runtimes[i].id.to_owned());
                assert(text::texts(out@) =~= before.push(self.runtimes@[i as int]@.id));
            }
            i += 1;
        }
        assert(runtimes.take(runtimes.len() as int) =~= runtimes);
        let ghost first = text::texts(out@);
        let mut i: usize = 0;
        assert(first =~= first + answering_presets(presets.take(0), identity@));
        while i < self.presets.len()
            invariant
                i <= self.presets.len(),
                presets == self@.presets,
                text::texts(out@) == first + answering_presets(
                    presets.take(i as int),
                    identity@,
                ),
            decreases self.presets.len() - i,
        {
            assert(presets.take(i + 1).drop_last() =~= presets.take(i as int));
            assert(presets.take(i + 1).last() == self.presets@[i as int]@);
            let p = &self.presets[i];
            let own: String = normalize_command_identity(p.command);
            if text::same(identity, p.id) || text::same(own.as_str(), identity) {
                let ghost before = text::texts(out@);
                out.push(p.id.to_owned());
                assert(text::texts(out@) =~= before.push(p@.id));
                assert(text::texts(out@) =~= first + answering_presets(
                    presets.take(i + 1),
                    identity@,
                ));
            }
            i += 1;
        }
        assert(presets.take(presets.len() as int) =~= presets);
        let ghost second = text::texts(out@);
        let mut i: usize = 0;
        assert(second =~= second + answering_customs(customs.take(0), identity@));
        while i < self.customs.len()
            invariant
                i <= self.customs.len(),
                customs == self@.customs,
                text::texts(out@) == second + answering_customs(
                    customs.take(i as int),
                    identity@,
                ),
            decreases self.customs.len() - i,
        {
            assert(customs.take(i + 1).drop_last() =~= customs.take(i as int));
            assert(customs.take(i + 1).last() == self.customs@[i as int]@);
            let d = &self.customs[i];
            let own: String = normalize_command_identity(d.command.as_str());
            if text::same(identity, d.id.as_str()) || text::same(own.as_str(), identity) {
                let ghost before = text::texts(out@);
                out.push(d.id.clone());
                assert(text::texts(out@) =~= before.push(d@.id));
                assert(text::texts(out@) =~= second + answering_customs(
                    customs.take(i + 1),
                    identity@,
                ));
            }
            i += 1;
        }
        assert(customs.take(customs.len() as int) =~= customs);
        out
    }

    /// The id of the one harness that is known by a command. For records that keep a
    /// command and no id: where more than one harness is known by it, none is inferred.
    pub fn unique_catalog_runtime_id_for_command(&self, command: &str) -> (r: Option<String>)
        ensures
            text::opt_text(r) == inferred_id(self@, command@),
    {
        let identity: String = normalize_command_identity(command);
        if identity.as_str().is_empty() {
            return None;
        }
        let ids: Vec<String> = self.ids_answering(identity.as_str());
        let ghost listed = text::texts(ids@);
        if ids.len() == 0 {
            return None;
        }
        let mut i: usize = 1;
        while i < ids.len()
            invariant
                1 <= i <= ids.len(),
                listed == text::texts(ids@),
                listed == answering_ids(self@, identity@),
                identity@ == command_identity(command@),
                identity@.len() > 0,
                forall|j: int| 0 <= j < i ==> #[trigger] listed[j] == listed[0],
            decreases ids.len() - i,
        {
            if !text::same(ids[i].as_str(), ids[0].as_str()) {
                assert(listed[i as int] != listed[0]);
                return None;
            }
            assert(listed[i as int] == listed[0]);
            i += 1;
        }
        Some(ids[0].clone())
    }

    /// The first richly described runtime that is known by a command.
    pub fn known_acp_runtime(&self, command: &str) -> (r: Option<&KnownAcpRuntime>)
        ensures
            match runtime_by_command(self@, command@) {
                Some(i) => 0 <= i < self.runtimes@.len() && r == Some(&self.runtimes@[i])
                    && self.runtimes@[i]@ == self@.runtimes[i],
                None => r is None,
            },
    {
        let identity: String = normalize_command_identity(command);
        let ghost p = |r: RuntimeModel| runtime_answers(r, command_identity(command@));
        let mut i: usize = 0;
        while i < self.runtimes.len()
            invariant
                i <= self.runtimes.len(),
                identity@ == command_identity(command@),
                p == (|r: RuntimeModel| runtime_answers(r, command_identity(command@))),
                forall|j: int| 0 <= j < i ==> !p(#[trigger] self@.runtimes[j]),
            decreases self.runtimes.len() - i,
        {
            assert(self@.runtimes[i as int] == self.runtimes@[i as int]@);
            if runtime_named(&self.runtimes[i], identity.as_str()) {
                proof {
                    search::first_is(self@.runtimes, p, i as int);
                }
                return Some(&self.runtimes[i]);
            }
            i += 1;
        }
        proof {
            search::first_holds(self@.runtimes, p);
        }
        None
    }
}

/// The position of the first runtime that is known by a command.
pub open spec fn runtime_by_command(m: CatalogModel, command: Seq<char>) -> Option<int> {
    search::first(m.runtimes, |r: RuntimeModel| runtime_answers(r, command_identity(command)))
}

/// A command is taken for a harness only where every harness that is known by it has that
/// id: two that share a command leave it without one.
pub proof fn law_shared_command_infers_nothing(
    m: CatalogModel,
    command: Seq<char>,
    a: Seq<char>,
    b: Seq<char>,
)
    requires
        a != b,
        answering_ids(m, command_identity(command)).contains(a),
        answering_ids(m, command_identity(command)).contains(b),
    ensures
        inferred_id(m, command) is None,
{
    let v = answering_ids(m, command_identity(command));
    let i = v.index_of(a);
    let j = v.index_of(b);
    assert(v[i] == a && v[j] == b);
}

/// The identity of a command does not depend on the directory it is named in.
pub proof fn law_identity_ignores_directories(directory: Seq<char>, name: Seq<char>, separator: char)
    requires
        is_separator(separator),
        forall|i: int| 0 <= i < name.len() ==> !is_separator(#[trigger] name[i]),
    ensures
        command_identity(directory.push(separator) + name) == command_identity(name),
{
    let s = directory.push(separator) + name;
    let k = directory.len() as int + 1;
    assert forall|i: int| k <= i < s.len() implies !is_separator(#[trigger] s[i]) by {
        assert(s[i] == name[i - k]);
    }
    base_name_suffix(s, k);
    base_name_suffix(name, 0);
    assert(s.skip(k) =~= name);
    assert(name.skip(0) =~= name);
}

} // verus!
