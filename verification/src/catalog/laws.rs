//! What is found in a catalog, told by the fields of its entries.
use vstd::prelude::*;

use crate::catalog::catalog_ids;
use crate::catalog::definition::DefinitionModel;
use crate::catalog::identity;
use crate::catalog::identity::{Catalog, CatalogModel, LaunchModel};
use crate::catalog::presets;
use crate::catalog::presets::PresetModel;
use crate::catalog::runtime_metadata;
use crate::catalog::runtime_metadata::{
    AuthenticationModel, HarnessSource, RuntimeModel, VendorWords,
};
use crate::env_map;
use crate::search;
use crate::text;

verus! {

/// Whether `i` is the place of the first runtime with this id.
pub open spec fn first_runtime(m: CatalogModel, id: Seq<char>, i: int) -> bool {
    &&& 0 <= i < m.runtimes.len()
    &&& m.runtimes[i].id == id
    &&& forall|j: int| 0 <= j < i ==> (#[trigger] m.runtimes[j]).id != id
}

/// Whether no runtime has this id.
pub open spec fn no_runtime(m: CatalogModel, id: Seq<char>) -> bool {
    forall|j: int| 0 <= j < m.runtimes.len() ==> (#[trigger] m.runtimes[j]).id != id
}

/// Whether `i` is the place of the first preset with this id.
pub open spec fn first_preset(m: CatalogModel, id: Seq<char>, i: int) -> bool {
    &&& 0 <= i < m.presets.len()
    &&& m.presets[i].id == id
    &&& forall|j: int| 0 <= j < i ==> (#[trigger] m.presets[j]).id != id
}

/// Whether no preset has this id.
pub open spec fn no_preset(m: CatalogModel, id: Seq<char>) -> bool {
    forall|j: int| 0 <= j < m.presets.len() ==> (#[trigger] m.presets[j]).id != id
}

/// Whether `i` is the place of the first definition of the user with this id.
pub open spec fn first_custom(m: CatalogModel, id: Seq<char>, i: int) -> bool {
    &&& 0 <= i < m.customs.len()
    &&& m.customs[i].id == id
    &&& forall|j: int| 0 <= j < i ==> (#[trigger] m.customs[j]).id != id
}

/// Whether no definition of the user has this id.
pub open spec fn no_custom(m: CatalogModel, id: Seq<char>) -> bool {
    forall|j: int| 0 <= j < m.customs.len() ==> (#[trigger] m.customs[j]).id != id
}

/// An id finds the first entry of its kind that has it, letter for letter, and nothing exactly
/// where no entry has it.
pub proof fn law_ids_are_found_exactly(m: CatalogModel, id: Seq<char>, i: int)
    ensures
        identity::runtime_at(m, id) == Some(i) <==> first_runtime(m, id, i),
        identity::runtime_at(m, id) is None <==> no_runtime(m, id),
        identity::preset_at(m, id) == Some(i) <==> first_preset(m, id, i),
        identity::preset_at(m, id) is None <==> no_preset(m, id),
        identity::custom_at(m, id) == Some(i) <==> first_custom(m, id, i),
        identity::custom_at(m, id) is None <==> no_custom(m, id),
{
    let r = |r: RuntimeModel| r.id == id;
    let p = |p: PresetModel| p.id == id;
    let d = |d: DefinitionModel| d.id == id;
    search::first_holds(m.runtimes, r);
    search::first_holds(m.presets, p);
    search::first_holds(m.customs, d);
    if first_runtime(m, id, i) {
        assert(r(m.runtimes[i]));
        search::first_is(m.runtimes, r, i);
    }
    if first_preset(m, id, i) {
        assert(p(m.presets[i]));
        search::first_is(m.presets, p, i);
    }
    if first_custom(m, id, i) {
        assert(d(m.customs[i]));
        search::first_is(m.customs, d, i);
    }
    if let Some(k) = identity::runtime_at(m, id) {
        assert(r(m.runtimes[k]));
        assert forall|j: int| 0 <= j < k implies (#[trigger] m.runtimes[j]).id != id by {
            assert(!r(m.runtimes[j]));
        }
    } else {
        assert forall|j: int| 0 <= j < m.runtimes.len() implies (#[trigger] m.runtimes[j]).id
            != id by {
            assert(!r(m.runtimes[j]));
        }
    }
    if let Some(k) = identity::preset_at(m, id) {
        assert(p(m.presets[k]));
        assert forall|j: int| 0 <= j < k implies (#[trigger] m.presets[j]).id != id by {
            assert(!p(m.presets[j]));
        }
    } else {
        assert forall|j: int| 0 <= j < m.presets.len() implies (#[trigger] m.presets[j]).id
            != id by {
            assert(!p(m.presets[j]));
        }
    }
    if let Some(k) = identity::custom_at(m, id) {
        assert(d(m.customs[k]));
        assert forall|j: int| 0 <= j < k implies (#[trigger] m.customs[j]).id != id by {
            assert(!d(m.customs[j]));
        }
    } else {
        assert forall|j: int| 0 <= j < m.customs.len() implies (#[trigger] m.customs[j]).id
            != id by {
            assert(!d(m.customs[j]));
        }
    }
}

/// Whether `spec` launches what a definition with these fields defines.
pub open spec fn launches_definition(
    spec: LaunchModel,
    id: Seq<char>,
    command: Seq<char>,
    args: Seq<Seq<char>>,
    env: Map<Seq<char>, Seq<char>>,
) -> bool {
    &&& spec.runtime_id == id
    &&& spec.command == command
    &&& spec.default_args == args
    &&& spec.known_runtime is None
    &&& spec.definition matches Some(d) && d.id == id && d.command == command && d.args == args
        && d.env == env
    &&& spec.definition_env() == env
}

/// An id launches the runtime that has it, whatever presets and definitions have it too; a preset
/// only where no runtime has it; a definition of the user only where neither has it; and where
/// nothing has it, it is answered with the id behind a fixed word, and nothing is launched.
pub proof fn law_ids_launch_what_they_name<A: Fn(&str) -> bool>(
    catalog: Catalog,
    id: Seq<char>,
    available: A,
    r: Result<LaunchModel, Seq<char>>,
    i: int,
)
    requires
        identity::launches(catalog, id, available, r),
    ensures
        first_runtime(catalog@, id, i) ==> (r matches Ok(spec) && spec.runtime_id == id
            && spec.default_args == catalog@.runtimes[i].default_args && spec.known_runtime == Some(
            catalog@.runtimes[i],
        ) && spec.definition is None && spec.definition_env() == env_map::pairs_env(
            catalog@.runtimes[i].default_env,
        )),
        no_runtime(catalog@, id) && first_preset(catalog@, id, i) ==> (r matches Ok(spec)
            && launches_definition(
            spec,
            id,
            catalog@.presets[i].command,
            catalog@.presets[i].args,
            Map::empty(),
        )),
        no_runtime(catalog@, id) && no_preset(catalog@, id) && first_custom(catalog@, id, i) ==> (r
            matches Ok(spec) && launches_definition(
            spec,
            id,
            catalog@.customs[i].command,
            catalog@.customs[i].args,
            catalog@.customs[i].env,
        )),
        r is Err <==> no_runtime(catalog@, id) && no_preset(catalog@, id) && no_custom(
            catalog@,
            id,
        ),
        r matches Err(reason) ==> reason == "DANGLING_HARNESS_ID:"@ + id,
{
    law_ids_are_found_exactly(catalog@, id, i);
}

/// Where it is settled which commands are available, a runtime is started by the first of its
/// commands that is, by its first command where none is, and by its id where it has no command.
pub proof fn law_the_first_available_command_starts_a_runtime<A: Fn(&str) -> bool>(
    available: A,
    found: spec_fn(Seq<char>) -> bool,
    commands: Seq<&'static str>,
    id: Seq<char>,
    command: Seq<char>,
    k: int,
)
    requires
        forall|c: &str, b: bool| #[trigger] call_ensures(available, (c,), b) ==> b == found(c@),
        identity::preferred_command(available, commands, id, command),
    ensures
        0 <= k < commands.len() && found(commands[k]@) && (forall|j: int|
            0 <= j < k ==> !found((#[trigger] commands[j])@)) ==> command == commands[k]@,
        commands.len() > 0 && (forall|j: int|
            0 <= j < commands.len() ==> !found((#[trigger] commands[j])@)) ==> command
            == commands[0]@,
        commands.len() == 0 ==> command == id,
{
    if 0 <= k < commands.len() && found(commands[k]@) && (forall|j: int|
        0 <= j < k ==> !found((#[trigger] commands[j])@)) {
        if exists|n: int|
            {
                &&& 0 <= n < commands.len()
                &&& command == (#[trigger] commands[n])@
                &&& call_ensures(available, (commands[n],), true)
                &&& forall|j: int|
                    0 <= j < n ==> call_ensures(available, (#[trigger] commands[j],), false)
            } {
            let n = choose|n: int|
                {
                    &&& 0 <= n < commands.len()
                    &&& command == (#[trigger] commands[n])@
                    &&& call_ensures(available, (commands[n],), true)
                    &&& forall|j: int|
                        0 <= j < n ==> call_ensures(available, (#[trigger] commands[j],), false)
                };
            if k < n {
                assert(call_ensures(available, (commands[k],), false));
            } else if n < k {
                assert(!found(commands[n]@));
            }
        } else {
            assert(call_ensures(available, (commands[k],), false));
        }
    }
}

/// Whether a harness of the catalog with this id is known by a command of this identity: by its
/// id, or by one of its commands or aliases.
pub open spec fn known_by(m: CatalogModel, identity: Seq<char>, id: Seq<char>) -> bool {
    ||| exists|i: int|
        0 <= i < m.runtimes.len() && (#[trigger] m.runtimes[i]).id == id && (identity == id
            || among(m.runtimes[i].commands, identity) || among(m.runtimes[i].aliases, identity))
    ||| exists|i: int|
        0 <= i < m.presets.len() && (#[trigger] m.presets[i]).id == id && (identity == id
            || identity::command_identity(m.presets[i].command) == identity)
    ||| exists|i: int|
        0 <= i < m.customs.len() && (#[trigger] m.customs[i]).id == id && (identity == id
            || identity::command_identity(m.customs[i].command) == identity)
}

/// Whether one of these commands has this identity.
pub open spec fn among(commands: Seq<Seq<char>>, identity: Seq<char>) -> bool {
    exists|k: int|
        0 <= k < commands.len() && identity::command_identity(#[trigger] commands[k]) == identity
}

proof fn runtimes_answer(v: Seq<RuntimeModel>, identity: Seq<char>, id: Seq<char>)
    ensures
        identity::answering_runtimes(v, identity).contains(id) <==> exists|i: int|
            0 <= i < v.len() && (#[trigger] v[i]).id == id && (identity == id || among(
                v[i].commands,
                identity,
            ) || among(v[i].aliases, identity)),
    decreases v.len(),
{
    if v.len() > 0 {
        let rest = v.drop_last();
        let before = identity::answering_runtimes(rest, identity);
        let all = identity::answering_runtimes(v, identity);
        runtimes_answer(rest, identity, id);
        assert(v[v.len() - 1] == v.last());
        if identity::runtime_answers(v.last(), identity) {
            assert(all == before.push(v.last().id));
            assert(all[before.len() as int] == v.last().id);
        }
        if before.contains(id) {
            let k = before.index_of(id);
            assert(all[k] == id);
            let i = choose|i: int|
                0 <= i < rest.len() && (#[trigger] rest[i]).id == id && (identity == id || among(
                    rest[i].commands,
                    identity,
                ) || among(rest[i].aliases, identity));
            assert(v[i] == rest[i]);
        }
        if all.contains(id) && !before.contains(id) {
            let k = all.index_of(id);
            if k < before.len() {
                assert(before[k] == id);
            }
        }
        assert forall|i: int|
            0 <= i < v.len() && (#[trigger] v[i]).id == id && (identity == id || among(
                v[i].commands,
                identity,
            ) || among(v[i].aliases, identity)) implies all.contains(id) by {
            if i < rest.len() {
                assert(rest[i] == v[i]);
            }
        }
    } else {
        assert(identity::answering_runtimes(v, identity).len() == 0);
    }
}

proof fn presets_answer(v: Seq<PresetModel>, identity: Seq<char>, id: Seq<char>)
    ensures
        identity::answering_presets(v, identity).contains(id) <==> exists|i: int|
            0 <= i < v.len() && (#[trigger] v[i]).id == id && (identity == id
                || identity::command_identity(v[i].command) == identity),
    decreases v.len(),
{
    if v.len() > 0 {
        let rest = v.drop_last();
        let before = identity::answering_presets(rest, identity);
        let all = identity::answering_presets(v, identity);
        presets_answer(rest, identity, id);
        assert(v[v.len() - 1] == v.last());
        if identity::preset_answers(v.last(), identity) {
            assert(all == before.push(v.last().id));
            assert(all[before.len() as int] == v.last().id);
        }
        if before.contains(id) {
            let k = before.index_of(id);
            assert(all[k] == id);
            let i = choose|i: int|
                0 <= i < rest.len() && (#[trigger] rest[i]).id == id && (identity == id
                    || identity::command_identity(rest[i].command) == identity);
            assert(v[i] == rest[i]);
        }
        if all.contains(id) && !before.contains(id) {
            let k = all.index_of(id);
            if k < before.len() {
                assert(before[k] == id);
            }
        }
        assert forall|i: int|
            0 <= i < v.len() && (#[trigger] v[i]).id == id && (identity == id
                || identity::command_identity(v[i].command) == identity) implies all.contains(
            id,
        ) by {
            if i < rest.len() {
                assert(rest[i] == v[i]);
            }
        }
    } else {
        assert(identity::answering_presets(v, identity).len() == 0);
    }
}

proof fn customs_answer(v: Seq<DefinitionModel>, identity: Seq<char>, id: Seq<char>)
    ensures
        identity::answering_customs(v, identity).contains(id) <==> exists|i: int|
            0 <= i < v.len() && (#[trigger] v[i]).id == id && (identity == id
                || identity::command_identity(v[i].command) == identity),
    decreases v.len(),
{
    if v.len() > 0 {
        let rest = v.drop_last();
        let before = identity::answering_customs(rest, identity);
        let all = identity::answering_customs(v, identity);
        customs_answer(rest, identity, id);
        assert(v[v.len() - 1] == v.last());
        if identity::definition_answers(v.last(), identity) {
            assert(all == before.push(v.last().id));
            assert(all[before.len() as int] == v.last().id);
        }
        if before.contains(id) {
            let k = before.index_of(id);
            assert(all[k] == id);
            let i = choose|i: int|
                0 <= i < rest.len() && (#[trigger] rest[i]).id == id && (identity == id
                    || identity::command_identity(rest[i].command) == identity);
            assert(v[i] == rest[i]);
        }
        if all.contains(id) && !before.contains(id) {
            let k = all.index_of(id);
            if k < before.len() {
                assert(before[k] == id);
            }
        }
        assert forall|i: int|
            0 <= i < v.len() && (#[trigger] v[i]).id == id && (identity == id
                || identity::command_identity(v[i].command) == identity) implies all.contains(
            id,
        ) by {
            if i < rest.len() {
                assert(rest[i] == v[i]);
            }
        }
    } else {
        assert(identity::answering_customs(v, identity).len() == 0);
    }
}

/// The ids that answer to a command are exactly those of the harnesses known by it, of whatever
/// kind.
proof fn answering_is_being_known(m: CatalogModel, identity: Seq<char>, id: Seq<char>)
    ensures
        identity::answering_ids(m, identity).contains(id) <==> known_by(m, identity, id),
{
    runtimes_answer(m.runtimes, identity, id);
    presets_answer(m.presets, identity, id);
    customs_answer(m.customs, identity, id);
    let a = identity::answering_runtimes(m.runtimes, identity);
    let b = identity::answering_presets(m.presets, identity);
    let c = identity::answering_customs(m.customs, identity);
    let all = identity::answering_ids(m, identity);
    if a.contains(id) {
        assert(all[a.index_of(id)] == id);
    }
    if b.contains(id) {
        assert(all[a.len() + b.index_of(id)] == id);
    }
    if c.contains(id) {
        assert(all[a.len() + b.len() + c.index_of(id)] == id);
    }
    if all.contains(id) {
        let k = all.index_of(id);
        if k < a.len() {
            assert(a[k] == id);
        } else if k < a.len() + b.len() {
            assert(b[k - a.len()] == id);
        } else {
            assert(c[k - a.len() - b.len()] == id);
        }
    }
}

/// A command stands for a harness exactly where it has a name, that harness is known by it, and
/// every harness that is known by it has the same id.
pub proof fn law_commands_stand_for_their_only_harness(
    m: CatalogModel,
    command: Seq<char>,
    id: Seq<char>,
)
    ensures
        identity::inferred_id(m, command) == Some(id) <==> {
            &&& identity::command_identity(command).len() > 0
            &&& known_by(m, identity::command_identity(command), id)
            &&& forall|other: Seq<char>| #[trigger]
                known_by(m, identity::command_identity(command), other) ==> other == id
        },
{
    let identity = identity::command_identity(command);
    let all = identity::answering_ids(m, identity);
    assert forall|other: Seq<char>| #[trigger] known_by(m, identity, other) <==> all.contains(
        other,
    ) by {
        answering_is_being_known(m, identity, other);
    }
    if all.len() > 0 {
        assert(all.contains(all[0]));
        assert forall|i: int| 0 <= i < all.len() implies known_by(m, identity, #[trigger] all[i]) by {
            assert(all.contains(all[i]));
        }
    }
    if identity::inferred_id(m, command) == Some(id) {
        assert forall|other: Seq<char>| #[trigger] known_by(m, identity, other) implies other
            == id by {
            assert(all.contains(other));
            assert(all[all.index_of(other)] == all[0]);
        }
    }
}

/// A command finds the first runtime that is known by it, in the order of the catalog.
pub proof fn law_commands_find_the_first_runtime(m: CatalogModel, command: Seq<char>, i: int)
    ensures
        identity::runtime_by_command(m, command) == Some(i) <==> {
            &&& 0 <= i < m.runtimes.len()
            &&& identity::runtime_answers(m.runtimes[i], identity::command_identity(command))
            &&& forall|j: int|
                0 <= j < i ==> !identity::runtime_answers(
                    #[trigger] m.runtimes[j],
                    identity::command_identity(command),
                )
        },
        identity::runtime_by_command(m, command) is None <==> forall|j: int|
            0 <= j < m.runtimes.len() ==> !identity::runtime_answers(
                #[trigger] m.runtimes[j],
                identity::command_identity(command),
            ),
{
    let p = |r: RuntimeModel|
        identity::runtime_answers(r, identity::command_identity(command));
    search::first_holds(m.runtimes, p);
    if 0 <= i < m.runtimes.len() && p(m.runtimes[i]) && forall|j: int|
        0 <= j < i ==> !identity::runtime_answers(
            #[trigger] m.runtimes[j],
            identity::command_identity(command),
        ) {
        search::first_is(m.runtimes, p, i);
    }
    if let Some(k) = identity::runtime_by_command(m, command) {
        assert(p(m.runtimes[k]));
        assert forall|j: int| 0 <= j < k implies !identity::runtime_answers(
            #[trigger] m.runtimes[j],
            identity::command_identity(command),
        ) by {
            assert(!p(m.runtimes[j]));
        }
    } else {
        assert forall|j: int| 0 <= j < m.runtimes.len() implies !identity::runtime_answers(
            #[trigger] m.runtimes[j],
            identity::command_identity(command),
        ) by {
            assert(!p(m.runtimes[j]));
        }
    }
}

/// The identity of a command is its name in lower case, whatever directory it is named in and
/// whichever of the two separators parts them; and a name with an extension of a Windows
/// executable, in whatever case, has the identity of the name without it.
pub proof fn law_the_identity_is_the_plain_name(
    directory: Seq<char>,
    name: Seq<char>,
    extension: Seq<char>,
)
    requires
        forall|i: int|
            0 <= i < name.len() ==> (#[trigger] name[i]) != '/' && name[i] != '\\',
        text::ascii_lower(extension) == ".exe"@ || text::ascii_lower(extension) == ".cmd"@
            || text::ascii_lower(extension) == ".bat"@,
        forall|i: int|
            0 <= i < extension.len() ==> (#[trigger] extension[i]) != '/' && extension[i] != '\\',
    ensures
        identity::command_identity(directory.push('/') + name + extension) == text::ascii_lower(
            name,
        ),
        identity::command_identity(directory.push('\\') + name + extension) == text::ascii_lower(
            name,
        ),
        identity::command_identity(name + extension) == text::ascii_lower(name),
        identity::command_identity(directory.push('/')).len() == 0,
        identity::command_identity(directory.push('\\')).len() == 0,
{
    reveal_strlit(".exe");
    reveal_strlit(".cmd");
    reveal_strlit(".bat");
    let whole = name + extension;
    assert(extension.len() == 4) by {
        assert(text::ascii_lower(extension).len() == extension.len());
    }
    assert(directory.push('/') + name + extension =~= directory.push('/') + whole);
    assert(directory.push('\\') + name + extension =~= directory.push('\\') + whole);
    identity::law_identity_ignores_directories(directory, whole, '/');
    identity::law_identity_ignores_directories(directory, whole, '\\');
    plain_names_are_their_own(whole);
    let low = text::ascii_lower(whole);
    let n = low.len() - 4;
    assert(low.skip(n) =~= text::ascii_lower(extension));
    assert(low.take(n) =~= text::ascii_lower(name));
    assert(identity::base_name(directory.push('/')).len() == 0);
    assert(identity::base_name(directory.push('\\')).len() == 0);
}

/// What stands behind the last separator of a text without one is the text.
proof fn plain_names_are_their_own(name: Seq<char>)
    requires
        forall|i: int|
            0 <= i < name.len() ==> (#[trigger] name[i]) != '/' && name[i] != '\\',
    ensures
        identity::base_name(name) == name,
    decreases name.len(),
{
    if name.len() > 0 {
        let rest = name.drop_last();
        assert forall|i: int| 0 <= i < rest.len() implies (#[trigger] rest[i]) != '/' && rest[i]
            != '\\' by {
            assert(rest[i] == name[i]);
        }
        plain_names_are_their_own(rest);
        assert(name[name.len() - 1] == name.last());
        assert(rest.push(name.last()) =~= name);
    } else {
        assert(identity::base_name(name) =~= name);
    }
}

/// A name that ends in none of the extensions is its own identity, in lower case.
pub proof fn law_other_names_keep_their_endings(name: Seq<char>)
    requires
        forall|i: int|
            0 <= i < name.len() ==> (#[trigger] name[i]) != '/' && name[i] != '\\',
        name.len() >= 4 ==> {
            let end = text::ascii_lower(name).skip(name.len() - 4);
            end != ".exe"@ && end != ".cmd"@ && end != ".bat"@
        },
    ensures
        identity::command_identity(name) == text::ascii_lower(name),
{
    plain_names_are_their_own(name);
    assert(text::ascii_lower(name).len() == name.len());
}

/// The variables of a harness are those of its runtime where it has one, those of its definition
/// where it has only that, and none otherwise.
pub proof fn law_variables_belong_to_the_harness(spec: LaunchModel)
    ensures
        spec.known_runtime matches Some(r) ==> spec.definition_env() == env_map::pairs_env(
            r.default_env,
        ),
        spec.known_runtime is None && spec.definition is Some ==> spec.definition_env()
            == spec.definition->0.env,
        spec.known_runtime is None && spec.definition is None ==> spec.definition_env()
            == Map::<Seq<char>, Seq<char>>::empty(),
{
}

/// An id is refused exactly where some runtime or some preset has it, but for the case of its
/// ASCII letters; and what it is refused with names it.
pub proof fn law_only_taken_ids_are_refused(m: CatalogModel, id: Seq<char>, quoted: Seq<char>)
    ensures
        catalog_ids::collides(m, id) <==> {
            ||| exists|i: int|
                0 <= i < m.runtimes.len() && text::ascii_lower((#[trigger] m.runtimes[i]).id)
                    == text::ascii_lower(id)
            ||| exists|i: int|
                0 <= i < m.presets.len() && text::ascii_lower((#[trigger] m.presets[i]).id)
                    == text::ascii_lower(id)
        },
        catalog_ids::collision_text(quoted) == "id "@ + quoted
            + " is reserved for a built-in harness and cannot be overridden"@,
        catalog_ids::reserved_ids(m).len() == m.runtimes.len() + m.presets.len(),
{
    let all = catalog_ids::reserved_ids(m);
    assert forall|i: int| 0 <= i < m.runtimes.len() implies all[i] == (
    #[trigger] m.runtimes[i]).id by {}
    assert forall|i: int| 0 <= i < m.presets.len() implies all[m.runtimes.len() + i] == (
    #[trigger] m.presets[i]).id by {}
    if catalog_ids::collides(m, id) {
        let k = choose|k: int|
            0 <= k < all.len() && text::ascii_lower(#[trigger] all[k]) == text::ascii_lower(id);
        if k < m.runtimes.len() {
            assert(text::ascii_lower(m.runtimes[k].id) == text::ascii_lower(id));
        } else {
            assert(text::ascii_lower(m.presets[k - m.runtimes.len()].id) == text::ascii_lower(id));
        }
    }
    if exists|i: int|
        0 <= i < m.runtimes.len() && text::ascii_lower((#[trigger] m.runtimes[i]).id)
            == text::ascii_lower(id) {
        let i = choose|i: int|
            0 <= i < m.runtimes.len() && text::ascii_lower((#[trigger] m.runtimes[i]).id)
                == text::ascii_lower(id);
        assert(text::ascii_lower(all[i]) == text::ascii_lower(id));
    }
    if exists|i: int|
        0 <= i < m.presets.len() && text::ascii_lower((#[trigger] m.presets[i]).id)
            == text::ascii_lower(id) {
        let i = choose|i: int|
            0 <= i < m.presets.len() && text::ascii_lower((#[trigger] m.presets[i]).id)
                == text::ascii_lower(id);
        assert(text::ascii_lower(all[m.runtimes.len() + i]) == text::ascii_lower(id));
    }
}

/// The entry of a preset shows what the preset says and where its commands were found, and
/// promises nothing that a preset cannot do: it has no variables, no account and no installer,
/// and nothing is known of its readiness.
pub proof fn law_entries_show_their_preset(
    def: PresetModel,
    command_path: Option<Seq<char>>,
    cli_path: Option<Seq<char>>,
    args: Seq<Seq<char>>,
)
    ensures
        ({
            let e = presets::preset_entry(def, command_path, cli_path, args);
            &&& e.id == def.id && e.label == def.label
            &&& e.install_hint == def.install_hint
            &&& e.install_instructions_url == def.install_instructions_url
            &&& e.default_args == args
            &&& e.binary_path == command_path
            &&& e.underlying_cli_path == cli_path
            &&& e.command == if command_path is Some {
                Some(def.command)
            } else {
                None
            }
            &&& e.login_hint == if command_path is Some {
                def.login_hint
            } else {
                None
            }
            &&& e.source == HarnessSource::Preset
            &&& e.avatar_url.len() == 0
            &&& e.definition_env == Map::<Seq<char>, Seq<char>>::empty()
            &&& e.mcp_command is None && e.model_env_var is None && e.provider_env_var is None
            &&& e.thinking_env_var is None
            &&& !e.can_auto_install && !e.requires_external_cli && !e.node_required
            &&& e.auth_status is NotApplicable
            &&& e.runtime_readiness is Unknown
        }),
{
}

/// A preset stands for a definition with its own words and without variables; a list of presets
/// for one definition each, in their order, and for their ids.
pub proof fn law_presets_are_definitions_without_variables(v: Seq<PresetModel>, i: int)
    requires
        0 <= i < v.len(),
    ensures
        presets::preset_definitions(v).len() == v.len(),
        presets::preset_ids(v).len() == v.len(),
        presets::preset_ids(v)[i] == v[i].id,
        ({
            let d = presets::preset_definitions(v)[i];
            &&& d.id == v[i].id && d.label == v[i].label && d.command == v[i].command
            &&& d.args == v[i].args
            &&& d.install_hint == v[i].install_hint
            &&& d.install_instructions_url == v[i].install_instructions_url
            &&& d.env == Map::<Seq<char>, Seq<char>>::empty()
        }),
{
}

/// The runtime of a vendor is built in, is started by the vendor's commands, in their order, and
/// without arguments, and is ready once the vendor's own command tells that its user is signed
/// in. Each vendor that a host adds has one, in their order.
pub proof fn law_vendors_are_signed_in_to(vendors: Seq<VendorWords>, i: int)
    requires
        0 <= i < vendors.len(),
    ensures
        runtime_metadata::vendor_models(vendors).len() == vendors.len(),
        ({
            let r = runtime_metadata::vendor_models(vendors)[i];
            let v = vendors[i];
            &&& r.id == v.id@ && r.label == v.label@
            &&& r.commands == runtime_metadata::words(v.commands@)
            &&& r.aliases.len() == 0 && r.default_args.len() == 0 && r.default_env.len() == 0
            &&& r.source == HarnessSource::Builtin
            &&& r.underlying_cli == Some(v.cli@)
            &&& r.cli_install_hint == v.cli_install_hint@
            &&& r.adapter_install_hint == v.adapter_install_hint@
            &&& r.cli_install_instructions_url == v.cli_install_instructions_url@
            &&& r.adapter_install_instructions_url == v.adapter_install_instructions_url@
            &&& r.authentication == (AuthenticationModel::CliProbe {
                args: runtime_metadata::words(v.probe_args@),
                login_hint: v.login_hint@,
            })
            &&& r.readiness_policy is Authentication
            &&& !r.supports_acp_model_switching && !r.mcp_hooks && !r.provider_locked
            &&& r.mcp_command is None && r.model_env_var is None && r.provider_env_var is None
        }),
{
}

/// Each status of a runtime is written by a word of its own.
pub proof fn law_statuses_are_written_apart(
    a: presets::RuntimeReadinessStatus,
    b: presets::RuntimeReadinessStatus,
)
    ensures
        a.wire() == b.wire() ==> a == b,
        a is Ready ==> a.wire() == "ready"@,
        a is AuthenticationRequired ==> a.wire() == "authentication_required"@,
        a is ModelUnavailable ==> a.wire() == "model_unavailable"@,
        a is Unknown ==> a.wire() == "unknown"@,
{
    reveal_strlit("ready");
    reveal_strlit("authentication_required");
    reveal_strlit("model_unavailable");
    reveal_strlit("unknown");
    assert("ready"@.len() == 5 && "authentication_required"@.len() == 23);
    assert("model_unavailable"@.len() == 17 && "unknown"@.len() == 7);
}

/// The presets stand in a fixed order, each with its own id, and are started by their own
/// commands. All speak the protocol behind the argument `acp`, but for Grok, whose agent is
/// started over its standard streams, and for those whose command is an adapter, which take no
/// argument. Only Amp needs the vendor's own command beside its adapter, and only Oh My PK tells
/// how to sign in.
pub proof fn law_presets_are_started_by_their_commands(i: int)
    ensures
        presets::preset_ids(presets::preset_models()) == seq![
            "cursor"@,
            "ompk"@,
            "omp"@,
            "grok"@,
            "opencode"@,
            "kimi"@,
            "amp"@,
            "hermes"@,
            "openclaw"@,
        ],
        Seq::new(9, |k: int| presets::preset_models()[k].command) == seq![
            "cursor-agent"@,
            "ompk"@,
            "omp"@,
            "grok"@,
            "opencode"@,
            "kimi"@,
            "amp-acp"@,
            "hermes-acp"@,
            "openclaw"@,
        ],
        Seq::new(9, |k: int| presets::preset_models()[k].label) == seq![
            "Cursor"@,
            "Oh My PK"@,
            "Oh My Pi"@,
            "Grok Build"@,
            "OpenCode"@,
            "Kimi Code"@,
            "Amp"@,
            "Hermes Agent"@,
            "OpenClaw"@,
        ],
        0 <= i < 9 && i != 3 && i != 6 && i != 7 ==> presets::preset_models()[i].args == seq![
            "acp"@,
        ],
        presets::preset_models()[3].args == seq!["agent"@, "--always-approve"@, "stdio"@],
        i == 6 || i == 7 ==> presets::preset_models()[i].args.len() == 0,
        0 <= i < 9 ==> presets::preset_models()[i].underlying_cli == if i == 6 {
            Some("amp"@)
        } else {
            None
        },
        0 <= i < 9 ==> (presets::preset_models()[i].login_hint is Some <==> i == 1),
{
    let ids = presets::preset_ids(presets::preset_models());
    assert(ids =~= seq![
        "cursor"@,
        "ompk"@,
        "omp"@,
        "grok"@,
        "opencode"@,
        "kimi"@,
        "amp"@,
        "hermes"@,
        "openclaw"@,
    ]);
}

/// The runtimes that are described stand in a fixed order, each with its own id and one command.
/// Goose and Oh My PK take the argument `acp`. Goose and the bundled agent have only to be there;
/// Codex is ready once its own command tells that its user is signed in; Oh My PK is asked for
/// its models, can switch them, and has methods of its own to sign in. None sets a variable.
pub proof fn law_runtimes_are_ready_in_their_own_ways(i: int)
    requires
        0 <= i < runtime_metadata::runtime_models().len(),
    ensures
        runtime_metadata::runtime_models().len() == 4,
        ({
            let r = runtime_metadata::runtime_models()[i];
            &&& r.id == seq!["goose"@, "buzz-agent"@, "codex"@, "ompk"@][i]
            &&& r.label == seq!["Goose"@, "Buzz Agent"@, "Codex"@, "Oh My PK"@][i]
            &&& r.commands == seq![seq!["goose"@, "buzz-agent"@, "codex-acp"@, "ompk"@][i]]
            &&& r.aliases.len() == 0
            &&& i == 0 || i == 3 ==> r.default_args == seq!["acp"@]
            &&& i == 1 || i == 2 ==> r.default_args.len() == 0
            &&& r.source == if i == 3 {
                HarnessSource::Preset
            } else {
                HarnessSource::Builtin
            }
            &&& r.underlying_cli == if i == 2 {
                Some("codex"@)
            } else {
                None
            }
            &&& r.readiness_policy is AvailabilityOnly <==> i == 0 || i == 1
            &&& r.readiness_policy is Authentication <==> i == 2
            &&& r.readiness_policy is AcpModelCatalog <==> i == 3
            &&& i == 0 || i == 1 ==> r.authentication is NotApplicable
            &&& i == 2 ==> r.authentication == (AuthenticationModel::CliProbe {
                args: seq!["codex"@, "login"@, "status"@],
                login_hint: "Run `codex login` to authenticate."@,
            })
            &&& i == 3 ==> r.authentication is AcpMethods
            &&& r.supports_acp_model_switching <==> i == 3
            &&& r.default_env.len() == 0 && r.config_file_path is None
            &&& r.mcp_command is None && r.model_env_var is None && r.provider_env_var is None
            &&& !r.provider_locked && !r.mcp_hooks
        }),
{
}

} // verus!
