//! The ids that a user's definition may not take.
use vstd::prelude::*;

use crate::catalog::identity::Catalog;
use crate::catalog::identity::CatalogModel;
use crate::catalog::presets;
use crate::catalog::runtime_metadata;
use crate::outside;
use crate::text;

verus! {

/// The ids of the runtimes and the presets.
pub open spec fn reserved_ids(m: CatalogModel) -> Seq<Seq<char>> {
    Seq::new(m.runtimes.len(), |i: int| m.runtimes[i].id) + presets::preset_ids(m.presets)
}

/// Whether an id is that of a runtime or a preset, but for the case of its ASCII letters.
pub open spec fn collides(m: CatalogModel, id: Seq<char>) -> bool {
    exists|i: int|
        0 <= i < reserved_ids(m).len() && text::ascii_lower(#[trigger] reserved_ids(m)[i])
            == text::ascii_lower(id)
}

/// What a colliding id, whose quoted form is given, is refused with.
pub open spec fn collision_text(quoted: Seq<char>) -> Seq<char> {
    "id "@ + quoted + " is reserved for a built-in harness and cannot be overridden"@
}

/// The ids of the runtimes and the presets.
pub fn builtin_ids(catalog: &Catalog) -> (r: Vec<&'static str>)
    ensures
        runtime_metadata::words(r@) == reserved_ids(catalog@),
{
    let mut out: Vec<&'static str> = Vec::new();
    let mut i: usize = 0;
    while i < catalog.runtimes.len()
        invariant
            i <= catalog.runtimes.len(),
            out@.len() == i,
            forall|k: int| 0 <= k < i ==> (#[trigger] out@[k])@ == catalog@.runtimes[k].id,
        decreases catalog.runtimes.len() - i,
    {
        out.push(catalog.runtimes[i].id);
        i += 1;
    }
    let mut more: Vec<&'static str> = presets::preset_harness_ids(&catalog.presets);
    let ghost ids = runtime_metadata::words(more@);
    let ghost head = out@;
    assert forall|k: int| 0 <= k < more@.len() implies (#[trigger] more@[k])@ == ids[k] by {}
    out.append(&mut more);
    assert(runtime_metadata::words(out@) =~= reserved_ids(catalog@));
    out
}

/// The refusal of an id whose quoted form is given.
pub fn collision_message(quoted: &str) -> (r: String)
    ensures
        r@ == collision_text(quoted@),
{
    let mut s: String = "id ".to_owned();
    s.append(quoted);
    s.append(" is reserved for a built-in harness and cannot be overridden");
    s
}

/// Refuses an id that is that of a runtime or a preset.
pub fn check_id_collision(catalog: &Catalog, id: &str) -> (r: Result<(), String>)
    ensures
        r is Err <==> collides(catalog@, id@),
        r matches Err(reason) ==> reason@ == collision_text(outside::debug_text(id@)),
{
    let ids: Vec<&'static str> = builtin_ids(catalog);
    let ghost listed = reserved_ids(catalog@);
    let own: String = id.to_ascii_lowercase();
    let mut i: usize = 0;
    while i < ids.len()
        invariant
            i <= ids.len(),
            listed == reserved_ids(catalog@),
            listed == runtime_metadata::words(ids@),
            own@ == text::ascii_lower(id@),
            forall|k: int|
                0 <= k < i ==> text::ascii_lower(#[trigger] listed[k]) != text::ascii_lower(id@),
        decreases ids.len() - i,
    {
        assert(listed[i as int] == ids@[i as int]@);
        let other: String = ids[i].to_ascii_lowercase();
        if other == own {
            let quoted: String = outside::debug_quoted(id);
            return Err(collision_message(quoted.as_str()));
        }
        i += 1;
    }
    Ok(())
}

/// No definition of a user can stand in for a runtime or a preset: the id of each is
/// refused, in whatever case it is written.
pub proof fn law_reserved_ids_are_refused(m: CatalogModel, id: Seq<char>, k: int)
    requires
        0 <= k < reserved_ids(m).len(),
        text::ascii_lower(id) == text::ascii_lower(reserved_ids(m)[k]),
    ensures
        collides(m, id),
{
}

} // verus!
