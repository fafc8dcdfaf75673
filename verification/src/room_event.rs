//! A signed room event, as far as the library reads it.
use vstd::prelude::*;

use crate::search;
use crate::text;

verus! {

/// A signed room event: its id, its kind and its tags.
#[derive(Debug)]
pub struct RoomEvent {
    pub id: [u8; 32],
    pub kind: u16,
    pub tags: Vec<Vec<String>>,
}

/// The texts of a list of tags.
pub open spec fn tag_texts(tags: Seq<Vec<String>>) -> Seq<Seq<Seq<char>>> {
    tags.map_values(|t: Vec<String>| text::texts(t@))
}

/// What a room event holds.
#[verifier::ext_equal]
pub struct RoomEventModel {
    pub id: Seq<u8>,
    pub kind: u16,
    pub tags: Seq<Seq<Seq<char>>>,
}

impl View for RoomEvent {
    type V = RoomEventModel;

    open spec fn view(&self) -> RoomEventModel {
        RoomEventModel { id: self.id@, kind: self.kind, tags: tag_texts(self.tags@) }
    }
}

/// Whether a tag has this name as its first value.
pub open spec fn named(tag: Seq<Seq<char>>, name: Seq<char>) -> bool {
    tag.len() > 0 && tag[0] == name
}

/// Whether a tag has this name as its first value.
pub fn is_named(tag: &Vec<String>, name: &str) -> (r: bool)
    ensures
        r == named(text::texts(tag@), name@),
{
    tag.len() > 0 && text::same(tag[0].as_str(), name)
}

/// The tags with this name, in order.
pub open spec fn tagged(tags: Seq<Seq<Seq<char>>>, name: Seq<char>) -> Seq<Seq<Seq<char>>>
    decreases tags.len(),
{
    if tags.len() == 0 {
        Seq::empty()
    } else {
        let rest = tagged(tags.drop_last(), name);
        if named(tags.last(), name) {
            rest.push(tags.last())
        } else {
            rest
        }
    }
}

/// The positions of the tags with this name, in order.
pub fn positions(tags: &Vec<Vec<String>>, name: &str) -> (r: Vec<usize>)
    ensures
        r@.len() == tagged(tag_texts(tags@), name@).len(),
        forall|k: int|
            0 <= k < r@.len() ==> (#[trigger] r@[k]) < tags@.len() && text::texts(tags@[r@[k] as int]@)
                == tagged(tag_texts(tags@), name@)[k],
{
    let mut out: Vec<usize> = Vec::new();
    let mut i: usize = 0;
    let ghost all = tag_texts(tags@);
    while i < tags.len()
        invariant
            i <= tags.len(),
            all == tag_texts(tags@),
            out@.len() == tagged(all.take(i as int), name@).len(),
            forall|k: int|
                0 <= k < out@.len() ==> (#[trigger] out@[k]) < tags@.len() && text::texts(
                    tags@[out@[k] as int]@,
                ) == tagged(all.take(i as int), name@)[k],
        decreases tags.len() - i,
    {
        assert(all.take(i + 1).drop_last() =~= all.take(i as int));
        assert(all.take(i + 1).last() == text::texts(tags@[i as int]@));
        if is_named(&tags[i], name) {
            out.push(i);
        }
        i += 1;
    }
    assert(all.take(all.len() as int) =~= all);
    out
}

/// The tags with a name are listed each once and in their order, whatever other tags stand
/// between them and whatever further values they have; no other tag is listed.
pub proof fn law_tags_are_listed_by_name(tags: Seq<Seq<Seq<char>>>, name: Seq<char>) -> (at: Seq<
    int,
>)
    ensures
        search::places(tags, |t: Seq<Seq<char>>| t.len() > 0 && t[0] == name, at),
        tagged(tags, name).len() == at.len(),
        forall|k: int| 0 <= k < at.len() ==> tags[#[trigger] at[k]] == tagged(tags, name)[k],
    decreases tags.len(),
{
    let p = |t: Seq<Seq<char>>| t.len() > 0 && t[0] == name;
    if tags.len() == 0 {
        Seq::empty()
    } else {
        let rest = law_tags_are_listed_by_name(tags.drop_last(), name);
        search::places_extend(tags, p, rest);
        if p(tags.last()) {
            rest.push(tags.len() - 1)
        } else {
            rest
        }
    }
}

} // verus!
