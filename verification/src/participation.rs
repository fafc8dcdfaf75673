//! Whether an inbound event is a reply into a conversation that the agent takes part in,
//! and whether an unasked turn in it may be taken.
use std::collections::HashMap;
use vstd::hash_map::StringHashMap;
use vstd::hash_set::StringHashSet;
use vstd::prelude::*;

use crate::outside;
use crate::room_event;
use crate::room_event::{RoomEvent, RoomEventModel};
use crate::search;
use crate::text;

verus! {

broadcast use vstd::std_specs::hash::group_hash_axioms;

/// How many of the agent's own events are remembered at most.
pub const OWN_EVENT_LIMIT: usize = 4096;

/// How many references to threads are remembered at most.
pub const THREAD_LIMIT: usize = 1024;

/// The first ephemeral kind.
pub const EPHEMERAL_KIND_START: u16 = 20000;

/// The last ephemeral kind.
pub const EPHEMERAL_KIND_END: u16 = 29999;

/// The kind of a deletion.
pub const KIND_DELETION: u16 = 5;

/// The kind of a reaction.
pub const KIND_REACTION: u16 = 7;

/// How many chains are counted at most.
pub const CHAIN_MAP_LIMIT: usize = 2048;

/// A bounded set of texts in two generations: once the current one is full, the one
/// before it is forgotten. A set for less than two texts has no generation before.
pub struct TwoGenSet {
    pub current: StringHashSet,
    pub previous: StringHashSet,
    pub half_limit: usize,
    pub keeps_previous: bool,
}

/// What a two-generation set holds.
#[verifier::ext_equal]
pub struct TwoGenModel {
    pub current: Set<Seq<char>>,
    pub previous: Set<Seq<char>>,
    pub half: nat,
    pub keeps_previous: bool,
}

impl View for TwoGenSet {
    type V = TwoGenModel;

    open spec fn view(&self) -> TwoGenModel {
        TwoGenModel {
            current: self.current@,
            previous: self.previous@,
            half: self.half_limit as nat,
            keeps_previous: self.keeps_previous,
        }
    }
}

impl TwoGenModel {
    /// An empty set for at most `limit` texts. Where the limit is 0, each generation still has
    /// room for one text.
    pub open spec fn empty(limit: nat) -> TwoGenModel {
        TwoGenModel {
            current: Set::empty(),
            previous: Set::empty(),
            half: if limit / 2 >= 1 {
                (limit / 2) as nat
            } else {
                1
            },
            keeps_previous: limit != 1,
        }
    }

    /// Whether a text is remembered.
    pub open spec fn contains(self, value: Seq<char>) -> bool {
        self.current.contains(value) || self.previous.contains(value)
    }

    /// The set once `value` has been put in.
    pub open spec fn inserted(self, value: Seq<char>) -> TwoGenModel {
        if self.contains(value) {
            self
        } else if self.current.len() >= self.half {
            TwoGenModel {
                current: Set::empty().insert(value),
                previous: if self.keeps_previous {
                    self.current
                } else {
                    Set::empty()
                },
                ..self
            }
        } else {
            TwoGenModel { current: self.current.insert(value), ..self }
        }
    }

    /// The set once `values` have been put in, in order.
    pub open spec fn inserted_all(self, values: Seq<Seq<char>>) -> TwoGenModel
        decreases values.len(),
    {
        if values.len() == 0 {
            self
        } else {
            self.inserted_all(values.drop_last()).inserted(values.last())
        }
    }

    /// How many of `values`, put in in order, are not remembered when their turn comes.
    pub open spec fn new_among(self, values: Seq<Seq<char>>) -> nat
        decreases values.len(),
    {
        if values.len() == 0 {
            0
        } else if self.inserted_all(values.drop_last()).contains(values.last()) {
            self.new_among(values.drop_last())
        } else {
            self.new_among(values.drop_last()) + 1
        }
    }

    /// How many texts there is room for.
    pub open spec fn room(self) -> nat {
        if self.keeps_previous {
            2 * self.half
        } else {
            self.half
        }
    }

    /// How many new texts can follow any text before it may be forgotten: half the limit.
    pub open spec fn recency(self) -> nat {
        if self.keeps_previous {
            self.half
        } else {
            0
        }
    }

    /// What every such set keeps: no generation outgrows its half, they share no text,
    /// and the one before is either empty or full.
    pub open spec fn sound(self) -> bool {
        &&& self.half >= 1
        &&& self.current.finite()
        &&& self.previous.finite()
        &&& self.current.len() <= self.half
        &&& self.previous.len() == 0 || self.previous.len() == self.half && self.keeps_previous
        &&& self.current.disjoint(self.previous)
    }

    /// How many texts are remembered.
    pub open spec fn remembered(self) -> nat {
        self.current.len() + self.previous.len()
    }

    /// How many new texts can follow before `value` is forgotten, at least.
    spec fn slack(self, value: Seq<char>) -> int {
        if self.current.contains(value) {
            self.room() - self.current.len()
        } else if self.previous.contains(value) {
            self.half - self.current.len()
        } else {
            -1
        }
    }
}

impl TwoGenSet {
    /// An empty set for at most `limit` texts. Where the limit is 0, each generation still has
    /// room for one text.
    pub fn new(limit: usize) -> (r: TwoGenSet)
        ensures
            r@ == TwoGenModel::empty(limit as nat),
            r@.sound(),
    {
        let half: usize = limit / 2;
        TwoGenSet {
            current: StringHashSet::new(),
            previous: StringHashSet::new(),
            half_limit: if half >= 1 {
                half
            } else {
                1
            },
            keeps_previous: limit != 1,
        }
    }

    /// Puts a text in; whether it was not remembered before.
    pub fn insert(&mut self, value: String) -> (r: bool)
        requires
            old(self)@.sound(),
        ensures
            r == !old(self)@.contains(value@),
            final(self)@ == old(self)@.inserted(value@),
            final(self)@.sound(),
    {
        proof {
            law_two_generations_stay_bounded(self@, value@);
        }
        if self.previous.contains(value.as_str()) || self.current.contains(value.as_str()) {
            return false;
        }
        if self.current.len() >= self.half_limit {
            let mut fresh = StringHashSet::new();
            core::mem::swap(&mut fresh, &mut self.current);
            if self.keeps_previous {
                self.previous = fresh;
            }
        }
        self.current.insert(value)
    }

    /// Whether a text is remembered.
    pub fn contains(&self, value: &str) -> (r: bool)
        ensures
            r == self@.contains(value@),
    {
        self.current.contains(value) || self.previous.contains(value)
    }
}

/// Whatever is put in, a two-generation set remembers no more than both halves hold, and
/// no less than one half once that many distinct texts have been put in since it was full.
pub proof fn law_two_generations_stay_bounded(m: TwoGenModel, value: Seq<char>)
    requires
        m.sound(),
    ensures
        m.inserted(value).sound(),
        m.inserted(value).half == m.half,
        m.inserted(value).keeps_previous == m.keeps_previous,
        m.inserted(value).contains(value),
        m.inserted(value).remembered() <= m.room(),
        m.previous.len() > 0 ==> m.remembered() >= m.half,
        m.previous.len() > 0 ==> m.inserted(value).previous.len() > 0,
        m.inserted(value).remembered() > m.half ==> m.inserted(value).previous.len() > 0,
{
}

/// A set for a limit remembers at most that many texts, whatever is put in, and half as many
/// texts can follow any of them before it may be forgotten.
pub proof fn law_a_set_keeps_its_limit(limit: nat, values: Seq<Seq<char>>)
    requires
        limit >= 1,
    ensures
        TwoGenModel::empty(limit).inserted_all(values).remembered() <= limit,
        TwoGenModel::empty(limit).inserted_all(values).recency() == limit / 2,
{
    let m = TwoGenModel::empty(limit);
    inserted_all_sound(m, values);
}

proof fn slack_shrinks_by_one(m: TwoGenModel, value: Seq<char>, next: Seq<char>)
    requires
        m.sound(),
        m.contains(next) || m.slack(value) >= 1,
    ensures
        m.inserted(next).slack(value) >= if m.contains(next) {
            m.slack(value)
        } else {
            m.slack(value) - 1
        },
        m.inserted(next).sound(),
{
    law_two_generations_stay_bounded(m, next);
}

proof fn slack_outlasts(m: TwoGenModel, value: Seq<char>, values: Seq<Seq<char>>)
    requires
        m.sound(),
        m.new_among(values) <= m.slack(value),
    ensures
        m.inserted_all(values).sound(),
        m.inserted_all(values).slack(value) >= m.slack(value) - m.new_among(values),
    decreases values.len(),
{
    if values.len() > 0 {
        slack_outlasts(m, value, values.drop_last());
        slack_shrinks_by_one(m.inserted_all(values.drop_last()), value, values.last());
        law_two_generations_stay_bounded(m.inserted_all(values.drop_last()), values.last());
    }
}

/// A text that was new when it was put in is remembered for as long as no more than half
/// the limit of new ones follow it; texts that are remembered already do not count.
pub proof fn law_recent_texts_are_remembered(
    m: TwoGenModel,
    value: Seq<char>,
    later: Seq<Seq<char>>,
)
    requires
        m.sound(),
        !m.contains(value),
        m.inserted(value).new_among(later) <= m.recency(),
    ensures
        m.inserted(value).inserted_all(later).contains(value),
{
    law_two_generations_stay_bounded(m, value);
    slack_outlasts(m.inserted(value), value, later);
}

proof fn inserted_all_origin(m: TwoGenModel, values: Seq<Seq<char>>, x: Seq<char>)
    requires
        m.inserted_all(values).contains(x),
    ensures
        m.contains(x) || values.contains(x),
    decreases values.len(),
{
    if values.len() > 0 {
        let rest = values.drop_last();
        if m.inserted_all(rest).contains(x) {
            inserted_all_origin(m, rest, x);
            if rest.contains(x) {
                assert(values[rest.index_of(x)] == x);
            }
        } else {
            assert(values[values.len() - 1] == x);
        }
    }
}

/// The agent's own events, and the references to threads that it has posted in.
pub struct ParticipationTracker {
    pub own_events: TwoGenSet,
    pub threads: TwoGenSet,
}

/// What a tracker holds.
#[verifier::ext_equal]
pub struct TrackerModel {
    pub own_events: TwoGenModel,
    pub threads: TwoGenModel,
}

impl View for ParticipationTracker {
    type V = TrackerModel;

    open spec fn view(&self) -> TrackerModel {
        TrackerModel { own_events: self.own_events@, threads: self.threads@ }
    }
}

/// The key of a reference in a channel: the channel's text, a colon, the referenced id.
pub open spec fn thread_key(channel_id: u128, root_hex: Seq<char>) -> Seq<char> {
    outside::uuid_text(channel_id) + ":"@ + root_hex
}

/// The key of a reference in a channel.
fn make_key(channel_id: u128, root_hex: &str) -> (r: String)
    ensures
        r@ == thread_key(channel_id, root_hex@),
{
    let mut key: String = outside::uuid_to_string(channel_id);
    key.append(":");
    key.append(root_hex);
    key
}

/// The values in second place of the tags named `e`, in order.
pub open spec fn referenced(tags: Seq<Seq<Seq<char>>>) -> Seq<Seq<char>>
    decreases tags.len(),
{
    if tags.len() == 0 {
        Seq::empty()
    } else {
        let rest = referenced(tags.drop_last());
        if room_event::named(tags.last(), "e"@) && tags.last().len() > 1 {
            rest.push(tags.last()[1])
        } else {
            rest
        }
    }
}

/// The ids of the events that an event refers to.
pub fn referenced_event_ids(event: &RoomEvent) -> (r: Vec<String>)
    ensures
        text::texts(r@) == referenced(event@.tags),
        forall|i: int|
            0 <= i < event@.tags.len() && (#[trigger] event@.tags[i]).len() > 1 && event@.tags[i][0]
                == "e"@ ==> text::texts(r@).contains(event@.tags[i][1]),
{
    let mut out: Vec<String> = Vec::new();
    let mut i: usize = 0;
    let ghost all = event@.tags;
    assert(text::texts(out@) =~= referenced(all.take(0)));
    while i < event.tags.len()
        invariant
            i <= event.tags.len(),
            all == event@.tags,
            text::texts(out@) == referenced(all.take(i as int)),
        decreases event.tags.len() - i,
    {
        assert(all.take(i + 1).drop_last() =~= all.take(i as int));
        assert(all.take(i + 1).last() == text::texts(event.tags@[i as int]@));
        let tag = &event.tags[i];
        if room_event::is_named(tag, "e") && tag.len() > 1 {
            let ghost before = text::texts(out@);
            out.push(tag[1].clone());
            assert(text::texts(out@) =~= before.push(tag@[1]@));
        }
        i += 1;
    }
    assert(all.take(all.len() as int) =~= all);
    proof {
        let _ = law_every_e_tag_is_a_reference(all);
    }
    out
}

/// Whether events of this kind never carry conversation: deletions, reactions, and
/// ephemeral events.
pub open spec fn never_converses(kind: u16) -> bool {
    kind == KIND_DELETION || kind == KIND_REACTION || EPHEMERAL_KIND_START <= kind
        <= EPHEMERAL_KIND_END
}

/// The keys of what an event refers to, in a channel.
pub open spec fn reference_keys(channel_id: u128, ids: Seq<Seq<char>>) -> Seq<Seq<char>> {
    Seq::new(ids.len(), |i: int| thread_key(channel_id, ids[i]))
}

impl TrackerModel {
    /// The tracker once an event of the agent has been recorded.
    pub open spec fn recorded(self, channel_id: u128, event: RoomEventModel) -> TrackerModel {
        if never_converses(event.kind) {
            self
        } else {
            TrackerModel {
                own_events: self.own_events.inserted(text::hex_encode(event.id)),
                threads: self.threads.inserted_all(
                    reference_keys(channel_id, referenced(event.tags)),
                ),
            }
        }
    }

    /// Whether a reference to this id, in this channel, reaches the agent: it is an event
    /// of the agent, or one that the agent has referred to in the channel.
    pub open spec fn engages(self, channel_id: u128, id: Seq<char>) -> bool {
        self.own_events.contains(id) || self.threads.contains(thread_key(channel_id, id))
    }

    /// Whether both sets are sound.
    pub open spec fn sound(self) -> bool {
        self.own_events.sound() && self.threads.sound()
    }
}

impl Default for ParticipationTracker {
    fn default() -> (r: ParticipationTracker)
        ensures
            r@ == (TrackerModel {
                own_events: TwoGenModel::empty(OWN_EVENT_LIMIT as nat),
                threads: TwoGenModel::empty(THREAD_LIMIT as nat),
            }),
            r@.sound(),
    {
        ParticipationTracker::new()
    }
}

impl ParticipationTracker {
    /// A tracker that remembers nothing yet.
    pub fn new() -> (r: ParticipationTracker)
        ensures
            r@ == (TrackerModel {
                own_events: TwoGenModel::empty(OWN_EVENT_LIMIT as nat),
                threads: TwoGenModel::empty(THREAD_LIMIT as nat),
            }),
            r@.sound(),
    {
        ParticipationTracker {
            own_events: TwoGenSet::new(OWN_EVENT_LIMIT),
            threads: TwoGenSet::new(THREAD_LIMIT),
        }
    }

    /// Records an event of the agent: replies to it reach the agent, and so do replies to
    /// whatever it refers to in this channel.
    pub fn record_self_event(&mut self, channel_id: u128, event: &RoomEvent)
        requires
            old(self)@.sound(),
        ensures
            final(self)@ == old(self)@.recorded(channel_id, event@),
            final(self)@.sound(),
    {
        let kind: u16 = event.kind;
        if kind == KIND_DELETION || kind == KIND_REACTION || (EPHEMERAL_KIND_START <= kind && kind
            <= EPHEMERAL_KIND_END) {
            return;
        }
        let _ = self.own_events.insert(outside::event_id_to_hex(&event.id));
        let ids: Vec<String> = referenced_event_ids(event);
        let ghost keys = reference_keys(channel_id, referenced(event@.tags));
        let mut i: usize = 0;
        assert(keys.take(0) =~= Seq::empty());
        while i < ids.len()
            invariant
                i <= ids.len(),
                keys == reference_keys(channel_id, text::texts(ids@)),
                self.own_events@ == old(self)@.own_events.inserted(text::hex_encode(event@.id)),
                self.own_events@.sound(),
                self.threads@ == old(self)@.threads.inserted_all(keys.take(i as int)),
                self.threads@.sound(),
            decreases ids.len() - i,
        {
            assert(keys.take(i + 1).drop_last() =~= keys.take(i as int));
            assert(keys.take(i + 1).last() == thread_key(channel_id, ids@[i as int]@));
            let _ = self.threads.insert(make_key(channel_id, ids[i].as_str()));
            i += 1;
        }
        assert(keys.take(keys.len() as int) =~= keys);
    }

    /// The first id that an event refers to and that reaches the agent in this channel.
    pub fn thread_engagement_root(&self, channel_id: u128, event: &RoomEvent) -> (r: Option<
        String,
    >)
        ensures
            match r {
                Some(id) => exists|k: int|
                    {
                        &&& 0 <= k < referenced(event@.tags).len()
                        &&& #[trigger] referenced(event@.tags)[k] == id@
                        &&& self@.engages(channel_id, id@)
                        &&& forall|j: int|
                            0 <= j < k ==> !self@.engages(
                                channel_id,
                                #[trigger] referenced(event@.tags)[j],
                            )
                    },
                None => forall|j: int|
                    0 <= j < referenced(event@.tags).len() ==> !self@.engages(
                        channel_id,
                        #[trigger] referenced(event@.tags)[j],
                    ),
            },
            r is Some <==> exists|i: int|
                0 <= i < event@.tags.len() && (#[trigger] event@.tags[i]).len() > 1
                    && event@.tags[i][0] == "e"@ && self@.engages(channel_id, event@.tags[i][1]),
            r matches Some(id) ==> exists|i: int|
                {
                    &&& 0 <= i < event@.tags.len()
                    &&& (#[trigger] event@.tags[i]).len() > 1
                    &&& event@.tags[i][0] == "e"@
                    &&& event@.tags[i][1] == id@
                    &&& self@.engages(channel_id, id@)
                    &&& forall|j: int|
                        0 <= j < i && (#[trigger] event@.tags[j]).len() > 1 && event@.tags[j][0]
                            == "e"@ ==> !self@.engages(channel_id, event@.tags[j][1])
                },
    {
        let ids: Vec<String> = referenced_event_ids(event);
        let ghost listed = referenced(event@.tags);
        proof {
            engaging_tags(self@, channel_id, event@.tags);
        }
        let mut i: usize = 0;
        while i < ids.len()
            invariant
                i <= ids.len(),
                listed == referenced(event@.tags),
                listed == text::texts(ids@),
                forall|j: int| 0 <= j < i ==> !self@.engages(channel_id, #[trigger] listed[j]),
            decreases ids.len() - i,
        {
            assert(listed[i as int] == ids@[i as int]@);
            let key: String = make_key(channel_id, ids[i].as_str());
            if self.own_events.contains(ids[i].as_str()) || self.threads.contains(key.as_str()) {
                let found: String = ids[i].clone();
                assert(referenced(event@.tags)[i as int] == found@);
                proof {
                    engaging_tags(self@, channel_id, event@.tags);
                }
                return Some(found);
            }
            i += 1;
        }
        None
    }
}

/// Two references have the same key only where they are the same reference in the same
/// channel.
pub proof fn law_thread_keys_are_distinct(c1: u128, r1: Seq<char>, c2: u128, r2: Seq<char>)
    requires
        thread_key(c1, r1) == thread_key(c2, r2),
    ensures
        c1 == c2,
        r1 == r2,
{
    reveal_strlit(":");
    let k = thread_key(c1, r1);
    assert(k.take(36) =~= outside::uuid_text(c1));
    assert(k.take(36) =~= outside::uuid_text(c2));
    assert(k.skip(37) =~= r1);
    assert(thread_key(c2, r2).skip(37) =~= r2);
    outside::uuid_text_injective(c1, c2);
}

/// Once an event of the agent is recorded, a reference to it reaches the agent in every
/// channel, and a reference to the last thing it referred to does so in its own channel.
pub proof fn law_own_events_engage(m: TrackerModel, channel_id: u128, event: RoomEventModel, other: u128)
    requires
        m.sound(),
        !never_converses(event.kind),
    ensures
        m.recorded(channel_id, event).engages(other, text::hex_encode(event.id)),
        referenced(event.tags).len() > 0 ==> m.recorded(channel_id, event).engages(
            channel_id,
            referenced(event.tags).last(),
        ),
{
    law_two_generations_stay_bounded(m.own_events, text::hex_encode(event.id));
    let ids = referenced(event.tags);
    let keys = reference_keys(channel_id, ids);
    if ids.len() > 0 {
        inserted_all_sound(m.threads, keys.drop_last());
        law_two_generations_stay_bounded(m.threads.inserted_all(keys.drop_last()), keys.last());
        assert(keys.last() == thread_key(channel_id, ids.last()));
    }
}

proof fn inserted_all_sound(m: TwoGenModel, values: Seq<Seq<char>>)
    requires
        m.sound(),
    ensures
        m.inserted_all(values).sound(),
        m.inserted_all(values).half == m.half,
        m.inserted_all(values).keeps_previous == m.keeps_previous,
    decreases values.len(),
{
    if values.len() > 0 {
        inserted_all_sound(m, values.drop_last());
        law_two_generations_stay_bounded(m.inserted_all(values.drop_last()), values.last());
    }
}

/// Every new reference of a recorded event engages in its channel, as long as the references
/// that may follow it are no more than half of what is remembered.
pub proof fn law_references_engage(
    m: TrackerModel,
    channel_id: u128,
    event: RoomEventModel,
    k: int,
)
    requires
        m.sound(),
        !never_converses(event.kind),
        0 <= k < referenced(event.tags).len() <= m.threads.recency() + 1,
        !m.threads.contains(thread_key(channel_id, referenced(event.tags)[k])),
    ensures
        m.recorded(channel_id, event).engages(channel_id, referenced(event.tags)[k]),
{
    let keys = reference_keys(channel_id, referenced(event.tags));
    new_text_survives(m.threads, keys, k);
}

proof fn inserted_all_append(m: TwoGenModel, a: Seq<Seq<char>>, b: Seq<Seq<char>>)
    ensures
        m.inserted_all(a + b) == m.inserted_all(a).inserted_all(b),
    decreases b.len(),
{
    if b.len() == 0 {
        assert(a + b =~= a);
    } else {
        assert((a + b).drop_last() =~= a + b.drop_last());
        inserted_all_append(m, a, b.drop_last());
    }
}

proof fn new_among_bounded(m: TwoGenModel, values: Seq<Seq<char>>)
    ensures
        m.new_among(values) <= values.len(),
    decreases values.len(),
{
    if values.len() > 0 {
        new_among_bounded(m, values.drop_last());
    }
}

proof fn new_text_survives(m: TwoGenModel, values: Seq<Seq<char>>, k: int)
    requires
        m.sound(),
        0 <= k < values.len() <= m.recency() + 1,
        !m.contains(values[k]),
    ensures
        m.inserted_all(values).contains(values[k]),
{
    let v = values[k];
    let first = choose|j: int| 0 <= j <= k && values[j] == v && !values.take(j).contains(v);
    assert(exists|j: int| 0 <= j <= k && values[j] == v && !values.take(j).contains(v)) by {
        let j = values.index_of_first(v)->0;
        values.index_of_first_ensures(v);
        assert(!values.take(j).contains(v));
    }
    let before = values.take(first);
    let after = values.skip(first + 1);
    assert(values =~= before.push(v) + after);
    inserted_all_sound(m, before);
    if m.inserted_all(before).contains(v) {
        inserted_all_origin(m, before, v);
    }
    assert(before.push(v).drop_last() =~= before);
    inserted_all_append(m, before.push(v), after);
    new_among_bounded(m.inserted_all(before).inserted(v), after);
    law_recent_texts_are_remembered(m.inserted_all(before), v, after);
}

/// Recording an event in one channel makes no reference engage in another, but for
/// references to the event itself.
pub proof fn law_participation_is_channel_scoped(
    m: TrackerModel,
    channel_id: u128,
    event: RoomEventModel,
    other: u128,
    id: Seq<char>,
)
    requires
        channel_id != other,
        id != text::hex_encode(event.id),
        m.recorded(channel_id, event).engages(other, id),
    ensures
        m.engages(other, id),
{
    if !never_converses(event.kind) && !m.own_events.contains(id) {
        let keys = reference_keys(channel_id, referenced(event.tags));
        inserted_all_origin(m.threads, keys, thread_key(other, id));
        if keys.contains(thread_key(other, id)) {
            let k = keys.index_of(thread_key(other, id));
            law_thread_keys_are_distinct(channel_id, referenced(event.tags)[k], other, id);
        }
    }
}

/// Why an unasked turn was held back.
#[derive(Debug, Clone, Copy, PartialEq, Eq, Structural)]
pub enum SuppressReason {
    /// The thread has had as many such turns in a row as it may.
    ChainCap,
    /// The last such turn in the channel was too short a time ago.
    Cooldown,
}

impl SuppressReason {
    /// The reason's code.
    pub open spec fn code(self) -> Seq<char> {
        match self {
            SuppressReason::ChainCap => "chain_cap"@,
            SuppressReason::Cooldown => "cooldown"@,
        }
    }

    /// The reason's code.
    pub fn as_str(&self) -> (r: &'static str)
        ensures
            r@ == self.code(),
    {
        match self {
            SuppressReason::ChainCap => "chain_cap",
            SuppressReason::Cooldown => "cooldown",
        }
    }
}

/// Two brakes on unasked turns: at most so many in a row in a thread, and at least so long
/// between two in a channel. Times are in nanoseconds of one clock.
pub struct EngagementGuard {
    max_agent_chain: u32,
    cooldown_nanos: u128,
    chains: StringHashMap<u32>,
    last_engaged: HashMap<u128, u128>,
}

/// What a guard holds.
#[verifier::ext_equal]
pub struct GuardModel {
    pub max_agent_chain: u32,
    pub cooldown_nanos: u128,
    /// The turns in a row, by thread key.
    pub chains: Map<Seq<char>, u32>,
    /// The time of the last turn, by channel.
    pub last_engaged: Map<u128, u128>,
}

impl View for EngagementGuard {
    type V = GuardModel;

    closed spec fn view(&self) -> GuardModel {
        GuardModel {
            max_agent_chain: self.max_agent_chain,
            cooldown_nanos: self.cooldown_nanos,
            chains: self.chains@,
            last_engaged: self.last_engaged@,
        }
    }
}

impl GuardModel {
    /// How many turns in a row a thread has had.
    pub open spec fn chain(self, channel_id: u128, root_hex: Seq<char>) -> u32 {
        let key = thread_key(channel_id, root_hex);
        if self.chains.contains_key(key) {
            self.chains[key]
        } else {
            0
        }
    }

    /// Whether the channel's last turn was too short a time ago.
    pub open spec fn cooling(self, channel_id: u128, now: u128) -> bool {
        &&& self.last_engaged.contains_key(channel_id)
        &&& (if now >= self.last_engaged[channel_id] {
            now - self.last_engaged[channel_id]
        } else {
            0
        }) < self.cooldown_nanos
    }

    /// Whether a turn may be taken, and if not, why.
    pub open spec fn verdict(
        self,
        channel_id: u128,
        root_hex: Seq<char>,
        now: u128,
    ) -> Result<u32, SuppressReason> {
        if self.chain(channel_id, root_hex) >= self.max_agent_chain {
            Err(SuppressReason::ChainCap)
        } else if self.cooling(channel_id, now) {
            Err(SuppressReason::Cooldown)
        } else {
            Ok((self.chain(channel_id, root_hex) + 1) as u32)
        }
    }

    /// The guard once a turn has been taken. Where too many chains are counted, the counts
    /// of all others start anew.
    pub open spec fn admitted(self, channel_id: u128, root_hex: Seq<char>, now: u128) -> GuardModel {
        let key = thread_key(channel_id, root_hex);
        let kept = if self.chains.len() >= CHAIN_MAP_LIMIT && !self.chains.contains_key(key) {
            Map::empty()
        } else {
            self.chains
        };
        GuardModel {
            chains: kept.insert(key, (self.chain(channel_id, root_hex) + 1) as u32),
            last_engaged: self.last_engaged.insert(channel_id, now),
            ..self
        }
    }

    /// The guard once both brakes have been let go for a thread: its count starts anew, and
    /// its channel does not wait.
    pub open spec fn reset(self, channel_id: u128, root_hex: Seq<char>) -> GuardModel {
        GuardModel {
            chains: self.chains.remove(thread_key(channel_id, root_hex)),
            last_engaged: self.last_engaged.remove(channel_id),
            ..self
        }
    }

    /// What every guard keeps: no count is above the cap, and no more chains are counted
    /// than there is room for.
    pub open spec fn sound(self) -> bool {
        &&& self.chains.dom().finite()
        &&& self.chains.len() <= CHAIN_MAP_LIMIT
        &&& forall|key: Seq<char>| #[trigger]
            self.chains.contains_key(key) ==> self.chains[key] <= self.max_agent_chain
    }
}

impl EngagementGuard {
    /// A guard that has seen no turn yet.
    pub fn new(max_agent_chain: u32, cooldown_nanos: u128) -> (r: EngagementGuard)
        ensures
            r@ == (GuardModel {
                max_agent_chain,
                cooldown_nanos,
                chains: Map::empty(),
                last_engaged: Map::empty(),
            }),
            r@.sound(),
    {
        EngagementGuard {
            max_agent_chain,
            cooldown_nanos,
            chains: StringHashMap::new(),
            last_engaged: HashMap::new(),
        }
    }

    /// Lets both brakes go for a thread: its owner spoke, or the agent was mentioned.
    pub fn reset_chain(&mut self, channel_id: u128, root_hex: &str)
        requires
            old(self)@.sound(),
        ensures
            final(self)@ == old(self)@.reset(channel_id, root_hex@),
            final(self)@.sound(),
    {
        let key: String = make_key(channel_id, root_hex);
        self.chains.remove(key.as_str());
        let _ = self.last_engaged.remove(&channel_id);
        assert(self@ =~= old(self)@.reset(channel_id, root_hex@));
        proof {
            law_guard_stays_sound(old(self)@, channel_id, root_hex@, 0);
        }
    }

    /// Decides whether an unasked turn may be taken now, and counts it where it may; the
    /// result is then its place in the row.
    pub fn admit_thread_turn(&mut self, channel_id: u128, root_hex: &str, now: u128) -> (r: Result<
        u32,
        SuppressReason,
    >)
        requires
            old(self)@.sound(),
        ensures
            r == old(self)@.verdict(channel_id, root_hex@, now),
            final(self)@ == if r is Ok {
                old(self)@.admitted(channel_id, root_hex@, now)
            } else {
                old(self)@
            },
            final(self)@.sound(),
    {
        let key: String = make_key(channel_id, root_hex);
        let chain: u32 = match self.chains.get(key.as_str()) {
            Some(n) => *n,
            None => 0,
        };
        if chain >= self.max_agent_chain {
            return Err(SuppressReason::ChainCap);
        }
        match self.last_engaged.get(&channel_id) {
            Some(last) => {
                if now.saturating_sub(*last) < self.cooldown_nanos {
                    return Err(SuppressReason::Cooldown);
                }
            },
            None => {},
        }
        proof {
            law_guard_stays_sound(self@, channel_id, root_hex@, now);
        }
        if self.chains.len() >= CHAIN_MAP_LIMIT && !self.chains.contains_key(key.as_str()) {
            self.chains.clear();
        }
        self.chains.insert(key, chain + 1);
        let _ = self.last_engaged.insert(channel_id, now);
        assert(self@ =~= old(self)@.admitted(channel_id, root_hex@, now));
        Ok(chain + 1)
    }
}

/// Turns that are admitted, and counts that are set back, keep a guard sound: a row never
/// grows past the cap, and the counts never outgrow their room.
pub proof fn law_guard_stays_sound(m: GuardModel, channel_id: u128, root_hex: Seq<char>, now: u128)
    requires
        m.sound(),
    ensures
        m.reset(channel_id, root_hex).sound(),
        m.verdict(channel_id, root_hex, now) is Ok ==> m.admitted(
            channel_id,
            root_hex,
            now,
        ).sound(),
        m.verdict(channel_id, root_hex, now) matches Ok(n) ==> 1 <= n <= m.max_agent_chain,
{
    let key = thread_key(channel_id, root_hex);
    let r = m.reset(channel_id, root_hex);
    assert forall|k: Seq<char>| #[trigger] r.chains.contains_key(k) implies r.chains[k]
        <= r.max_agent_chain by {
        assert(m.chains.contains_key(k));
    }
    if m.chains.contains_key(key) {
        assert(r.chains.dom() =~= m.chains.dom().remove(key));
    } else {
        assert(r.chains.dom() =~= m.chains.dom());
    }
    if m.verdict(channel_id, root_hex, now) is Ok {
        let a = m.admitted(channel_id, root_hex, now);
        let kept = if m.chains.len() >= CHAIN_MAP_LIMIT && !m.chains.contains_key(key) {
            Map::empty()
        } else {
            m.chains
        };
        assert(a.chains.dom() =~= kept.dom().insert(key));
        assert(kept.dom().finite());
        assert forall|k: Seq<char>| #[trigger] a.chains.contains_key(k) implies a.chains[k]
            <= a.max_agent_chain by {
            if k != key {
                assert(m.chains.contains_key(k));
            }
        }
    }
}

/// A thread that has had as many turns in a row as it may gets no more until its brakes are
/// let go; then it may take a turn at once, and starts at one.
pub proof fn law_chain_cap_holds_until_reset(
    m: GuardModel,
    channel_id: u128,
    root_hex: Seq<char>,
    now: u128,
)
    requires
        m.sound(),
    ensures
        m.verdict(channel_id, root_hex, now) matches Ok(n) ==> m.admitted(
            channel_id,
            root_hex,
            now,
        ).chain(channel_id, root_hex) == n,
        m.chain(channel_id, root_hex) == m.max_agent_chain ==> m.verdict(channel_id, root_hex, now)
            == Err::<u32, SuppressReason>(SuppressReason::ChainCap),
        m.reset(channel_id, root_hex).chain(channel_id, root_hex) == 0,
        !m.reset(channel_id, root_hex).cooling(channel_id, now),
        m.max_agent_chain > 0 ==> m.reset(channel_id, root_hex).verdict(
            channel_id,
            root_hex,
            now,
        ) == Ok::<u32, SuppressReason>(1),
{
}

/// Two turns that are admitted in one channel, with no brake let go between them, are the
/// cooldown apart, whatever the thread.
pub proof fn law_turns_in_a_channel_are_spaced(
    m: GuardModel,
    channel_id: u128,
    first_root: Seq<char>,
    first: u128,
    second_root: Seq<char>,
    second: u128,
)
    requires
        m.sound(),
        m.cooldown_nanos > 0,
        m.verdict(channel_id, first_root, first) is Ok,
        m.admitted(channel_id, first_root, first).verdict(channel_id, second_root, second) is Ok,
    ensures
        second - first >= m.cooldown_nanos,
{
}

/// A turn in one thread leaves the count of another as it was, unless all counts had to
/// start anew, and leaves the clock of another channel as it was.
pub proof fn law_threads_and_channels_are_independent(
    m: GuardModel,
    channel_id: u128,
    root_hex: Seq<char>,
    now: u128,
    other_channel: u128,
    other_root: Seq<char>,
)
    requires
        m.sound(),
        m.verdict(channel_id, root_hex, now) is Ok,
        channel_id != other_channel || root_hex != other_root,
    ensures
        ({
            let next = m.admitted(channel_id, root_hex, now);
            &&& next.chain(other_channel, other_root) == m.chain(other_channel, other_root)
                || next.chain(other_channel, other_root) == 0
            &&& m.chains.len() < CHAIN_MAP_LIMIT || m.chain(channel_id, root_hex) > 0 ==> next.chain(
                other_channel,
                other_root,
            ) == m.chain(other_channel, other_root)
            &&& channel_id != other_channel ==> forall|t: u128|
                next.cooling(other_channel, t) == #[trigger] m.cooling(other_channel, t)
        }),
{
    if thread_key(channel_id, root_hex) == thread_key(other_channel, other_root) {
        law_thread_keys_are_distinct(channel_id, root_hex, other_channel, other_root);
    }
}

/// The references of an event are the second values of its tags named `e`, one for each such tag
/// and in the order of the tags, whatever further values a tag has.
pub proof fn law_every_e_tag_is_a_reference(tags: Seq<Seq<Seq<char>>>) -> (at: Seq<int>)
    ensures
        search::places(tags, |t: Seq<Seq<char>>| t.len() > 1 && t[0] == "e"@, at),
        referenced(tags).len() == at.len(),
        forall|k: int| 0 <= k < at.len() ==> tags[#[trigger] at[k]][1] == referenced(tags)[k],
        forall|i: int|
            0 <= i < tags.len() && (#[trigger] tags[i]).len() > 1 && tags[i][0] == "e"@
                ==> referenced(tags).contains(tags[i][1]),
    decreases tags.len(),
{
    let p = |t: Seq<Seq<char>>| t.len() > 1 && t[0] == "e"@;
    let at = if tags.len() == 0 {
        Seq::empty()
    } else {
        let rest = law_every_e_tag_is_a_reference(tags.drop_last());
        search::places_extend(tags, p, rest);
        if p(tags.last()) {
            rest.push(tags.len() - 1)
        } else {
            rest
        }
    };
    assert forall|i: int|
        0 <= i < tags.len() && (#[trigger] tags[i]).len() > 1 && tags[i][0]
            == "e"@ implies referenced(tags).contains(tags[i][1]) by {
        assert(p(tags[i]));
        let k = at.index_of(i);
        assert(at[k] == i);
        assert(referenced(tags)[k] == tags[i][1]);
    }
    at
}

/// An event whose tags refer to what reaches the agent engages it, by whatever tag it does so;
/// what engages it is the first such reference.
proof fn engaging_tags(m: TrackerModel, channel_id: u128, tags: Seq<Seq<Seq<char>>>)
    ensures
        (exists|k: int|
            0 <= k < referenced(tags).len() && m.engages(channel_id, #[trigger] referenced(tags)[k]))
            <==> exists|i: int|
            0 <= i < tags.len() && (#[trigger] tags[i]).len() > 1 && tags[i][0] == "e"@
                && m.engages(channel_id, tags[i][1]),
        forall|k: int|
            0 <= k < referenced(tags).len() && m.engages(channel_id, #[trigger] referenced(tags)[k])
                && (forall|j: int|
                0 <= j < k ==> !m.engages(channel_id, #[trigger] referenced(tags)[j])) ==> exists|
                i: int,
            |
                {
                    &&& 0 <= i < tags.len()
                    &&& (#[trigger] tags[i]).len() > 1
                    &&& tags[i][0] == "e"@
                    &&& tags[i][1] == referenced(tags)[k]
                    &&& forall|j: int|
                        0 <= j < i && (#[trigger] tags[j]).len() > 1 && tags[j][0] == "e"@
                            ==> !m.engages(channel_id, tags[j][1])
                },
{
    let p = |t: Seq<Seq<char>>| t.len() > 1 && t[0] == "e"@;
    let ids = referenced(tags);
    let at = law_every_e_tag_is_a_reference(tags);
    if exists|k: int| 0 <= k < ids.len() && m.engages(channel_id, #[trigger] ids[k]) {
        let k = choose|k: int| 0 <= k < ids.len() && m.engages(channel_id, #[trigger] ids[k]);
        assert(p(tags[at[k]]));
        assert(tags[at[k]][1] == ids[k]);
    }
    if exists|i: int|
        0 <= i < tags.len() && (#[trigger] tags[i]).len() > 1 && tags[i][0] == "e"@ && m.engages(
            channel_id,
            tags[i][1],
        ) {
        let i = choose|i: int|
            0 <= i < tags.len() && (#[trigger] tags[i]).len() > 1 && tags[i][0] == "e"@
                && m.engages(channel_id, tags[i][1]);
        let k = ids.index_of(tags[i][1]);
        assert(m.engages(channel_id, ids[k]));
    }
    assert forall|k: int|
        0 <= k < ids.len() && m.engages(channel_id, #[trigger] ids[k]) && (forall|j: int|
            0 <= j < k ==> !m.engages(channel_id, #[trigger] ids[j])) implies exists|i: int|
        {
            &&& 0 <= i < tags.len()
            &&& (#[trigger] tags[i]).len() > 1
            &&& tags[i][0] == "e"@
            &&& tags[i][1] == ids[k]
            &&& forall|j: int|
                0 <= j < i && (#[trigger] tags[j]).len() > 1 && tags[j][0] == "e"@ ==> !m.engages(
                    channel_id,
                    tags[j][1],
                )
        } by {
        let i = at[k];
        assert(p(tags[i]));
        assert(tags[i][1] == ids[k]);
        assert forall|j: int|
            0 <= j < i && (#[trigger] tags[j]).len() > 1 && tags[j][0] == "e"@ implies !m.engages(
            channel_id,
            tags[j][1],
        ) by {
            assert(p(tags[j]));
            let n = at.index_of(j);
            assert(at[n] == j);
            if n >= k {
                if n > k {
                    assert(at[k] < at[n]);
                }
            }
            assert(ids[n] == tags[j][1]);
        }
    }
}

/// Deletions, reactions and ephemeral events carry no conversation, and all others do.
pub proof fn law_only_conversation_is_recorded(m: TrackerModel, channel_id: u128, event: RoomEventModel)
    ensures
        event.kind == 5 || event.kind == 7 || 20000 <= event.kind <= 29999 ==> m.recorded(
            channel_id,
            event,
        ) == m,
        !(event.kind == 5 || event.kind == 7 || 20000 <= event.kind <= 29999) ==> m.recorded(
            channel_id,
            event,
        ).own_events.contains(text::hex_encode(event.id)),
        OWN_EVENT_LIMIT == 4096,
        THREAD_LIMIT == 1024,
        CHAIN_MAP_LIMIT == 2048,
{
}

/// Recording an event engages nothing but the event itself and what it refers to.
pub proof fn law_recording_engages_nothing_else(
    m: TrackerModel,
    channel_id: u128,
    event: RoomEventModel,
    other: u128,
    id: Seq<char>,
)
    requires
        m.recorded(channel_id, event).engages(other, id),
    ensures
        ({
            ||| m.engages(other, id)
            ||| id == text::hex_encode(event.id)
            ||| other == channel_id && exists|i: int|
                0 <= i < event.tags.len() && (#[trigger] event.tags[i]).len() > 1
                    && event.tags[i][0] == "e"@ && event.tags[i][1] == id
        }),
{
    if other != channel_id {
        if id != text::hex_encode(event.id) {
            law_participation_is_channel_scoped(m, channel_id, event, other, id);
        }
    } else if !never_converses(event.kind) && !m.own_events.contains(id) && id != text::hex_encode(
        event.id,
    ) {
        let ids = referenced(event.tags);
        let keys = reference_keys(channel_id, ids);
        inserted_all_origin(m.threads, keys, thread_key(other, id));
        if keys.contains(thread_key(other, id)) {
            let k = keys.index_of(thread_key(other, id));
            law_thread_keys_are_distinct(channel_id, ids[k], other, id);
            let at = law_every_e_tag_is_a_reference(event.tags);
            let p = |t: Seq<Seq<char>>| t.len() > 1 && t[0] == "e"@;
            assert(p(event.tags[at[k]]));
            assert(event.tags[at[k]][1] == id);
        }
    }
}

/// Once the agent has taken part in a thread, every later event that refers to the thread, by any
/// of its tags, engages the agent in that channel; so does one that refers to an event of the
/// agent, in any channel.
pub proof fn law_replies_into_a_thread_engage(
    m: TrackerModel,
    channel_id: u128,
    own: RoomEventModel,
    i: int,
    reply: RoomEventModel,
    j: int,
    other: u128,
)
    requires
        m.sound(),
        !(own.kind == 5 || own.kind == 7 || 20000 <= own.kind <= 29999),
        0 <= j < reply.tags.len(),
        reply.tags[j].len() > 1,
        reply.tags[j][0] == "e"@,
    ensures
        ({
            let n = m.recorded(channel_id, own);
            &&& reply.tags[j][1] == text::hex_encode(own.id) ==> exists|k: int|
                0 <= k < referenced(reply.tags).len() && n.engages(
                    other,
                    #[trigger] referenced(reply.tags)[k],
                )
            &&& 0 <= i < own.tags.len() && own.tags[i].len() > 1 && own.tags[i][0] == "e"@
                && own.tags[i][1] == reply.tags[j][1] && own.tags.len() <= m.threads.recency()
                && !m.threads.contains(thread_key(channel_id, own.tags[i][1])) ==> exists|k: int|
                0 <= k < referenced(reply.tags).len() && n.engages(
                    channel_id,
                    #[trigger] referenced(reply.tags)[k],
                )
        }),
{
    let n = m.recorded(channel_id, own);
    let _ = law_every_e_tag_is_a_reference(reply.tags);
    let k = referenced(reply.tags).index_of(reply.tags[j][1]);
    assert(referenced(reply.tags)[k] == reply.tags[j][1]);
    law_two_generations_stay_bounded(m.own_events, text::hex_encode(own.id));
    if 0 <= i < own.tags.len() && own.tags[i].len() > 1 && own.tags[i][0] == "e"@
        && own.tags[i][1] == reply.tags[j][1] && own.tags.len() <= m.threads.recency()
        && !m.threads.contains(thread_key(channel_id, own.tags[i][1])) {
        let _ = law_every_e_tag_is_a_reference(own.tags);
        referenced_are_no_more(own.tags);
        let a = referenced(own.tags).index_of(own.tags[i][1]);
        law_references_engage(m, channel_id, own, a);
        assert(n.engages(channel_id, referenced(reply.tags)[k]));
    }
}

proof fn referenced_are_no_more(tags: Seq<Seq<Seq<char>>>)
    ensures
        referenced(tags).len() <= tags.len(),
    decreases tags.len(),
{
    if tags.len() > 0 {
        referenced_are_no_more(tags.drop_last());
    }
}

/// A reference reaches the agent exactly where it is one of the agent's own events, or one that
/// is remembered under the channel's written id, a colon and the reference.
pub proof fn law_references_reach_by_id_or_thread(m: TrackerModel, channel_id: u128, id: Seq<char>)
    ensures
        m.engages(channel_id, id) <==> {
            ||| m.own_events.current.contains(id)
            ||| m.own_events.previous.contains(id)
            ||| m.threads.current.contains(outside::uuid_text(channel_id) + ":"@ + id)
            ||| m.threads.previous.contains(outside::uuid_text(channel_id) + ":"@ + id)
        },
{
}

/// Putting a text in forgets nothing while the current generation has room, or where the text is
/// known already; otherwise it forgets no text of the current generation, unless there is no
/// generation before. What is remembered grows to half the limit at least.
pub proof fn law_forgetting_waits_for_a_full_generation(
    m: TwoGenModel,
    value: Seq<char>,
    known: Seq<char>,
)
    requires
        m.sound(),
        m.contains(known),
    ensures
        m.contains(value) || m.current.len() < m.half ==> m.inserted(value).contains(known),
        m.keeps_previous && m.current.contains(known) ==> m.inserted(value).contains(known),
        !m.contains(value) && m.current.len() < m.half ==> m.inserted(value).remembered()
            == m.remembered() + 1,
        m.keeps_previous && !m.contains(value) && m.current.len() == m.half ==> m.inserted(
            value,
        ).remembered() == m.half + 1,
        m.contains(value) ==> m.inserted(value) == m,
{
}

/// A turn is held back by the cap exactly where its thread has had the most turns in a row that
/// it may, and otherwise by the cooldown exactly where the channel's last turn is less than the
/// cooldown ago; else it is admitted, as the next in its row.
pub proof fn law_turns_are_held_back_for_a_reason(
    m: GuardModel,
    channel_id: u128,
    root_hex: Seq<char>,
    now: u128,
)
    requires
        m.sound(),
    ensures
        ({
            let key = outside::uuid_text(channel_id) + ":"@ + root_hex;
            let row: int = if m.chains.contains_key(key) {
                m.chains[key] as int
            } else {
                0
            };
            let r = m.verdict(channel_id, root_hex, now);
            &&& r == Err::<u32, SuppressReason>(SuppressReason::ChainCap) <==> row
                >= m.max_agent_chain
            &&& r == Err::<u32, SuppressReason>(SuppressReason::Cooldown) <==> row
                < m.max_agent_chain && m.cooldown_nanos > 0 && m.last_engaged.contains_key(
                channel_id,
            ) && now < m.last_engaged[channel_id] + m.cooldown_nanos
            &&& r is Ok ==> r->Ok_0 == row + 1
        }),
{
}

/// After an admitted turn the next one in the thread is admitted once the cooldown is over, as
/// the next in the row, until the cap is reached; a turn in another thread of the channel waits
/// just as long, and letting the brakes go for one thread leaves the rows of others and the clocks
/// of other channels alone.
pub proof fn law_rows_go_on_after_the_cooldown(
    m: GuardModel,
    channel_id: u128,
    root_hex: Seq<char>,
    now: u128,
    later: u128,
    other_channel: u128,
    other_root: Seq<char>,
)
    requires
        m.sound(),
    ensures
        m.verdict(channel_id, root_hex, now) matches Ok(n) ==> {
            let next = m.admitted(channel_id, root_hex, now);
            &&& later >= now + m.cooldown_nanos && n < m.max_agent_chain ==> next.verdict(
                channel_id,
                root_hex,
                later,
            ) == Ok::<u32, SuppressReason>((n + 1) as u32)
            &&& n == m.max_agent_chain ==> next.verdict(channel_id, root_hex, later) == Err::<
                u32,
                SuppressReason,
            >(SuppressReason::ChainCap)
            &&& 0 < m.cooldown_nanos && later < now + m.cooldown_nanos && n < m.max_agent_chain
                ==> next.verdict(
                channel_id,
                root_hex,
                later,
            ) == Err::<u32, SuppressReason>(SuppressReason::Cooldown)
            &&& next.max_agent_chain == m.max_agent_chain
            &&& next.cooldown_nanos == m.cooldown_nanos
        },
        channel_id != other_channel ==> m.reset(channel_id, root_hex).verdict(
            other_channel,
            other_root,
            later,
        ) == m.verdict(other_channel, other_root, later),
        root_hex != other_root ==> m.reset(channel_id, root_hex).chain(channel_id, other_root)
            == m.chain(channel_id, other_root),
{
    if thread_key(channel_id, root_hex) == thread_key(other_channel, other_root) {
        law_thread_keys_are_distinct(channel_id, root_hex, other_channel, other_root);
    }
    if thread_key(channel_id, root_hex) == thread_key(channel_id, other_root) {
        law_thread_keys_are_distinct(channel_id, root_hex, channel_id, other_root);
    }
}

/// Putting texts in one by one is putting in the first ones and then the others.
pub proof fn law_texts_are_put_in_one_by_one(
    m: TwoGenModel,
    a: Seq<Seq<char>>,
    b: Seq<Seq<char>>,
    value: Seq<char>,
)
    ensures
        m.inserted_all(a + b) == m.inserted_all(a).inserted_all(b),
        m.inserted_all(seq![value]) == m.inserted(value),
        m.inserted_all(Seq::empty()) == m,
    decreases b.len(),
{
    let one = seq![value];
    assert(one.drop_last() =~= Seq::empty());
    assert(m.inserted_all(one.drop_last()) == m);
    if b.len() == 0 {
        assert(a + b =~= a);
    } else {
        law_texts_are_put_in_one_by_one(m, a, b.drop_last(), value);
        assert((a + b).drop_last() =~= a + b.drop_last());
        assert((a + b).last() == b.last());
    }
}

/// What is remembered once a text has been put in: a known one changes nothing; a new one is
/// remembered beside all the others while the current generation has room; and where it has none,
/// beside the current generation alone, or by itself where no generation before is kept.
pub proof fn law_what_a_new_text_leaves(m: TwoGenModel, value: Seq<char>, x: Seq<char>)
    requires
        m.sound(),
    ensures
        m.inserted(value).contains(x) <==> {
            ||| x == value
            ||| m.contains(x) && (m.contains(value) || m.current.len() < m.half)
            ||| m.current.contains(x) && m.keeps_previous
        },
{
}

/// The room that a limit makes: all of it where it is even, all but one where it is odd, and in
/// any case room for one text, where the limit is 0 for two.
pub proof fn law_limits_make_room(limit: nat, x: Seq<char>)
    ensures
        !TwoGenModel::empty(limit).contains(x),
        limit == 0 ==> TwoGenModel::empty(limit).room() == 2,
        limit == 1 ==> TwoGenModel::empty(limit).room() == 1,
        limit >= 2 ==> TwoGenModel::empty(limit).room() == limit - limit % 2,
{
}

/// Recording an event of the conversation puts its id among the agent's own, and what it refers
/// to, under the channel, in the order of its references; whatever is remembered besides stays
/// as long as there is room.
pub proof fn law_recording_puts_in_what_it_refers_to(
    m: TrackerModel,
    channel_id: u128,
    event: RoomEventModel,
    keys: Seq<Seq<char>>,
    x: Seq<char>,
)
    requires
        m.sound(),
        !(event.kind == 5 || event.kind == 7 || 20000 <= event.kind <= 29999),
        keys.len() == referenced(event.tags).len(),
        forall|i: int|
            0 <= i < keys.len() ==> #[trigger] keys[i] == outside::uuid_text(channel_id) + ":"@
                + referenced(event.tags)[i],
    ensures
        m.recorded(channel_id, event).own_events == m.own_events.inserted(
            text::hex_encode(event.id),
        ),
        m.recorded(channel_id, event).threads == m.threads.inserted_all(keys),
        m.own_events.contains(x) && m.own_events.current.len() < m.own_events.half ==> m.recorded(
            channel_id,
            event,
        ).own_events.contains(x),
{
    assert(keys =~= reference_keys(channel_id, referenced(event.tags)));
}

/// Once as many rows are counted as there is room for, a turn in a thread without a row starts
/// all the others anew; otherwise it leaves them. Each reason has a code of its own.
pub proof fn law_rows_start_anew_where_there_is_no_room(
    m: GuardModel,
    channel_id: u128,
    root_hex: Seq<char>,
    now: u128,
    key: Seq<char>,
)
    requires
        key != outside::uuid_text(channel_id) + ":"@ + root_hex,
    ensures
        ({
            let own = outside::uuid_text(channel_id) + ":"@ + root_hex;
            let next = m.admitted(channel_id, root_hex, now);
            let full = m.chains.len() >= 2048 && !m.chains.contains_key(own);
            &&& full ==> !next.chains.contains_key(key)
            &&& !full ==> next.chains.contains_key(key) == m.chains.contains_key(key)
            &&& !full && m.chains.contains_key(key) ==> next.chains[key] == m.chains[key]
            &&& next.chains.contains_key(own)
            &&& next.last_engaged == m.last_engaged.insert(channel_id, now)
            &&& m.reset(channel_id, root_hex).chains == m.chains.remove(own)
            &&& m.reset(channel_id, root_hex).last_engaged == m.last_engaged.remove(channel_id)
        }),
        SuppressReason::ChainCap.code() == "chain_cap"@,
        SuppressReason::Cooldown.code() == "cooldown"@,
{
}

} // verus!
