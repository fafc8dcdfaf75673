//! A process environment: texts by text keys, kept in the order of the keys.
use vstd::prelude::*;

use crate::decision;
use crate::keyed;
use crate::text;

verus! {

/// Whether `a` stands before `b` in the order of texts: by the first character in which
/// they differ, and a text before all that it begins.
pub open spec fn lex_lt(a: Seq<char>, b: Seq<char>) -> bool
    decreases a.len(),
{
    if b.len() == 0 {
        false
    } else if a.len() == 0 {
        true
    } else if a[0] != b[0] {
        a[0] < b[0]
    } else {
        lex_lt(a.drop_first(), b.drop_first())
    }
}

proof fn lex_irreflexive(a: Seq<char>)
    ensures
        !lex_lt(a, a),
    decreases a.len(),
{
    if a.len() > 0 {
        lex_irreflexive(a.drop_first());
    }
}

proof fn lex_transitive(a: Seq<char>, b: Seq<char>, c: Seq<char>)
    requires
        lex_lt(a, b),
        lex_lt(b, c),
    ensures
        lex_lt(a, c),
    decreases a.len(),
{
    if a.len() > 0 && a[0] == b[0] && b[0] == c[0] {
        lex_transitive(a.drop_first(), b.drop_first(), c.drop_first());
    }
}

proof fn lex_total(a: Seq<char>, b: Seq<char>)
    ensures
        lex_lt(a, b) || lex_lt(b, a) || a == b,
    decreases a.len(),
{
    if a.len() > 0 && b.len() > 0 {
        if a[0] == b[0] {
            lex_total(a.drop_first(), b.drop_first());
            if a.drop_first() == b.drop_first() {
                assert(a =~= seq![a[0]] + a.drop_first());
                assert(b =~= seq![b[0]] + b.drop_first());
            }
        }
    } else if a.len() == 0 && b.len() == 0 {
        assert(a =~= b);
    }
}

/// Whether `a` stands before `b` in the order of texts.
pub fn stands_before(a: &str, b: &str) -> (r: bool)
    ensures
        r == lex_lt(a@, b@),
{
    let x: Vec<char> = text::chars_of(a);
    let y: Vec<char> = text::chars_of(b);
    let mut i: usize = 0;
    assert(x@.skip(0) =~= x@);
    assert(y@.skip(0) =~= y@);
    while i < x.len() && i < y.len()
        invariant
            i <= x.len(),
            i <= y.len(),
            lex_lt(x@, y@) == lex_lt(x@.skip(i as int), y@.skip(i as int)),
            x@ == a@,
            y@ == b@,
        decreases x.len() - i,
    {
        assert(x@.skip(i as int)[0] == x@[i as int]);
        assert(y@.skip(i as int)[0] == y@[i as int]);
        if x[i] != y[i] {
            return x[i] < y[i];
        }
        assert(x@.skip(i as int).drop_first() =~= x@.skip(i + 1));
        assert(y@.skip(i as int).drop_first() =~= y@.skip(i + 1));
        i += 1;
    }
    i < y.len()
}

/// What a pair of texts holds.
pub open spec fn pair_view(p: (String, String)) -> (Seq<char>, Seq<char>) {
    (p.0@, p.1@)
}

/// What a list of pairs holds.
pub open spec fn pair_views(v: Seq<(String, String)>) -> Seq<(Seq<char>, Seq<char>)> {
    v.map_values(|p: (String, String)| pair_view(p))
}

/// Whether the keys of a list stand in their order, each once.
pub open spec fn sorted(s: Seq<(Seq<char>, Seq<char>)>) -> bool {
    forall|i: int, j: int|
        0 <= i < j < s.len() ==> lex_lt((#[trigger] s[i]).0, (#[trigger] s[j]).0)
}

proof fn sorted_is_distinct(s: Seq<(Seq<char>, Seq<char>)>)
    requires
        sorted(s),
    ensures
        keyed::distinct(s),
{
    assert forall|i: int, j: int|
        0 <= i < s.len() && 0 <= j < s.len() && (#[trigger] s[i]).0 == (
        #[trigger] s[j]).0 implies i == j by {
        lex_irreflexive(s[i].0);
        if i < j {
            assert(lex_lt(s[i].0, s[j].0));
        } else if j < i {
            assert(lex_lt(s[j].0, s[i].0));
        }
    }
}

/// A sorted list is determined by the map that it stands for.
pub proof fn law_sorted_listing_is_unique(
    a: Seq<(Seq<char>, Seq<char>)>,
    b: Seq<(Seq<char>, Seq<char>)>,
)
    requires
        sorted(a),
        sorted(b),
        keyed::to_map(a) == keyed::to_map(b),
    ensures
        a == b,
    decreases a.len(),
{
    sorted_is_distinct(a);
    sorted_is_distinct(b);
    if a.len() == 0 {
        if b.len() > 0 {
            keyed::map_at(b, 0);
            assert(keyed::to_map(a).contains_key(b[0].0));
        }
        assert(a =~= b);
    } else {
        let last = a.len() - 1;
        keyed::map_at(a, last);
        let p = keyed::map_position(b, a[last].0);
        let end = b.len() - 1;
        if p < end {
            keyed::map_at(b, end);
            let q = keyed::map_position(a, b[end].0);
            assert(lex_lt(b[p].0, b[end].0));
            if q < last {
                assert(lex_lt(a[q].0, a[last].0));
                lex_transitive(a[q].0, a[last].0, b[end].0);
            }
            lex_irreflexive(b[end].0);
        }
        assert(p == end);
        assert(a[last] == b[end]);
        keyed::map_remove(a, last);
        keyed::map_remove(b, end);
        let a1 = a.remove(last);
        let b1 = b.remove(end);
        assert(a1 =~= a.drop_last());
        assert(b1 =~= b.drop_last());
        law_sorted_listing_is_unique(a1, b1);
        assert(a =~= a1.push(a[last]));
        assert(b =~= b1.push(b[end]));
    }
}

/// The entries of an environment in the order of their keys.
pub open spec fn sorted_listing(m: Map<Seq<char>, Seq<char>>) -> Seq<(Seq<char>, Seq<char>)> {
    choose|s: Seq<(Seq<char>, Seq<char>)>| #[trigger] sorted(s) && keyed::to_map(s) == m
}

/// Pairs as an environment; of two with the same key the later one counts.
pub open spec fn pairs_env(pairs: Seq<(Seq<char>, Seq<char>)>) -> Map<Seq<char>, Seq<char>>
    decreases pairs.len(),
{
    if pairs.len() == 0 {
        Map::empty()
    } else {
        pairs_env(pairs.drop_last()).insert(pairs.last().0, pairs.last().1)
    }
}

/// The entries of an environment whose keys have the property.
pub open spec fn kept(m: Map<Seq<char>, Seq<char>>, p: spec_fn(Seq<char>) -> bool) -> Map<
    Seq<char>,
    Seq<char>,
> {
    Map::new(|k: Seq<char>| m.contains_key(k) && p(k), |k: Seq<char>| m[k])
}

/// A process environment.
#[derive(Debug)]
pub struct EnvMap {
    entries: Vec<(String, String)>,
}

impl View for EnvMap {
    type V = Map<Seq<char>, Seq<char>>;

    closed spec fn view(&self) -> Map<Seq<char>, Seq<char>> {
        keyed::to_map(self.listing())
    }
}

impl EnvMap {
    /// The entries in the order of their keys.
    pub closed spec fn listing(self) -> Seq<(Seq<char>, Seq<char>)> {
        pair_views(self.entries@)
    }

    /// Whether the entries stand in the order of their keys, each key once.
    pub open spec fn wf(self) -> bool {
        sorted(self.listing())
    }

    /// The listing is the sorted one of the environment.
    pub proof fn lemma_listing(&self)
        requires
            self.wf(),
        ensures
            self@ == keyed::to_map(self.listing()),
            keyed::distinct(self.listing()),
            self.listing() == sorted_listing(self@),
    {
        sorted_is_distinct(self.listing());
        law_sorted_listing_is_unique(self.listing(), sorted_listing(self@));
    }

    /// An empty environment.
    pub fn new() -> (r: EnvMap)
        ensures
            r.wf(),
            r@ == Map::<Seq<char>, Seq<char>>::empty(),
            r.listing().len() == 0,
    {
        let r = EnvMap { entries: Vec::new() };
        assert(r@ =~= Map::empty());
        r
    }

    /// How many variables there are.
    pub fn len(&self) -> (r: usize)
        ensures
            r == self.listing().len(),
    {
        self.entries.len()
    }

    /// Whether there is no variable.
    pub fn is_empty(&self) -> (r: bool)
        requires
            self.wf(),
        ensures
            r == (self@ == Map::<Seq<char>, Seq<char>>::empty()),
    {
        proof {
            self.lemma_listing();
            if self.listing().len() > 0 {
                keyed::map_at(self.listing(), 0);
            } else {
                assert(self@ =~= Map::empty());
            }
        }
        self.entries.len() == 0
    }

    /// The key at a position of the listing.
    pub fn key_at(&self, i: usize) -> (r: &String)
        requires
            i < self.listing().len(),
        ensures
            r@ == self.listing()[i as int].0,
    {
        &self.entries[i].0
    }

    /// The value at a position of the listing.
    pub fn value_at(&self, i: usize) -> (r: &String)
        requires
            i < self.listing().len(),
        ensures
            r@ == self.listing()[i as int].1,
    {
        &self.entries[i].1
    }

    /// The value of a variable.
    pub fn get(&self, key: &str) -> (r: Option<&String>)
        requires
            self.wf(),
        ensures
            match r {
                Some(value) => self@.contains_key(key@) && self@[key@] == value@,
                None => !self@.contains_key(key@),
            },
    {
        proof {
            self.lemma_listing();
        }
        let mut i: usize = 0;
        while i < self.entries.len()
            invariant
                self.wf(),
                keyed::distinct(self.listing()),
                i <= self.entries.len(),
                forall|j: int| 0 <= j < i ==> (#[trigger] self.listing()[j]).0 != key@,
            decreases self.entries.len() - i,
        {
            assert(self.listing()[i as int] == pair_view(self.entries@[i as int]));
            if text::same(self.entries[i].0.as_str(), key) {
                proof {
                    keyed::map_at(self.listing(), i as int);
                }
                return Some(&self.entries[i].1);
            }
            i += 1;
        }
        proof {
            if self@.contains_key(key@) {
                let k = keyed::map_position(self.listing(), key@);
                assert(self.listing()[k].0 == key@);
            }
        }
        None
    }

    /// Sets a variable.
    pub fn insert(&mut self, key: String, value: String)
        requires
            old(self).wf(),
        ensures
            final(self).wf(),
            final(self)@ == old(self)@.insert(key@, value@),
    {
        let ghost list = self.listing();
        proof {
            self.lemma_listing();
        }
        let mut p: usize = 0;
        while p < self.entries.len() && stands_before(
            self.entries[p].0.as_str(),
            key.as_str(),
        )
            invariant
                *self == *old(self),
                self.wf(),
                list == self.listing(),
                p <= self.entries.len(),
                forall|j: int| 0 <= j < p ==> lex_lt((#[trigger] list[j]).0, key@),
            decreases self.entries.len() - p,
        {
            assert(list[p as int] == pair_view(self.entries@[p as int]));
            p += 1;
        }
        let present = p < self.entries.len() && text::same(
            self.entries[p].0.as_str(),
            key.as_str(),
        );
        let ghost k = key@;
        let ghost v = value@;
        if present {
            assert(list[p as int] == pair_view(self.entries@[p as int]));
            proof {
                keyed::map_update(list, p as int, v);
            }
            self.entries.set(p, (key, value));
            assert(self.listing() =~= list.update(p as int, (k, v)));
            assert(sorted(self.listing())) by {
                let now = self.listing();
                assert forall|i: int, j: int| 0 <= i < j < now.len() implies lex_lt(
                    (#[trigger] now[i]).0,
                    (#[trigger] now[j]).0,
                ) by {
                    assert(now[i].0 == list[i].0);
                    assert(now[j].0 == list[j].0);
                }
            }
        } else {
            proof {
                if p < self.entries@.len() {
                    assert(list[p as int] == pair_view(self.entries@[p as int]));
                    lex_total(list[p as int].0, k);
                }
                if self@.contains_key(k) {
                    let q = keyed::map_position(list, k);
                    lex_irreflexive(k);
                    if q > p {
                        assert(lex_lt(list[p as int].0, list[q].0));
                        lex_transitive(list[p as int].0, list[q].0, list[p as int].0);
                        lex_irreflexive(list[p as int].0);
                    }
                }
                keyed::map_insert_at(list, p as int, k, v);
            }
            self.entries.insert(p, (key, value));
            assert(self.listing() =~= list.insert(p as int, (k, v)));
            assert(sorted(self.listing())) by {
                let now = self.listing();
                assert forall|i: int, j: int| 0 <= i < j < now.len() implies lex_lt(
                    (#[trigger] now[i]).0,
                    (#[trigger] now[j]).0,
                ) by {
                    let a = if i < p {
                        i
                    } else {
                        i - 1
                    };
                    let b = if j < p {
                        j
                    } else {
                        j - 1
                    };
                    if i != p {
                        assert(now[i] == list[a]);
                    }
                    if j != p {
                        assert(now[j] == list[b]);
                    }
                    if i == p {
                        if b > p {
                            assert(lex_lt(list[p as int].0, list[b].0));
                            lex_transitive(k, list[p as int].0, list[b].0);
                        }
                    } else if j != p {
                        assert(lex_lt(list[a].0, list[b].0));
                    }
                }
            }
        }
    }

    /// Sets all variables of another environment; its values win.
    pub fn extend(&mut self, other: &EnvMap)
        requires
            old(self).wf(),
            other.wf(),
        ensures
            final(self).wf(),
            final(self)@ == old(self)@.union_prefer_right(other@),
    {
        let ghost list = other.listing();
        proof {
            other.lemma_listing();
        }
        let mut i: usize = 0;
        assert(keyed::to_map(list.take(0)) =~= Map::empty());
        assert(old(self)@.union_prefer_right(keyed::to_map(list.take(0))) =~= old(self)@);
        while i < other.len()
            invariant
                self.wf(),
                other.wf(),
                list == other.listing(),
                keyed::distinct(list),
                i <= list.len(),
                self@ == old(self)@.union_prefer_right(keyed::to_map(list.take(i as int))),
            decreases list.len() - i,
        {
            proof {
                keyed::map_take(list, i as int);
            }
            self.insert(other.key_at(i).clone(), other.value_at(i).clone());
            assert(self@ =~= old(self)@.union_prefer_right(keyed::to_map(list.take(i + 1))));
            i += 1;
        }
        assert(list.take(list.len() as int) =~= list);
    }

    /// Sets variables in the order of a list.
    pub fn insert_pairs(&mut self, pairs: &Vec<(String, String)>)
        requires
            old(self).wf(),
        ensures
            final(self).wf(),
            final(self)@ == old(self)@.union_prefer_right(pairs_env(pair_views(pairs@))),
    {
        let ghost all = pair_views(pairs@);
        let mut i: usize = 0;
        assert(old(self)@.union_prefer_right(pairs_env(all.take(0))) =~= old(self)@);
        while i < pairs.len()
            invariant
                self.wf(),
                i <= pairs.len(),
                all == pair_views(pairs@),
                self@ == old(self)@.union_prefer_right(pairs_env(all.take(i as int))),
            decreases pairs.len() - i,
        {
            assert(all.take(i + 1).drop_last() =~= all.take(i as int));
            assert(all.take(i + 1).last() == pair_view(pairs@[i as int]));
            self.insert(pairs[i].0.clone(), pairs[i].1.clone());
            assert(self@ =~= old(self)@.union_prefer_right(pairs_env(all.take(i + 1))));
            i += 1;
        }
        assert(all.take(all.len() as int) =~= all);
    }

    /// The entries whose keys are answered with `want`.
    pub fn filtered<F: Fn(&str) -> bool>(&self, f: &F, want: bool) -> (r: EnvMap)
        requires
            self.wf(),
            decision::decides(*f),
        ensures
            r.wf(),
            r@ == kept(self@, |k: Seq<char>| decision::verdict(*f)(k) == want),
    {
        let ghost p = |k: Seq<char>| decision::verdict(*f)(k) == want;
        let ghost list = self.listing();
        proof {
            self.lemma_listing();
        }
        let mut r = EnvMap::new();
        let mut i: usize = 0;
        assert(kept(keyed::to_map(list.take(0)), p) =~= Map::empty());
        while i < self.len()
            invariant
                self.wf(),
                r.wf(),
                decision::decides(*f),
                list == self.listing(),
                keyed::distinct(list),
                i <= list.len(),
                p == (|k: Seq<char>| decision::verdict(*f)(k) == want),
                r@ == kept(keyed::to_map(list.take(i as int)), p),
            decreases list.len() - i,
        {
            proof {
                keyed::map_take(list, i as int);
            }
            if decision::ask(f, self.key_at(i).as_str()) == want {
                r.insert(self.key_at(i).clone(), self.value_at(i).clone());
            }
            assert(r@ =~= kept(keyed::to_map(list.take(i + 1)), p));
            i += 1;
        }
        assert(list.take(list.len() as int) =~= list);
        r
    }

    /// A copy of the environment.
    pub fn copy(&self) -> (r: EnvMap)
        requires
            self.wf(),
        ensures
            r.wf(),
            r@ == self@,
            r.listing() == self.listing(),
    {
        let mut r = EnvMap::new();
        r.extend(self);
        assert(r@ =~= self@);
        proof {
            law_sorted_listing_is_unique(r.listing(), self.listing());
        }
        r
    }
}

/// One text stands before another exactly where they agree up to some place at which the first
/// has ended and the other goes on, or at which the first has the smaller character.
pub proof fn law_texts_are_ordered_by_their_first_difference(a: Seq<char>, b: Seq<char>)
    ensures
        lex_lt(a, b) <==> exists|k: int|
            {
                &&& 0 <= k <= a.len()
                &&& k < b.len()
                &&& a.take(k) == #[trigger] b.take(k)
                &&& k == a.len() || a[k] < b[k]
            },
    decreases a.len(),
{
    if b.len() > 0 && a.len() == 0 {
        assert(a.take(0) =~= b.take(0));
    } else if b.len() > 0 && a[0] != b[0] {
        assert(a.take(0) =~= b.take(0));
        assert forall|k: int|
            0 < k <= a.len() && k < b.len() && a.take(k) == #[trigger] b.take(k) implies false by {
            assert(a.take(k)[0] == b.take(k)[0]);
        }
    } else if b.len() > 0 {
        let c = a.drop_first();
        let d = b.drop_first();
        law_texts_are_ordered_by_their_first_difference(c, d);
        if lex_lt(a, b) {
            let k = choose|k: int|
                {
                    &&& 0 <= k <= c.len()
                    &&& k < d.len()
                    &&& c.take(k) == #[trigger] d.take(k)
                    &&& k == c.len() || c[k] < d[k]
                };
            assert forall|i: int| 0 <= i < k + 1 implies #[trigger] a[i] == b[i] by {
                if i > 0 {
                    assert(c.take(k)[i - 1] == d.take(k)[i - 1]);
                }
            }
            assert(a.take(k + 1) =~= b.take(k + 1));
        }
        assert forall|k: int|
            {
                &&& 0 <= k <= a.len()
                &&& k < b.len()
                &&& a.take(k) == #[trigger] b.take(k)
                &&& k == a.len() || a[k] < b[k]
            } implies lex_lt(a, b) by {
            assert(k > 0);
            assert forall|i: int| 0 <= i < k - 1 implies #[trigger] c[i] == d[i] by {
                assert(a.take(k)[i + 1] == b.take(k)[i + 1]);
            }
            assert(c.take(k - 1) =~= d.take(k - 1));
        }
    }
}

/// An environment made of pairs has exactly their keys, and each with the value of the last pair
/// that has the key.
pub proof fn law_the_last_pair_of_a_key_counts(
    pairs: Seq<(Seq<char>, Seq<char>)>,
    key: Seq<char>,
    i: int,
)
    ensures
        pairs_env(pairs).contains_key(key) <==> exists|k: int|
            0 <= k < pairs.len() && (#[trigger] pairs[k]).0 == key,
        0 <= i < pairs.len() && pairs[i].0 == key && (forall|k: int|
            i < k < pairs.len() ==> (#[trigger] pairs[k]).0 != key) ==> pairs_env(pairs)[key]
            == pairs[i].1,
    decreases pairs.len(),
{
    if pairs.len() > 0 {
        let rest = pairs.drop_last();
        law_the_last_pair_of_a_key_counts(rest, key, i);
        assert forall|k: int| 0 <= k < rest.len() implies #[trigger] rest[k] == pairs[k] by {}
        if pairs_env(pairs).contains_key(key) {
            if key == pairs.last().0 {
                assert(pairs[pairs.len() - 1].0 == key);
            } else {
                let k = choose|k: int| 0 <= k < rest.len() && (#[trigger] rest[k]).0 == key;
                assert(pairs[k].0 == key);
            }
        }
        if exists|k: int| 0 <= k < pairs.len() && (#[trigger] pairs[k]).0 == key {
            let k = choose|k: int| 0 <= k < pairs.len() && (#[trigger] pairs[k]).0 == key;
            if k < rest.len() {
                assert(rest[k].0 == key);
            }
        }
        if 0 <= i < rest.len() && pairs[i].0 == key && (forall|k: int|
            i < k < pairs.len() ==> (#[trigger] pairs[k]).0 != key) {
            assert(pairs[pairs.len() - 1].0 != key);
            assert forall|k: int| i < k < rest.len() implies (#[trigger] rest[k]).0 != key by {
                assert(pairs[k].0 != key);
            }
        }
    }
}

/// What is kept of an environment is exactly its variables whose names have the property, each
/// with its value.
pub proof fn law_kept_variables_keep_their_values(
    m: Map<Seq<char>, Seq<char>>,
    p: spec_fn(Seq<char>) -> bool,
    key: Seq<char>,
)
    ensures
        kept(m, p).contains_key(key) <==> m.contains_key(key) && p(key),
        m.contains_key(key) && p(key) ==> kept(m, p)[key] == m[key],
{
}

} // verus!
