//! Lists of keyed values as maps.
use vstd::prelude::*;

verus! {

/// Whether no two pairs of a list have the same key.
pub open spec fn distinct<K, V>(s: Seq<(K, V)>) -> bool {
    forall|i: int, j: int|
        0 <= i < s.len() && 0 <= j < s.len() && (#[trigger] s[i]).0 == (#[trigger] s[j]).0 ==> i
            == j
}

/// The pairs of a list as a map.
pub open spec fn to_map<K, V>(s: Seq<(K, V)>) -> Map<K, V> {
    Map::new(
        |key: K| exists|i: int| 0 <= i < s.len() && (#[trigger] s[i]).0 == key,
        |key: K| s[choose|i: int| 0 <= i < s.len() && (#[trigger] s[i]).0 == key].1,
    )
}

/// The map holds each pair of the list.
pub proof fn map_at<K, V>(s: Seq<(K, V)>, i: int)
    requires
        distinct(s),
        0 <= i < s.len(),
    ensures
        to_map(s).contains_key(s[i].0),
        to_map(s)[s[i].0] == s[i].1,
{
    let key = s[i].0;
    let k = choose|k: int| 0 <= k < s.len() && (#[trigger] s[k]).0 == key;
    assert(0 <= k < s.len() && s[k].0 == key);
}

/// The map holds nothing but the pairs of the list.
pub proof fn map_position<K, V>(s: Seq<(K, V)>, key: K) -> (i: int)
    requires
        distinct(s),
        to_map(s).contains_key(key),
    ensures
        0 <= i < s.len(),
        s[i].0 == key,
        s[i].1 == to_map(s)[key],
{
    let i = choose|i: int| 0 <= i < s.len() && (#[trigger] s[i]).0 == key;
    map_at(s, i);
    i
}

/// A pair with a new key at the end of the list is a new entry of the map.
pub proof fn map_push<K, V>(s: Seq<(K, V)>, key: K, value: V)
    requires
        distinct(s),
        !to_map(s).contains_key(key),
    ensures
        distinct(s.push((key, value))),
        to_map(s.push((key, value))) == to_map(s).insert(key, value),
{
    let t = s.push((key, value));
    assert forall|i: int, j: int|
        0 <= i < t.len() && 0 <= j < t.len() && (#[trigger] t[i]).0 == (
        #[trigger] t[j]).0 implies i == j by {
        if i < s.len() && j == s.len() {
            map_at(s, i);
        } else if j < s.len() && i == s.len() {
            map_at(s, j);
        } else if i < s.len() && j < s.len() {
            assert(s[i].0 == s[j].0);
        }
    }
    map_at(t, s.len() as int);
    assert forall|k: K| to_map(t).contains_key(k) == to_map(s).insert(key, value).contains_key(
        k,
    ) by {
        if to_map(s).contains_key(k) {
            let i = map_position(s, k);
            assert(t[i].0 == k);
        }
        if to_map(t).contains_key(k) && k != key {
            let i = map_position(t, k);
            assert(s[i].0 == k);
        }
    }
    assert forall|k: K| #[trigger] to_map(t).contains_key(k) implies to_map(t)[k] == to_map(
        s,
    ).insert(key, value)[k] by {
        if k != key {
            let i = map_position(t, k);
            assert(s[i].0 == k);
            map_at(s, i);
        }
    }
    assert(to_map(t) =~= to_map(s).insert(key, value));
}

/// Another value under the same key at the same place replaces the entry of the map.
pub proof fn map_update<K, V>(s: Seq<(K, V)>, at: int, value: V)
    requires
        distinct(s),
        0 <= at < s.len(),
    ensures
        distinct(s.update(at, (s[at].0, value))),
        to_map(s.update(at, (s[at].0, value))) == to_map(s).insert(s[at].0, value),
{
    let key = s[at].0;
    let t = s.update(at, (key, value));
    assert forall|i: int, j: int|
        0 <= i < t.len() && 0 <= j < t.len() && (#[trigger] t[i]).0 == (
        #[trigger] t[j]).0 implies i == j by {
        assert(s[i].0 == t[i].0);
        assert(s[j].0 == t[j].0);
    }
    map_at(t, at);
    map_at(s, at);
    assert forall|k: K| to_map(t).contains_key(k) == to_map(s).insert(key, value).contains_key(
        k,
    ) by {
        if to_map(s).contains_key(k) {
            let i = map_position(s, k);
            assert(t[i].0 == k);
        }
        if to_map(t).contains_key(k) {
            let i = map_position(t, k);
            assert(s[i].0 == k);
        }
    }
    assert forall|k: K| #[trigger] to_map(t).contains_key(k) implies to_map(t)[k] == to_map(
        s,
    ).insert(key, value)[k] by {
        if k != key {
            let i = map_position(t, k);
            assert(i != at);
            assert(s[i].0 == k);
            map_at(s, i);
        }
    }
    assert(to_map(t) =~= to_map(s).insert(key, value));
}

/// Taking a pair out of the list takes its entry out of the map.
pub proof fn map_remove<K, V>(s: Seq<(K, V)>, at: int)
    requires
        distinct(s),
        0 <= at < s.len(),
    ensures
        distinct(s.remove(at)),
        to_map(s.remove(at)) == to_map(s).remove(s[at].0),
{
    let key = s[at].0;
    let t = s.remove(at);
    assert forall|i: int| 0 <= i < t.len() implies #[trigger] t[i] == s[if i < at {
        i
    } else {
        i + 1
    }] by {}
    assert forall|i: int, j: int|
        0 <= i < t.len() && 0 <= j < t.len() && (#[trigger] t[i]).0 == (
        #[trigger] t[j]).0 implies i == j by {
        let a = if i < at {
            i
        } else {
            i + 1
        };
        let b = if j < at {
            j
        } else {
            j + 1
        };
        assert(s[a].0 == s[b].0);
    }
    assert forall|k: K| to_map(t).contains_key(k) == to_map(s).remove(key).contains_key(k) by {
        if to_map(s).contains_key(k) && k != key {
            let i = map_position(s, k);
            if i < at {
                assert(t[i].0 == k);
            } else {
                assert(t[i - 1].0 == k);
            }
        }
        if to_map(t).contains_key(k) {
            let i = map_position(t, k);
            let a = if i < at {
                i
            } else {
                i + 1
            };
            assert(s[a].0 == k);
            assert(a != at);
            if k == key {
                assert(s[a].0 == s[at].0);
            }
        }
    }
    assert forall|k: K| #[trigger] to_map(t).contains_key(k) implies to_map(t)[k] == to_map(
        s,
    ).remove(key)[k] by {
        let i = map_position(t, k);
        let a = if i < at {
            i
        } else {
            i + 1
        };
        assert(s[a].0 == k);
        map_at(s, a);
    }
    assert(to_map(t) =~= to_map(s).remove(key));
}

/// A pair with a new key anywhere in the list is a new entry of the map.
pub proof fn map_insert_at<K, V>(s: Seq<(K, V)>, at: int, key: K, value: V)
    requires
        distinct(s),
        0 <= at <= s.len(),
        !to_map(s).contains_key(key),
    ensures
        distinct(s.insert(at, (key, value))),
        to_map(s.insert(at, (key, value))) == to_map(s).insert(key, value),
{
    let t = s.insert(at, (key, value));
    assert(t.remove(at) =~= s);
    assert forall|i: int, j: int|
        0 <= i < t.len() && 0 <= j < t.len() && (#[trigger] t[i]).0 == (
        #[trigger] t[j]).0 implies i == j by {
        let a = if i < at {
            i
        } else {
            i - 1
        };
        let b = if j < at {
            j
        } else {
            j - 1
        };
        if i != at {
            assert(s[a] == t[i]);
        }
        if j != at {
            assert(s[b] == t[j]);
        }
        if i == at && j != at {
            map_at(s, b);
        } else if j == at && i != at {
            map_at(s, a);
        }
    }
    map_remove(t, at);
    map_at(t, at);
    assert(to_map(t) =~= to_map(s).insert(key, value)) by {
        assert forall|k: K| to_map(t).contains_key(k) == to_map(s).insert(key, value).contains_key(
            k,
        ) by {
            assert(to_map(s).contains_key(k) == to_map(t).remove(key).contains_key(k));
        }
        assert forall|k: K| #[trigger] to_map(t).contains_key(k) implies to_map(t)[k] == to_map(
            s,
        ).insert(key, value)[k] by {
            if k != key {
                assert(to_map(s)[k] == to_map(t).remove(key)[k]);
            }
        }
    }
}

/// Taking one more pair of a list adds its entry to the map.
pub proof fn map_take<K, V>(list: Seq<(K, V)>, i: int)
    requires
        distinct(list),
        0 <= i < list.len(),
    ensures
        distinct(list.take(i)),
        !to_map(list.take(i)).contains_key(list[i].0),
        to_map(list.take(i + 1)) == to_map(list.take(i)).insert(
            list[i].0,
            list[i].1,
        ),
{
    let head = list.take(i);
    assert forall|a: int, b: int|
        0 <= a < head.len() && 0 <= b < head.len() && (#[trigger] head[a]).0 == (
        #[trigger] head[b]).0 implies a == b by {
        assert(list[a].0 == list[b].0);
    }
    if to_map(head).contains_key(list[i].0) {
        let k = map_position(head, list[i].0);
        assert(list[k].0 == list[i].0);
    }
    map_push(head, list[i].0, list[i].1);
    assert(list.take(i + 1) =~= head.push((list[i].0, list[i].1)));
}

} // verus!
