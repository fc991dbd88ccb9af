//! Association lists: sequences of keys and values in which no key occurs twice,
//! and the maps that they stand for.

use vstd::prelude::*;
use vstd::seq_lib::*;

use crate::text::same;

verus! {

/// Whether no key occurs twice.
pub open spec fn unique<K, V>(s: Seq<(K, V)>) -> bool {
    forall|i: int, j: int| 0 <= i < s.len() && 0 <= j < s.len() && s[i].0 == s[j].0 ==> i == j
}

/// Whether a key occurs.
pub open spec fn has_key<K, V>(s: Seq<(K, V)>, k: K) -> bool {
    exists|i: int| 0 <= i < s.len() && (#[trigger] s[i]).0 == k
}

/// Where a key occurs.
pub open spec fn position<K, V>(s: Seq<(K, V)>, k: K) -> int {
    choose|i: int| 0 <= i < s.len() && (#[trigger] s[i]).0 == k
}

/// The map that an association list stands for.
pub open spec fn as_map<K, V>(s: Seq<(K, V)>) -> Map<K, V> {
    Map::new(|k: K| has_key(s, k), |k: K| s[position(s, k)].1)
}

/// An entry's key leads to its value.
pub proof fn lookup<K, V>(s: Seq<(K, V)>, i: int)
    requires
        unique(s),
        0 <= i < s.len(),
    ensures
        has_key(s, s[i].0),
        as_map(s).dom().contains(s[i].0),
        as_map(s)[s[i].0] == s[i].1,
{
    let k = s[i].0;
    assert(has_key(s, k));
    let p = position(s, k);
    assert(0 <= p < s.len() && s[p].0 == k);
    assert(p == i);
}

/// Changing an entry's value changes the map at its key.
pub proof fn update_is_insert<K, V>(s: Seq<(K, V)>, i: int, v: V)
    requires
        unique(s),
        0 <= i < s.len(),
    ensures
        unique(s.update(i, (s[i].0, v))),
        as_map(s.update(i, (s[i].0, v))) == as_map(s).insert(s[i].0, v),
{
    let t = s.update(i, (s[i].0, v));
    assert forall|a: int, b: int| 0 <= a < t.len() && 0 <= b < t.len() && t[a].0 == t[b].0 implies a
        == b by {
        assert(t[a].0 == s[a].0 && t[b].0 == s[b].0);
    }
    assert forall|k: K| has_key(t, k) == has_key(s, k) by {
        if has_key(t, k) {
            let a = position(t, k);
            assert(s[a].0 == k);
        }
        if has_key(s, k) {
            let a = position(s, k);
            assert(t[a].0 == k);
        }
    }
    lookup(s, i);
    assert forall|k: K| has_key(t, k) implies as_map(t)[k] == as_map(s).insert(s[i].0, v)[k] by {
        let a = position(t, k);
        lookup(t, a);
        lookup(s, a);
    }
    assert(as_map(t) =~= as_map(s).insert(s[i].0, v));
}

/// A new entry adds its key to the map.
pub proof fn push_is_insert<K, V>(s: Seq<(K, V)>, k: K, v: V)
    requires
        unique(s),
        !has_key(s, k),
    ensures
        unique(s.push((k, v))),
        as_map(s.push((k, v))) == as_map(s).insert(k, v),
{
    let t = s.push((k, v));
    assert forall|a: int, b: int| 0 <= a < t.len() && 0 <= b < t.len() && t[a].0 == t[b].0 implies a
        == b by {
        if a < s.len() {
            assert(t[a] == s[a]);
        }
        if b < s.len() {
            assert(t[b] == s[b]);
        }
    }
    assert(t[s.len() as int].0 == k);
    assert forall|q: K| has_key(t, q) == (has_key(s, q) || q == k) by {
        if has_key(t, q) {
            let a = position(t, q);
            if a < s.len() {
                assert(s[a].0 == q);
            }
        }
        if has_key(s, q) {
            let a = position(s, q);
            assert(t[a].0 == q);
        }
    }
    assert forall|q: K| has_key(t, q) implies as_map(t)[q] == as_map(s).insert(k, v)[q] by {
        let a = position(t, q);
        lookup(t, a);
        if a < s.len() {
            assert(t[a] == s[a]);
            lookup(s, a);
        }
    }
    assert(as_map(t) =~= as_map(s).insert(k, v));
}

/// Dropping an entry drops its key from the map.
pub proof fn remove_is_remove<K, V>(s: Seq<(K, V)>, i: int)
    requires
        unique(s),
        0 <= i < s.len(),
    ensures
        unique(s.remove(i)),
        as_map(s.remove(i)) == as_map(s).remove(s[i].0),
{
    let t = s.remove(i);
    let gone = s[i].0;
    assert forall|a: int| 0 <= a < t.len() implies t[a] == s[if a < i { a } else { a + 1 }] by {}
    assert forall|a: int, b: int| 0 <= a < t.len() && 0 <= b < t.len() && t[a].0 == t[b].0 implies a
        == b by {}
    assert forall|k: K| has_key(t, k) == (has_key(s, k) && k != gone) by {
        if has_key(t, k) {
            let a = position(t, k);
            assert(s[if a < i { a } else { a + 1 }].0 == k);
        }
        if has_key(s, k) && k != gone {
            let a = position(s, k);
            let b = if a < i { a } else { a - 1 };
            assert(t[b].0 == k);
        }
    }
    assert forall|k: K| has_key(t, k) implies as_map(t)[k] == as_map(s).remove(gone)[k] by {
        let a = position(t, k);
        lookup(t, a);
        lookup(s, if a < i { a } else { a + 1 });
    }
    assert(as_map(t) =~= as_map(s).remove(gone));
}

/// Dropping an entry by moving the last one into its place drops its key from
/// the map.
pub proof fn swap_remove_is_remove<K, V>(s: Seq<(K, V)>, i: int)
    requires
        unique(s),
        0 <= i < s.len(),
    ensures
        unique(s.update(i, s.last()).drop_last()),
        as_map(s.update(i, s.last()).drop_last()) == as_map(s).remove(s[i].0),
{
    let t = s.update(i, s.last()).drop_last();
    let gone = s[i].0;
    let last = s.len() - 1;
    assert forall|a: int| 0 <= a < t.len() implies t[a] == s[if a == i { last } else { a }] by {}
    assert forall|a: int, b: int| 0 <= a < t.len() && 0 <= b < t.len() && t[a].0 == t[b].0 implies a
        == b by {}
    assert forall|k: K| has_key(t, k) == (has_key(s, k) && k != gone) by {
        if has_key(t, k) {
            let a = position(t, k);
            assert(s[if a == i { last } else { a }].0 == k);
        }
        if has_key(s, k) && k != gone {
            let a = position(s, k);
            let b = if a == last { i } else { a };
            assert(t[b].0 == k);
        }
    }
    assert forall|k: K| has_key(t, k) implies as_map(t)[k] == as_map(s).remove(gone)[k] by {
        let a = position(t, k);
        lookup(t, a);
        lookup(s, if a == i { last } else { a });
    }
    assert(as_map(t) =~= as_map(s).remove(gone));
}

/// The map has as many keys as the list has entries.
pub proof fn same_size<K, V>(s: Seq<(K, V)>)
    requires
        unique(s),
    ensures
        as_map(s).dom().finite(),
        as_map(s).len() == s.len(),
    decreases s.len(),
{
    if s.len() == 0 {
        assert(as_map(s).dom() =~= Set::empty());
    } else {
        let last = (s.len() - 1) as int;
        let t = s.remove(last);
        remove_is_remove(s, last);
        same_size(t);
        lookup(s, last);
        assert(as_map(s).dom() =~= as_map(t).dom().insert(s[last].0));
    }
}

/// The empty list stands for the empty map.
pub proof fn empty_is_empty<K, V>(s: Seq<(K, V)>)
    requires
        s.len() == 0,
    ensures
        unique(s),
        as_map(s) == Map::<K, V>::empty(),
{
    assert(as_map(s) =~= Map::<K, V>::empty());
}

/// Entries with texts for keys.
pub open spec fn texted<V>(list: Seq<(String, V)>) -> Seq<(Seq<char>, V)> {
    Seq::new(list.len(), |i: int| (list[i].0@, list[i].1))
}

/// Gives a key a value, whether or not it had one.
pub fn put<V>(list: &mut Vec<(String, V)>, key: String, value: V)
    requires
        unique(texted(old(list)@)),
    ensures
        unique(texted(final(list)@)),
        as_map(texted(final(list)@)) == as_map(texted(old(list)@)).insert(key@, value),
{
    let ghost before = texted(list@);
    let mut i: usize = 0;
    while i < list.len()
        invariant
            i <= list.len(),
            before == texted(list@),
            before == texted(old(list)@),
            unique(before),
            forall|k: int| 0 <= k < i ==> (#[trigger] list@[k]).0@ != key@,
        decreases list.len() - i,
    {
        if same(list[i].0.as_str(), key.as_str()) {
            proof {
                update_is_insert(before, i as int, value);
            }
            list.set(i, (key, value));
            assert(texted(list@) =~= before.update(i as int, (before[i as int].0, value)));
            return;
        }
        i = i + 1;
    }
    proof {
        if has_key(before, key@) {
            let k = position(before, key@);
            assert(list@[k].0@ == key@);
        }
        push_is_insert(before, key@, value);
    }
    list.push((key, value));
    assert(texted(list@) =~= before.push((key@, value)));
}

/// Entries as what their keys and values stand for.
pub open spec fn viewed<V: View>(list: Seq<(String, V)>) -> Seq<(Seq<char>, V::V)> {
    Seq::new(list.len(), |i: int| (list[i].0@, list[i].1@))
}

/// Finds a key.
pub fn find<V: View>(list: &Vec<(String, V)>, key: &str) -> (r: Option<usize>)
    requires
        unique(viewed(list@)),
    ensures
        r is Some <==> as_map(viewed(list@)).dom().contains(key@),
        r matches Some(i) ==> i < list@.len() && list@[i as int].0@ == key@ && as_map(
            viewed(list@),
        )[key@] == list@[i as int].1@,
{
    let mut i: usize = 0;
    while i < list.len()
        invariant
            i <= list.len(),
            unique(viewed(list@)),
            forall|k: int| 0 <= k < i ==> (#[trigger] list@[k]).0@ != key@,
        decreases list.len() - i,
    {
        if same(list[i].0.as_str(), key) {
            proof {
                lookup(viewed(list@), i as int);
            }
            return Some(i);
        }
        i = i + 1;
    }
    proof {
        let views = viewed(list@);
        if has_key(views, key@) {
            let k = position(views, key@);
            assert(list@[k].0@ == key@);
        }
    }
    None
}

/// Gives a key a value, whether or not it had one.
pub fn assign<V: View>(list: &mut Vec<(String, V)>, key: String, value: V)
    requires
        unique(viewed(old(list)@)),
    ensures
        unique(viewed(final(list)@)),
        as_map(viewed(final(list)@)) == as_map(viewed(old(list)@)).insert(key@, value@),
        forall|k: int|
            0 <= k < final(list)@.len() ==> (#[trigger] final(list)@[k]).1 == value || old(
                list,
            )@.contains(final(list)@[k]),
{
    let ghost before = list@;
    let ghost views = viewed(list@);
    match find(list, key.as_str()) {
        Some(i) => {
            proof {
                update_is_insert(views, i as int, value@);
            }
            list.set(i, (key, value));
            proof {
                assert(viewed(list@) =~= views.update(i as int, (views[i as int].0, value@)));
                assert forall|k: int| 0 <= k < list@.len() implies (#[trigger] list@[k]).1 == value
                    || before.contains(list@[k]) by {
                    if k != i {
                        assert(list@[k] == before[k]);
                    }
                }
            }
        },
        None => {
            proof {
                push_is_insert(views, key@, value@);
            }
            list.push((key, value));
            proof {
                assert(viewed(list@) =~= views.push((key@, value@)));
                assert forall|k: int| 0 <= k < list@.len() implies (#[trigger] list@[k]).1 == value
                    || before.contains(list@[k]) by {
                    if k < before.len() {
                        assert(list@[k] == before[k]);
                    }
                }
            }
        },
    }
}

/// Takes a key away, if it is there.
pub fn withdraw<V: View>(list: &mut Vec<(String, V)>, key: &str)
    requires
        unique(viewed(old(list)@)),
    ensures
        unique(viewed(final(list)@)),
        as_map(viewed(final(list)@)) == as_map(viewed(old(list)@)).remove(key@),
        forall|k: int|
            0 <= k < final(list)@.len() ==> old(list)@.contains(#[trigger] final(list)@[k]),
{
    let ghost before = list@;
    let ghost views = viewed(list@);
    match find(list, key) {
        Some(i) => {
            let _ = list.remove(i);
            proof {
                remove_is_remove(views, i as int);
                assert(viewed(list@) =~= views.remove(i as int));
                assert forall|k: int| 0 <= k < list@.len() implies before.contains(
                    #[trigger] list@[k],
                ) by {
                    let j = if k < i {
                        k
                    } else {
                        k + 1
                    };
                    assert(list@[k] == before[j]);
                }
            }
        },
        None => {
            proof {
                assert(as_map(views).remove(key@) =~= as_map(views));
                assert forall|k: int| 0 <= k < list@.len() implies before.contains(
                    #[trigger] list@[k],
                ) by {
                    assert(list@[k] == before[k]);
                }
            }
        },
    }
}

} // verus!
