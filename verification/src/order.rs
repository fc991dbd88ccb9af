//! The order of texts, character by character, and lists that are kept in it.

use vstd::prelude::*;

use crate::assoc::{as_map, has_key, lookup, position, unique, viewed};
use crate::text::chars;

verus! {

/// Whether a text comes before another.
pub open spec fn precedes(a: Seq<char>, b: Seq<char>) -> bool
    decreases a.len(),
{
    if b.len() == 0 {
        false
    } else if a.len() == 0 {
        true
    } else if a[0] == b[0] {
        precedes(a.skip(1), b.skip(1))
    } else {
        a[0] < b[0]
    }
}

/// No text comes before itself, and of two different texts one comes before the
/// other.
pub proof fn one_precedes(a: Seq<char>, b: Seq<char>)
    ensures
        a == b ==> !precedes(a, b),
        a != b ==> precedes(a, b) != precedes(b, a),
    decreases a.len(),
{
    if a.len() > 0 && b.len() > 0 {
        one_precedes(a.skip(1), b.skip(1));
        if a[0] == b[0] && a.skip(1) == b.skip(1) {
            assert(a =~= seq![a[0]] + a.skip(1));
            assert(b =~= seq![b[0]] + b.skip(1));
        }
    } else if a.len() == 0 && b.len() == 0 {
        assert(a =~= b);
    }
}

/// What comes before what comes before a text comes before it.
pub proof fn precedes_chains(a: Seq<char>, b: Seq<char>, c: Seq<char>)
    requires
        precedes(a, b),
        precedes(b, c),
    ensures
        precedes(a, c),
    decreases a.len(),
{
    if a.len() > 0 && a[0] == b[0] && b[0] == c[0] {
        precedes_chains(a.skip(1), b.skip(1), c.skip(1));
    }
}

/// Whether a text comes before another.
pub fn is_before(a: &str, b: &str) -> (r: bool)
    ensures
        r == precedes(a@, b@),
{
    let x: Vec<char> = chars(a);
    let y: Vec<char> = chars(b);
    let mut i: usize = 0;
    assert(a@.skip(0) =~= a@);
    assert(b@.skip(0) =~= b@);
    while i < x.len() && i < y.len()
        invariant
            i <= x.len(),
            i <= y.len(),
            x@ == a@,
            y@ == b@,
            precedes(a@, b@) == precedes(a@.skip(i as int), b@.skip(i as int)),
        decreases x.len() - i,
    {
        let ghost p = a@.skip(i as int);
        let ghost q = b@.skip(i as int);
        assert(p.skip(1) =~= a@.skip(i + 1));
        assert(q.skip(1) =~= b@.skip(i + 1));
        if x[i] != y[i] {
            return x[i] < y[i];
        }
        i = i + 1;
    }
    i < y.len()
}

/// Whether the keys of a list come in order.
pub open spec fn in_order<V>(list: Seq<(Seq<char>, V)>) -> bool {
    forall|i: int, j: int| 0 <= i < j < list.len() ==> precedes(list[i].0, list[j].0)
}

/// Keys in order do not repeat.
pub proof fn ordered_is_unique<V>(list: Seq<(Seq<char>, V)>)
    requires
        in_order(list),
    ensures
        unique(list),
{
    assert forall|i: int, j: int|
        0 <= i < list.len() && 0 <= j < list.len() && list[i].0 == list[j].0 implies i == j by {
        one_precedes(list[i].0, list[j].0);
        if i < j {
            assert(precedes(list[i].0, list[j].0));
        }
        if j < i {
            assert(precedes(list[j].0, list[i].0));
        }
    }
}

proof fn insert_is_insert<V>(s: Seq<(Seq<char>, V)>, at: int, k: Seq<char>, v: V)
    requires
        unique(s),
        0 <= at <= s.len(),
        !has_key(s, k),
    ensures
        unique(s.insert(at, (k, v))),
        as_map(s.insert(at, (k, v))) == as_map(s).insert(k, v),
{
    let t = s.insert(at, (k, v));
    assert forall|a: int| 0 <= a < t.len() && a != at implies t[a] == s[if a < at { a } else { a - 1 }] by {}
    assert forall|a: int, b: int| 0 <= a < t.len() && 0 <= b < t.len() && t[a].0 == t[b].0 implies a
        == b by {
        if a == at && b != at {
            assert(s[if b < at { b } else { b - 1 }].0 == k);
        }
        if b == at && a != at {
            assert(s[if a < at { a } else { a - 1 }].0 == k);
        }
    }
    assert(t[at].0 == k);
    assert forall|q: Seq<char>| has_key(t, q) == (has_key(s, q) || q == k) by {
        if has_key(t, q) {
            let a = position(t, q);
            if a != at {
                assert(s[if a < at { a } else { a - 1 }].0 == q);
            }
        }
        if has_key(s, q) {
            let a = position(s, q);
            assert(t[if a < at { a } else { a + 1 }].0 == q);
        }
    }
    assert forall|q: Seq<char>| has_key(t, q) implies as_map(t)[q] == as_map(s).insert(k, v)[q] by {
        let a = position(t, q);
        lookup(t, a);
        if a != at {
            lookup(s, if a < at { a } else { a - 1 });
        }
    }
    assert(as_map(t) =~= as_map(s).insert(k, v));
}

/// The entries of a list, with their keys in order.
pub fn sorted<V: View>(list: Vec<(String, V)>) -> (r: Vec<(String, V)>)
    requires
        unique(viewed(list@)),
    ensures
        in_order(viewed(r@)),
        as_map(viewed(r@)) == as_map(viewed(list@)),
        r@.len() == list@.len(),
        forall|k: int| 0 <= k < r@.len() ==> list@.contains(#[trigger] r@[k]),
{
    let ghost all = list@;
    let ghost views = viewed(all);
    let mut rest: Vec<(String, V)> = list;
    let mut out: Vec<(String, V)> = Vec::new();
    proof {
        assert(views.skip(rest@.len() as int) =~= Seq::empty());
        assert(viewed(out@) =~= Seq::empty());
    }
    while rest.len() > 0
        invariant
            rest@.len() <= all.len(),
            rest@ == all.take(rest@.len() as int),
            views == viewed(all),
            unique(views),
            in_order(viewed(out@)),
            as_map(viewed(out@)) == as_map(views.skip(rest@.len() as int)),
            out@.len() == all.len() - rest@.len(),
            forall|k: int| 0 <= k < out@.len() ==> all.contains(#[trigger] out@[k]),
        decreases rest.len(),
    {
        let ghost n = rest@.len() as int;
        let ghost tail = views.skip(n);
        let ghost kept = out@;
        match rest.pop() {
            Some(entry) => {
                proof {
                    assert(entry == all[n - 1]);
                    assert(rest@ =~= all.take(n - 1));
                    ordered_is_unique(viewed(kept));
                    let shorter = views.skip(n - 1);
                    assert(unique(tail)) by {
                        assert forall|a: int, b: int|
                            0 <= a < tail.len() && 0 <= b < tail.len() && tail[a].0 == tail[b].0
                            implies a == b by {
                            assert(tail[a] == views[a + n]);
                            assert(tail[b] == views[b + n]);
                        }
                    }
                    assert(!has_key(tail, entry.0@)) by {
                        if has_key(tail, entry.0@) {
                            let a = position(tail, entry.0@);
                            assert(views[a + n].0 == entry.0@);
                            assert(views[n - 1].0 == entry.0@);
                        }
                    }
                    insert_is_insert(tail, 0, entry.0@, entry.1@);
                    assert(tail.insert(0, (entry.0@, entry.1@)) =~= shorter);
                    assert(as_map(tail).dom().contains(entry.0@) == has_key(tail, entry.0@));
                    assert(as_map(viewed(kept)).dom().contains(entry.0@) == has_key(
                        viewed(kept),
                        entry.0@,
                    ));
                }
                let mut at: usize = 0;
                while at < out.len() && is_before(out[at].0.as_str(), entry.0.as_str())
                    invariant
                        at <= out.len(),
                        out@ == kept,
                        forall|k: int|
                            0 <= k < at ==> precedes((#[trigger] kept[k]).0@, entry.0@),
                    decreases out.len() - at,
                {
                    at = at + 1;
                }
                proof {
                    if at < kept.len() {
                        one_precedes(kept[at as int].0@, entry.0@);
                        if kept[at as int].0@ == entry.0@ {
                            assert(viewed(kept)[at as int].0 == entry.0@);
                        }
                        assert(precedes(entry.0@, kept[at as int].0@));
                    }
                    insert_is_insert(viewed(kept), at as int, entry.0@, entry.1@);
                }
                let ghost entry_key = entry.0@;
                let ghost entry_value = entry.1@;
                let ghost whole = entry;
                out.insert(at, entry);
                proof {
                    assert(viewed(out@) =~= viewed(kept).insert(
                        at as int,
                        (entry_key, entry_value),
                    ));
                    let v = viewed(out@);
                    let w = viewed(kept);
                    assert forall|i: int, j: int| 0 <= i < j < v.len() implies precedes(
                        v[i].0,
                        v[j].0,
                    ) by {
                        if i < at && j < at {
                            assert(v[i] == w[i] && v[j] == w[j]);
                        } else if i < at && j == at {
                            assert(kept[i].0@ == v[i].0);
                        } else if i < at {
                            assert(v[i] == w[i] && v[j] == w[j - 1]);
                        } else if i == at {
                            assert(v[j] == w[j - 1]);
                            if j - 1 > at {
                                assert(precedes(w[at as int].0, w[j - 1].0));
                                precedes_chains(entry_key, w[at as int].0, w[j - 1].0);
                            }
                        } else {
                            assert(v[i] == w[i - 1] && v[j] == w[j - 1]);
                        }
                    }
                    assert forall|k: int| 0 <= k < out@.len() implies all.contains(
                        #[trigger] out@[k],
                    ) by {
                        if k == at {
                            assert(out@[k] == all[n - 1]);
                        } else {
                            assert(out@[k] == kept[if k < at { k as int } else { k - 1 }]);
                        }
                    }
                }
            },
            None => {},
        }
    }
    assert(views.skip(0) =~= views);
    out
}

} // verus!
