//! How many of something each user holds, and all of them together.

use vstd::prelude::*;

use crate::assoc::{
    as_map, empty_is_empty, has_key, lookup, push_is_insert, swap_remove_is_remove, unique,
    update_is_insert,
};
use crate::text::same;

verus! {

/// Entries as what they hold.
pub open spec fn count_views(entries: Seq<(String, usize)>) -> Seq<(Seq<char>, nat)> {
    Seq::new(entries.len(), |i: int| (entries[i].0@, entries[i].1 as nat))
}

/// The sum of the counts.
pub open spec fn sum(s: Seq<(Seq<char>, nat)>) -> nat
    decreases s.len(),
{
    if s.len() == 0 {
        0
    } else {
        sum(s.drop_last()) + s.last().1
    }
}

proof fn sum_update(s: Seq<(Seq<char>, nat)>, i: int, e: (Seq<char>, nat))
    requires
        0 <= i < s.len(),
    ensures
        sum(s.update(i, e)) == sum(s) - s[i].1 + e.1,
        s[i].1 <= sum(s),
    decreases s.len(),
{
    if i == s.len() - 1 {
        assert(s.update(i, e).drop_last() =~= s.drop_last());
    } else {
        assert(s.update(i, e).drop_last() =~= s.drop_last().update(i, e));
        sum_update(s.drop_last(), i, e);
    }
}

proof fn sum_swap_remove(s: Seq<(Seq<char>, nat)>, i: int)
    requires
        0 <= i < s.len(),
    ensures
        sum(s.update(i, s.last()).drop_last()) == sum(s) - s[i].1,
        s[i].1 <= sum(s),
{
    sum_update(s, i, s.last());
    let t = s.update(i, s.last());
    assert(t.last() == s.last());
}

/// How many a user holds, of counts in which nobody stands for nobody.
pub open spec fn held(counts: Map<Seq<char>, nat>, user: Seq<char>) -> nat {
    if counts.dom().contains(user) {
        counts[user]
    } else {
        0
    }
}

/// The counts once a user took one.
pub open spec fn taken(counts: Map<Seq<char>, nat>, user: Seq<char>) -> Map<Seq<char>, nat> {
    counts.insert(user, held(counts, user) + 1)
}

/// The counts once a user gave one back. Who holds none is not listed.
pub open spec fn given_back(counts: Map<Seq<char>, nat>, user: Seq<char>) -> Map<Seq<char>, nat> {
    if held(counts, user) <= 1 {
        counts.remove(user)
    } else {
        counts.insert(user, (held(counts, user) - 1) as nat)
    }
}

/// Counts per user, and their sum.
pub struct UserCounts {
    entries: Vec<(String, usize)>,
    total: usize,
}

impl View for UserCounts {
    type V = Map<Seq<char>, nat>;

    closed spec fn view(&self) -> Map<Seq<char>, nat> {
        as_map(count_views(self.entries@))
    }
}

impl UserCounts {
    /// How many are held in all.
    pub closed spec fn total(&self) -> nat {
        self.total as nat
    }

    /// Whether no user is listed twice, nobody is listed with none, and the
    /// total is the sum.
    pub closed spec fn wf(&self) -> bool {
        &&& unique(count_views(self.entries@))
        &&& self.total as nat == sum(count_views(self.entries@))
        &&& forall|i: int| 0 <= i < self.entries@.len() ==> (#[trigger] self.entries@[i]).1 > 0
    }

    /// Nobody holds any.
    pub fn new() -> (r: UserCounts)
        ensures
            r.wf(),
            r@ == Map::<Seq<char>, nat>::empty(),
            r.total() == 0,
    {
        let r = UserCounts { entries: Vec::new(), total: 0 };
        proof {
            empty_is_empty(count_views(r.entries@));
        }
        r
    }

    fn find(&self, user: &str) -> (r: Option<usize>)
        requires
            self.wf(),
        ensures
            r matches Some(i) ==> i < self.entries@.len() && self.entries@[i as int].0@ == user@
                && self@.dom().contains(user@) && self@[user@] == self.entries@[i as int].1 as nat,
            r is None ==> !has_key(count_views(self.entries@), user@) && !self@.dom().contains(
                user@,
            ),
    {
        let mut i: usize = 0;
        while i < self.entries.len()
            invariant
                i <= self.entries.len(),
                self.wf(),
                forall|k: int| 0 <= k < i ==> (#[trigger] self.entries@[k]).0@ != user@,
            decreases self.entries.len() - i,
        {
            if same(self.entries[i].0.as_str(), user) {
                proof {
                    lookup(count_views(self.entries@), i as int);
                }
                return Some(i);
            }
            i = i + 1;
        }
        proof {
            let views = count_views(self.entries@);
            assert forall|k: int| 0 <= k < views.len() implies (#[trigger] views[k]).0 != user@ by {
                assert(self.entries@[k].0@ != user@);
            }
        }
        None
    }

    /// How many users hold any.
    pub fn users(&self) -> (r: usize)
        requires
            self.wf(),
        ensures
            r == self@.len(),
    {
        proof {
            crate::assoc::same_size(count_views(self.entries@));
        }
        self.entries.len()
    }

    /// Takes one for a user, unless all of them hold `most` already, or this
    /// user `most_each`.
    pub fn take(&mut self, user: &str, most: usize, most_each: usize) -> (r: bool)
        requires
            old(self).wf(),
        ensures
            final(self).wf(),
            r == (old(self).total() < most && held(old(self)@, user@) < most_each),
            r ==> final(self)@ == taken(old(self)@, user@) && final(self).total() == old(
                self,
            ).total() + 1,
            !r ==> *final(self) == *old(self),
    {
        if self.total >= most {
            return false;
        }
        let ghost before = count_views(self.entries@);
        match self.find(user) {
            Some(i) => {
                let n: usize = self.entries[i].1;
                if n >= most_each {
                    return false;
                }
                let name: String = self.entries[i].0.clone();
                proof {
                    sum_update(before, i as int, (user@, (n + 1) as nat));
                    update_is_insert(before, i as int, (n + 1) as nat);
                }
                self.entries.set(i, (name, n + 1));
                self.total = self.total + 1;
                assert(count_views(self.entries@) =~= before.update(
                    i as int,
                    (user@, (n + 1) as nat),
                ));
                true
            },
            None => {
                if most_each == 0 {
                    return false;
                }
                proof {
                    push_is_insert(before, user@, 1nat);
                    assert(before.push((user@, 1nat)).drop_last() =~= before);
                }
                self.entries.push((user.to_owned(), 1));
                self.total = self.total + 1;
                assert(count_views(self.entries@) =~= before.push((user@, 1nat)));
                true
            },
        }
    }

    /// Gives one back for a user. Who holds none gives none back.
    pub fn give_back(&mut self, user: &str)
        requires
            old(self).wf(),
        ensures
            final(self).wf(),
            final(self)@ == given_back(old(self)@, user@),
            final(self).total() == old(self).total() - (if old(self)@.dom().contains(user@) {
                1int
            } else {
                0
            }),
    {
        let ghost before = count_views(self.entries@);
        match self.find(user) {
            Some(i) => {
                let n: usize = self.entries[i].1;
                assert(n > 0);
                if n == 1 {
                    proof {
                        sum_swap_remove(before, i as int);
                        swap_remove_is_remove(before, i as int);
                    }
                    let _ = self.entries.swap_remove(i);
                    self.total = self.total - 1;
                    assert(count_views(self.entries@) =~= before.update(
                        i as int,
                        before.last(),
                    ).drop_last());
                } else {
                    let name: String = self.entries[i].0.clone();
                    proof {
                        sum_update(before, i as int, (user@, (n - 1) as nat));
                        update_is_insert(before, i as int, (n - 1) as nat);
                    }
                    self.entries.set(i, (name, n - 1));
                    self.total = self.total - 1;
                    assert(count_views(self.entries@) =~= before.update(
                        i as int,
                        (user@, (n - 1) as nat),
                    ));
                }
            },
            None => {
                assert(self@.remove(user@) =~= self@);
            },
        }
    }
}

/// Taking one and giving it back changes nothing, where nobody is listed who
/// holds none.
pub proof fn giving_back_undoes_taking(counts: Map<Seq<char>, nat>, user: Seq<char>)
    requires
        counts.dom().contains(user) ==> counts[user] > 0,
    ensures
        given_back(taken(counts, user), user) == counts,
{
    assert(given_back(taken(counts, user), user) =~= counts);
}

} // verus!
