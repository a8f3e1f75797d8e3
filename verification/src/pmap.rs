//! A small association table keyed by `Principal`, the backing store for the
//! owner index and for the hub's per-user tables. Its mathematical face is
//! the partial lookup `spec_get`.

use vstd::prelude::*;
use crate::principal::Principal;

verus! {

/// First value of `s` recorded under `p`.
pub open spec fn find_entry<V>(s: Seq<(Principal, V)>, p: Principal) -> Option<V>
    decreases s.len(),
{
    if s.len() == 0 {
        None
    } else if s[0].0 == p {
        Some(s[0].1)
    } else {
        find_entry(s.drop_first(), p)
    }
}

/// No two entries of `s` share a key.
pub open spec fn unique_keys<V>(s: Seq<(Principal, V)>) -> bool {
    forall|i: int, j: int| 0 <= i < j < s.len() ==> s[i].0 != s[j].0
}

proof fn lemma_find_entry_props<V>(s: Seq<(Principal, V)>, p: Principal)
    ensures
        match find_entry(s, p) {
            None => forall|i: int| 0 <= i < s.len() ==> s[i].0 != p,
            Some(v) => exists|i: int| 0 <= i < s.len() && s[i] == (p, v),
        },
    decreases s.len(),
{
    if s.len() == 0 {
    } else if s[0].0 == p {
        assert(s[0] == (p, find_entry(s, p).unwrap()));
    } else {
        lemma_find_entry_props(s.drop_first(), p);
        match find_entry(s.drop_first(), p) {
            None => {
                assert forall|i: int| 0 <= i < s.len() implies s[i].0 != p by {
                    if i > 0 {
                        assert(s.drop_first()[i - 1] == s[i]);
                    }
                }
            },
            Some(v) => {
                let j = choose|j: int|
                    0 <= j < s.drop_first().len() && s.drop_first()[j] == (p, v);
                assert(s[j + 1] == (p, v));
            },
        }
    }
}

proof fn lemma_find_entry_push<V>(s: Seq<(Principal, V)>, e: (Principal, V), p: Principal)
    ensures
        find_entry(s.push(e), p) == (if find_entry(s, p) is Some {
            find_entry(s, p)
        } else if e.0 == p {
            Some(e.1)
        } else {
            None::<V>
        }),
    decreases s.len(),
{
    if s.len() == 0 {
        assert(s.push(e)[0] == e);
        assert(s.push(e).drop_first() =~= Seq::<(Principal, V)>::empty());
        assert(find_entry(s, p) is None);
        if e.0 != p {
            assert(find_entry(s.push(e), p) == find_entry(
                Seq::<(Principal, V)>::empty(),
                p,
            ));
        }
    } else {
        assert(s.push(e)[0] == s[0]);
        assert(s.push(e).drop_first() =~= s.drop_first().push(e));
        lemma_find_entry_push(s.drop_first(), e, p);
    }
}

proof fn lemma_find_entry_remove<V>(s: Seq<(Principal, V)>, i: int, p: Principal)
    requires
        unique_keys(s),
        0 <= i < s.len(),
    ensures
        find_entry(s.remove(i), p) == (if s[i].0 == p {
            None::<V>
        } else {
            find_entry(s, p)
        }),
    decreases s.len(),
{
    if i == 0 {
        assert(s.remove(0) =~= s.drop_first());
        if s[0].0 == p {
            lemma_find_entry_props(s.drop_first(), p);
            if find_entry(s.drop_first(), p) is Some {
                let v = find_entry(s.drop_first(), p).unwrap();
                let j = choose|j: int|
                    0 <= j < s.drop_first().len() && s.drop_first()[j] == (p, v);
                assert(s[j + 1] == (p, v));
                assert(false);
            }
        }
    } else {
        assert(s.remove(i)[0] == s[0]);
        if s[0].0 == p {
            assert(s[i].0 != p);
        } else {
            assert(s.remove(i).drop_first() =~= s.drop_first().remove(i - 1));
            assert(s.drop_first()[i - 1] == s[i]);
            assert(unique_keys(s.drop_first())) by {
                assert forall|a: int, b: int|
                    0 <= a < b < s.drop_first().len() implies s.drop_first()[a].0
                    != s.drop_first()[b].0 by {
                    assert(s.drop_first()[a] == s[a + 1]);
                    assert(s.drop_first()[b] == s[b + 1]);
                }
            }
            lemma_find_entry_remove(s.drop_first(), i - 1, p);
        }
    }
}

/// The association table.
pub struct PMap<V> {
    entries: Vec<(Principal, V)>,
}

impl<V> PMap<V> {
    /// The value recorded under `p`, if any.
    pub closed spec fn spec_get(self, p: Principal) -> Option<V> {
        find_entry(self.entries@, p)
    }

    /// Internal well-formedness: keys are pairwise distinct.
    pub closed spec fn wf(self) -> bool {
        unique_keys(self.entries@)
    }

    /// The stored entries, in storage order.
    pub closed spec fn entries_seq(self) -> Seq<(Principal, V)> {
        self.entries@
    }

    pub open spec fn contains_key(self, p: Principal) -> bool {
        self.spec_get(p) is Some
    }

    /// Ties the entry list to the lookup, for callers that walk the table.
    pub proof fn lemma_entries(self)
        requires
            self.wf(),
        ensures
            forall|i: int|
                0 <= i < self.entries_seq().len() ==> self.spec_get(
                    #[trigger] self.entries_seq()[i].0,
                ) == Some(self.entries_seq()[i].1),
            forall|i: int, j: int|
                0 <= i < j < self.entries_seq().len() ==> self.entries_seq()[i].0
                    != self.entries_seq()[j].0,
            forall|p: Principal|
                self.spec_get(p) is Some ==> exists|i: int|
                    0 <= i < self.entries_seq().len() && self.entries_seq()[i] == (
                    p,
                    self.spec_get(p).unwrap(),
                    ),
    {
        assert forall|i: int| 0 <= i < self.entries_seq().len() implies self.spec_get(
            #[trigger] self.entries_seq()[i].0,
        ) == Some(self.entries_seq()[i].1) by {
            let p = self.entries_seq()[i].0;
            lemma_find_entry_props(self.entries@, p);
            match find_entry(self.entries@, p) {
                None => {
                    assert(self.entries@[i].0 == p);
                    assert(false);
                },
                Some(v) => {
                    let j = choose|j: int|
                        0 <= j < self.entries@.len() && self.entries@[j] == (p, v);
                    assert(j == i);
                },
            }
        }
        assert forall|p: Principal| self.spec_get(p) is Some implies exists|i: int|
            0 <= i < self.entries_seq().len() && self.entries_seq()[i] == (
            p,
            self.spec_get(p).unwrap(),
            ) by {
            lemma_find_entry_props(self.entries@, p);
        }
    }

    pub fn new() -> (r: PMap<V>)
        ensures
            r.wf(),
            forall|p: Principal| r.spec_get(p) is None,
            r.entries_seq().len() == 0,
    {
        PMap { entries: Vec::new() }
    }

    fn find_index(&self, p: Principal) -> (r: Option<usize>)
        ensures
            match r {
                Some(i) => i < self.entries@.len() && self.entries@[i as int].0 == p
                    && self.spec_get(p) == Some(self.entries@[i as int].1),
                None => self.spec_get(p) is None,
            },
    {
        let n = self.entries.len();
        let mut i: usize = 0;
        proof {
            assert(self.entries@.skip(0) =~= self.entries@);
        }
        while i < n
            invariant
                i <= n,
                n == self.entries@.len(),
                find_entry(self.entries@, p) == find_entry(self.entries@.skip(i as int), p),
            decreases n - i,
        {
            if self.entries[i].0 == p {
                proof {
                    assert(self.entries@.skip(i as int)[0] == self.entries@[i as int]);
                }
                return Some(i);
            }
            proof {
                assert(self.entries@.skip(i as int)[0] == self.entries@[i as int]);
                assert(self.entries@.skip(i as int).drop_first() =~= self.entries@.skip(
                    i as int + 1,
                ));
            }
            i = i + 1;
        }
        proof {
            assert(self.entries@.skip(n as int) =~= Seq::<(Principal, V)>::empty());
        }
        None
    }

    pub fn contains(&self, p: Principal) -> (r: bool)
        ensures
            r == self.contains_key(p),
    {
        self.find_index(p).is_some()
    }

    /// Borrows the value recorded under `p`.
    pub fn get(&self, p: Principal) -> (r: Option<&V>)
        ensures
            match r {
                Some(v) => self.spec_get(p) == Some(*v),
                None => self.spec_get(p) is None,
            },
    {
        match self.find_index(p) {
            Some(i) => Some(&self.entries[i].1),
            None => None,
        }
    }

    /// Records `v` under `p`, replacing any earlier value.
    pub fn set(&mut self, p: Principal, v: V)
        requires
            old(self).wf(),
        ensures
            final(self).wf(),
            final(self).spec_get(p) == Some(v),
            forall|q: Principal| q != p ==> final(self).spec_get(q) == old(self).spec_get(q),
            final(self).entries_seq().len() == if old(self).spec_get(p) is Some {
                old(self).entries_seq().len() as int
            } else {
                old(self).entries_seq().len() + 1 as int
            },
    {
        match self.find_index(p) {
            Some(i) => {
                let ghost s0 = self.entries@;
                self.entries.remove(i);
                let ghost s1 = self.entries@;
                proof {
                    assert(s1 =~= s0.remove(i as int));
                    assert forall|a: int, b: int|
                        0 <= a < b < s1.len() implies s1[a].0 != s1[b].0 by {
                        assert(s1[a] == if a < i { s0[a] } else { s0[a + 1] });
                        assert(s1[b] == if b < i { s0[b] } else { s0[b + 1] });
                    }
                }
                self.entries.push((p, v));
                proof {
                    assert forall|q: Principal| #![auto] true implies find_entry(
                        s1.push((p, v)),
                        q,
                    ) == (if find_entry(s1, q) is Some {
                        find_entry(s1, q)
                    } else if q == p {
                        Some(v)
                    } else {
                        None::<V>
                    }) by {
                        lemma_find_entry_push(s1, (p, v), q);
                    }
                    assert forall|q: Principal| #![auto] true implies find_entry(
                        s0.remove(i as int),
                        q,
                    ) == (if s0[i as int].0 == q {
                        None::<V>
                    } else {
                        find_entry(s0, q)
                    }) by {
                        lemma_find_entry_remove(s0, i as int, q);
                    }
                    assert forall|a: int, b: int|
                        0 <= a < b < s1.push((p, v)).len() implies s1.push((p, v))[a].0 != s1.push(
                        (p, v),
                    )[b].0 by {
                        if b == s1.len() {
                            assert(s1.push((p, v))[a] == s1[a]);
                            lemma_find_entry_props(s1, p);
                        }
                    }
                }
            },
            None => {
                let ghost s1 = self.entries@;
                self.entries.push((p, v));
                proof {
                    assert forall|q: Principal| #![auto] true implies find_entry(
                        s1.push((p, v)),
                        q,
                    ) == (if find_entry(s1, q) is Some {
                        find_entry(s1, q)
                    } else if q == p {
                        Some(v)
                    } else {
                        None::<V>
                    }) by {
                        lemma_find_entry_push(s1, (p, v), q);
                    }
                    assert forall|a: int, b: int|
                        0 <= a < b < s1.push((p, v)).len() implies s1.push((p, v))[a].0 != s1.push(
                        (p, v),
                    )[b].0 by {
                        if b == s1.len() {
                            assert(s1.push((p, v))[a] == s1[a]);
                            lemma_find_entry_props(s1, p);
                        }
                    }
                }
            },
        }
    }

    /// Removes the value recorded under `p`, if any.
    pub fn remove(&mut self, p: Principal)
        requires
            old(self).wf(),
        ensures
            final(self).wf(),
            final(self).spec_get(p) is None,
            forall|q: Principal| q != p ==> final(self).spec_get(q) == old(self).spec_get(q),
            final(self).entries_seq().len() == if old(self).spec_get(p) is Some {
                old(self).entries_seq().len() - 1
            } else {
                old(self).entries_seq().len() as int
            },
    {
        match self.find_index(p) {
            Some(i) => {
                let ghost s0 = self.entries@;
                self.entries.remove(i);
                proof {
                    assert(self.entries@ =~= s0.remove(i as int));
                    assert forall|q: Principal| #![auto] true implies find_entry(
                        s0.remove(i as int),
                        q,
                    ) == (if s0[i as int].0 == q {
                        None::<V>
                    } else {
                        find_entry(s0, q)
                    }) by {
                        lemma_find_entry_remove(s0, i as int, q);
                    }
                    assert forall|a: int, b: int|
                        0 <= a < b < s0.remove(i as int).len() implies s0.remove(i as int)[a].0
                        != s0.remove(i as int)[b].0 by {
                        assert(s0.remove(i as int)[a] == if a < i { s0[a] } else { s0[a + 1] });
                        assert(s0.remove(i as int)[b] == if b < i { s0[b] } else { s0[b + 1] });
                    }
                }
            },
            None => {},
        }
    }

    /// Borrows the entry list, for callers that walk the whole table.
    pub fn entries(&self) -> (r: &Vec<(Principal, V)>)
        ensures
            r@ == self.entries_seq(),
    {
        &self.entries
    }
}

} // verus!
