//! The ledger store: a keyed table of tokens. Its mathematical face is the
//! partial lookup `spec_get`; every operation says pointwise what it does to
//! that lookup.

use vstd::prelude::*;
use crate::principal::Principal;
use crate::token::{NFT, nft_like};

verus! {

/// First token of `s` whose id is `id`.
pub open spec fn find_token(s: Seq<NFT>, id: u64) -> Option<NFT>
    decreases s.len(),
{
    if s.len() == 0 {
        None
    } else if s[0].id == id {
        Some(s[0])
    } else {
        find_token(s.drop_first(), id)
    }
}

/// No two tokens of `s` share an id.
pub open spec fn unique_ids(s: Seq<NFT>) -> bool {
    forall|i: int, j: int| 0 <= i < j < s.len() ==> s[i].id != s[j].id
}

proof fn lemma_find_props(s: Seq<NFT>, id: u64)
    ensures
        match find_token(s, id) {
            None => forall|i: int| 0 <= i < s.len() ==> s[i].id != id,
            Some(t) => t.id == id && exists|i: int| 0 <= i < s.len() && s[i] == t,
        },
    decreases s.len(),
{
    if s.len() == 0 {
    } else if s[0].id == id {
        assert(s[0] == find_token(s, id).unwrap());
    } else {
        lemma_find_props(s.drop_first(), id);
        match find_token(s.drop_first(), id) {
            None => {
                assert forall|i: int| 0 <= i < s.len() implies s[i].id != id by {
                    if i > 0 {
                        assert(s.drop_first()[i - 1] == s[i]);
                    }
                }
            },
            Some(t) => {
                let j = choose|j: int| 0 <= j < s.drop_first().len() && s.drop_first()[j] == t;
                assert(s[j + 1] == t);
            },
        }
    }
}

proof fn lemma_find_push(s: Seq<NFT>, t: NFT, id: u64)
    ensures
        find_token(s.push(t), id) == (if find_token(s, id) is Some {
            find_token(s, id)
        } else if t.id == id {
            Some(t)
        } else {
            None::<NFT>
        }),
    decreases s.len(),
{
    if s.len() == 0 {
        assert(s.push(t)[0] == t);
        assert(s.push(t).drop_first() =~= Seq::<NFT>::empty());
    } else {
        assert(s.push(t)[0] == s[0]);
        assert(s.push(t).drop_first() =~= s.drop_first().push(t));
        lemma_find_push(s.drop_first(), t, id);
    }
}

proof fn lemma_find_remove(s: Seq<NFT>, i: int, id: u64)
    requires
        unique_ids(s),
        0 <= i < s.len(),
    ensures
        find_token(s.remove(i), id) == (if s[i].id == id {
            None::<NFT>
        } else {
            find_token(s, id)
        }),
    decreases s.len(),
{
    if i == 0 {
        assert(s.remove(0) =~= s.drop_first());
        if s[0].id == id {
            lemma_find_props(s.drop_first(), id);
            if find_token(s.drop_first(), id) is Some {
                let t = find_token(s.drop_first(), id).unwrap();
                let j = choose|j: int|
                    0 <= j < s.drop_first().len() && s.drop_first()[j] == t;
                assert(s[j + 1] == t);
                assert(false);
            }
        }
    } else {
        assert(s.remove(i)[0] == s[0]);
        if s[0].id == id {
            assert(s[i].id != id);
        } else {
            assert(s.remove(i).drop_first() =~= s.drop_first().remove(i - 1));
            assert(s.drop_first()[i - 1] == s[i]);
            assert(unique_ids(s.drop_first())) by {
                assert forall|a: int, b: int|
                    0 <= a < b < s.drop_first().len() implies s.drop_first()[a].id
                    != s.drop_first()[b].id by {
                    assert(s.drop_first()[a] == s[a + 1]);
                    assert(s.drop_first()[b] == s[b + 1]);
                }
            }
            lemma_find_remove(s.drop_first(), i - 1, id);
        }
    }
}

proof fn lemma_find_update(s: Seq<NFT>, i: int, t: NFT, id: u64)
    requires
        unique_ids(s),
        0 <= i < s.len(),
        t.id == s[i].id,
    ensures
        find_token(s.update(i, t), id) == (if t.id == id {
            Some(t)
        } else {
            find_token(s, id)
        }),
    decreases s.len(),
{
    if i == 0 {
        assert(s.update(0, t)[0] == t);
        if t.id != id {
            assert(s.update(0, t).drop_first() =~= s.drop_first());
        }
    } else {
        assert(s.update(i, t)[0] == s[0]);
        if s[0].id == id {
            assert(s[i].id != id);
        } else {
            assert(s.update(i, t).drop_first() =~= s.drop_first().update(i - 1, t));
            assert(s.drop_first()[i - 1] == s[i]);
            assert(unique_ids(s.drop_first())) by {
                assert forall|a: int, b: int|
                    0 <= a < b < s.drop_first().len() implies s.drop_first()[a].id
                    != s.drop_first()[b].id by {
                    assert(s.drop_first()[a] == s[a + 1]);
                    assert(s.drop_first()[b] == s[b + 1]);
                }
            }
            lemma_find_update(s.drop_first(), i - 1, t, id);
        }
    }
}

/// The key-value table of tokens.
pub struct Ledger {
    tokens: Vec<NFT>,
}

impl Ledger {
    /// The token recorded under `id`, if any.
    pub closed spec fn spec_get(self, id: u64) -> Option<NFT> {
        find_token(self.tokens@, id)
    }

    /// Internal well-formedness: ids are pairwise distinct.
    pub closed spec fn wf(self) -> bool {
        unique_ids(self.tokens@)
    }

    /// How many tokens the ledger holds.
    pub closed spec fn token_count(self) -> nat {
        self.tokens@.len()
    }

    pub fn new() -> (r: Ledger)
        ensures
            r.wf(),
            r.token_count() == 0,
            forall|id: u64| r.spec_get(id) is None,
    {
        Ledger { tokens: Vec::new() }
    }

    fn find_index(&self, id: u64) -> (r: Option<usize>)
        ensures
            match r {
                Some(i) => i < self.tokens@.len() && self.tokens@[i as int].id == id
                    && self.spec_get(id) == Some(self.tokens@[i as int]),
                None => self.spec_get(id) is None,
            },
    {
        let n = self.tokens.len();
        let mut i: usize = 0;
        proof {
            assert(self.tokens@.skip(0) =~= self.tokens@);
        }
        while i < n
            invariant
                i <= n,
                n == self.tokens@.len(),
                find_token(self.tokens@, id) == find_token(self.tokens@.skip(i as int), id),
            decreases n - i,
        {
            if self.tokens[i].id == id {
                proof {
                    assert(self.tokens@.skip(i as int)[0] == self.tokens@[i as int]);
                }
                return Some(i);
            }
            proof {
                assert(self.tokens@.skip(i as int)[0] == self.tokens@[i as int]);
                assert(self.tokens@.skip(i as int).drop_first() =~= self.tokens@.skip(
                    i as int + 1,
                ));
            }
            i = i + 1;
        }
        proof {
            assert(self.tokens@.skip(n as int) =~= Seq::<NFT>::empty());
        }
        None
    }

    /// Borrows the token recorded under `id`.
    pub fn get(&self, id: u64) -> (r: Option<&NFT>)
        ensures
            match r {
                Some(t) => self.spec_get(id) == Some(*t),
                None => self.spec_get(id) is None,
            },
    {
        match self.find_index(id) {
            Some(i) => Some(&self.tokens[i]),
            None => None,
        }
    }

    /// Records a token under an id not yet present.
    pub fn put(&mut self, t: NFT)
        requires
            old(self).wf(),
            old(self).spec_get(t.id) is None,
        ensures
            final(self).wf(),
            final(self).spec_get(t.id) == Some(t),
            forall|id: u64| id != t.id ==> final(self).spec_get(id) == old(self).spec_get(id),
            final(self).token_count() == old(self).token_count() + 1,
    {
        proof {
            lemma_find_props(self.tokens@, t.id);
        }
        let ghost s = self.tokens@;
        self.tokens.push(t);
        proof {
            assert forall|id: u64| #![auto] true implies final_spec_matches(s, t, id,
                find_token(s.push(t), id)) by {
                lemma_find_push(s, t, id);
            }
            assert forall|i: int, j: int|
                0 <= i < j < s.push(t).len() implies s.push(t)[i].id != s.push(t)[j].id by {
                if j == s.len() {
                    assert(s.push(t)[i] == s[i]);
                }
            }
        }
    }

    /// Removes the token recorded under `id`, if any.
    pub fn remove(&mut self, id: u64)
        requires
            old(self).wf(),
        ensures
            final(self).wf(),
            final(self).spec_get(id) is None,
            forall|o: u64| o != id ==> final(self).spec_get(o) == old(self).spec_get(o),
            final(self).token_count() == if old(self).spec_get(id) is Some {
                old(self).token_count() - 1
            } else {
                old(self).token_count() as int
            },
    {
        match self.find_index(id) {
            Some(i) => {
                let ghost s = self.tokens@;
                self.tokens.remove(i);
                proof {
                    assert(self.tokens@ =~= s.remove(i as int));
                    assert forall|o: u64| #![auto] true implies find_token(
                        s.remove(i as int),
                        o,
                    ) == (if s[i as int].id == o {
                        None::<NFT>
                    } else {
                        find_token(s, o)
                    }) by {
                        lemma_find_remove(s, i as int, o);
                    }
                    assert forall|a: int, b: int|
                        0 <= a < b < s.remove(i as int).len() implies s.remove(i as int)[a].id
                        != s.remove(i as int)[b].id by {
                        assert(s.remove(i as int)[a] == if a < i { s[a] } else { s[a + 1] });
                        assert(s.remove(i as int)[b] == if b < i { s[b] } else { s[b + 1] });
                    }
                }
            },
            None => {},
        }
    }

    /// Re-records the token under `id` with a new owner.
    pub fn set_owner(&mut self, id: u64, new_owner: Principal)
        requires
            old(self).wf(),
            old(self).spec_get(id) is Some,
        ensures
            final(self).wf(),
            final(self).spec_get(id) matches Some(t) && t == (NFT {
                owner: new_owner,
                ..old(self).spec_get(id).unwrap()
            }),
            forall|o: u64| o != id ==> final(self).spec_get(o) == old(self).spec_get(o),
            final(self).token_count() == old(self).token_count(),
    {
        let i = self.find_index(id).unwrap();
        let ghost s = self.tokens@;
        let token = &mut self.tokens[i];
        token.owner = new_owner;
        proof {
            let t = NFT { owner: new_owner, ..s[i as int] };
            assert(self.tokens@ =~= s.update(i as int, t));
            assert forall|o: u64| #![auto] true implies find_token(s.update(i as int, t), o)
                == (if t.id == o {
                Some(t)
            } else {
                find_token(s, o)
            }) by {
                lemma_find_update(s, i as int, t, o);
            }
            assert forall|a: int, b: int|
                0 <= a < b < s.update(i as int, t).len() implies s.update(i as int, t)[a].id
                != s.update(i as int, t)[b].id by {
                assert(s.update(i as int, t)[a].id == s[a].id);
                assert(s.update(i as int, t)[b].id == s[b].id);
            }
        }
    }

    /// Re-records the token under `id` with a new active media index.
    pub fn set_media_index(&mut self, id: u64, new_index: u64)
        requires
            old(self).wf(),
            old(self).spec_get(id) is Some,
        ensures
            final(self).wf(),
            final(self).spec_get(id) matches Some(t) && t == (NFT {
                metadata: crate::token::TokenMetadata {
                    current_media_index: new_index,
                    ..old(self).spec_get(id).unwrap().metadata
                },
                ..old(self).spec_get(id).unwrap()
            }),
            forall|o: u64| o != id ==> final(self).spec_get(o) == old(self).spec_get(o),
            final(self).token_count() == old(self).token_count(),
    {
        let i = self.find_index(id).unwrap();
        let ghost s = self.tokens@;
        let token = &mut self.tokens[i];
        token.metadata.current_media_index = new_index;
        proof {
            let t = NFT {
                metadata: crate::token::TokenMetadata {
                    current_media_index: new_index,
                    ..s[i as int].metadata
                },
                ..s[i as int]
            };
            assert(self.tokens@ =~= s.update(i as int, t));
            assert forall|o: u64| #![auto] true implies find_token(s.update(i as int, t), o)
                == (if t.id == o {
                Some(t)
            } else {
                find_token(s, o)
            }) by {
                lemma_find_update(s, i as int, t, o);
            }
            assert forall|a: int, b: int|
                0 <= a < b < s.update(i as int, t).len() implies s.update(i as int, t)[a].id
                != s.update(i as int, t)[b].id by {
                assert(s.update(i as int, t)[a].id == s[a].id);
                assert(s.update(i as int, t)[b].id == s[b].id);
            }
        }
    }

    /// Copies every token out, in storage order.
    pub fn all_tokens(&self) -> (r: Vec<NFT>)
        requires
            self.wf(),
        ensures
            r@.len() == self.token_count(),
            forall|i: int|
                0 <= i < r@.len() ==> (self.spec_get(#[trigger] r@[i].id) matches Some(t)
                    && nft_like(r@[i], t)),
            forall|i: int, j: int| 0 <= i < j < r@.len() ==> r@[i].id != r@[j].id,
            forall|id: u64|
                self.spec_get(id) is Some ==> exists|i: int| 0 <= i < r@.len() && r@[i].id == id,
    {
        let mut r: Vec<NFT> = Vec::new();
        let mut i: usize = 0;
        let n = self.tokens.len();
        while i < n
            invariant
                i <= n,
                n == self.tokens@.len(),
                r@.len() == i,
                forall|k: int|
                    0 <= k < i ==> nft_like(#[trigger] r@[k], self.tokens@[k]) && r@[k].id
                        == self.tokens@[k].id,
            decreases n - i,
        {
            r.push(self.tokens[i].duplicate());
            i = i + 1;
        }
        proof {
            assert forall|k: int|
                0 <= k < r@.len() implies self.spec_get(#[trigger] r@[k].id) matches Some(t)
                && nft_like(r@[k], t) by {
                lemma_find_props(self.tokens@, r@[k].id);
                match find_token(self.tokens@, r@[k].id) {
                    None => {
                        assert(self.tokens@[k].id == r@[k].id);
                        assert(false);
                    },
                    Some(t) => {
                        let j = choose|j: int|
                            0 <= j < self.tokens@.len() && self.tokens@[j] == t;
                        assert(self.tokens@[j].id == r@[k].id);
                        assert(j == k);
                    },
                }
            }
            assert forall|id: u64| self.spec_get(id) is Some implies exists|i: int|
                0 <= i < r@.len() && r@[i].id == id by {
                lemma_find_props(self.tokens@, id);
                let t = find_token(self.tokens@, id).unwrap();
                let j = choose|j: int| 0 <= j < self.tokens@.len() && self.tokens@[j] == t;
                assert(r@[j].id == id);
            }
        }
        r
    }
}

/// Names the pointwise effect of `put`, so its quantified proof can speak of
/// it.
spec fn final_spec_matches(s: Seq<NFT>, t: NFT, id: u64, r: Option<NFT>) -> bool {
    r == (if find_token(s, id) is Some {
        find_token(s, id)
    } else if t.id == id {
        Some(t)
    } else {
        None::<NFT>
    })
}

} // verus!
