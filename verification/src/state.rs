//! The token contract's state and its lifecycle operations. Every operation
//! validates before it mutates: a rejected call leaves the state exactly as
//! it was.

use vstd::prelude::*;
use crate::auth::{can_mint, can_modify, can_admin, spec_can_mint, spec_can_admin};
use crate::errors::VnftError;
use crate::events::VnftEvent;
use crate::ledger::Ledger;
use crate::pmap::PMap;
use crate::principal::Principal;
use crate::token::{NFT, TokenMetadata, copy_ids, nft_like, meta_like};

verus! {

/// The whole state of the token contract.
pub struct VnftState {
    pub admin: Principal,
    pub nfts: Ledger,
    pub owner_nfts: PMap<Vec<u64>>,
    pub next_id: u64,
    pub main_contract: Option<Principal>,
    pub gas_for_one_time_updating: u64,
}

impl VnftState {
    /// The token recorded under `id`, if any.
    pub open spec fn token(self, id: u64) -> Option<NFT> {
        self.nfts.spec_get(id)
    }

    /// The ids the owner index records for `p`; empty when `p` was never an
    /// owner.
    pub open spec fn owned_ids(self, p: Principal) -> Seq<u64> {
        match self.owner_nfts.spec_get(p) {
            Some(v) => v@,
            None => Seq::empty(),
        }
    }

    /// The state invariant. Ids are unique and below `next_id`; metadata is
    /// well formed; and the owner index lists exactly the ids each principal
    /// owns, without duplicates.
    pub open spec fn wf(self) -> bool {
        &&& self.nfts.wf()
        &&& self.owner_nfts.wf()
        &&& self.next_id >= 1
        &&& forall|id: u64|
            #[trigger] self.token(id) matches Some(t) ==> t.id == id && id < self.next_id
                && t.metadata.wf()
        &&& forall|p: Principal, i: int|
            0 <= i < self.owned_ids(p).len() ==> (self.token(
                #[trigger] self.owned_ids(p)[i],
            ) matches Some(t) && t.owner == p)
        &&& forall|p: Principal, i: int, j: int|
            0 <= i < j < self.owned_ids(p).len() ==> #[trigger] self.owned_ids(p)[i]
                != #[trigger] self.owned_ids(p)[j]
        &&& forall|id: u64|
            #[trigger] self.token(id) matches Some(t) ==> self.owned_ids(t.owner).contains(id)
    }

    /// Well-formedness only reads the ledger, the owner index and the
    /// counter; the configuration fields do not matter to it.
    pub proof fn lemma_wf_depends_on_stores(a: VnftState, b: VnftState)
        requires
            a.wf(),
            b.nfts == a.nfts,
            b.owner_nfts == a.owner_nfts,
            b.next_id == a.next_id,
        ensures
            b.wf(),
    {
        assert forall|id: u64| #[trigger] b.token(id) is Some implies {
            let t = b.token(id).unwrap();
            t.id == id && id < b.next_id && t.metadata.wf()
        } by {
            assert(b.token(id) == a.token(id));
        }
        assert forall|p: Principal, i: int|
            0 <= i < b.owned_ids(p).len() implies (b.token(#[trigger] b.owned_ids(p)[i]) is Some
            && b.token(b.owned_ids(p)[i]).unwrap().owner == p) by {
            assert(b.owned_ids(p) == a.owned_ids(p));
            assert(a.token(a.owned_ids(p)[i]) is Some);
            assert(a.token(a.owned_ids(p)[i]).unwrap().owner == p);
        }
        assert forall|p: Principal, i: int, j: int|
            0 <= i < j < b.owned_ids(p).len() implies #[trigger] b.owned_ids(p)[i]
            != #[trigger] b.owned_ids(p)[j] by {
            assert(b.owned_ids(p) == a.owned_ids(p));
            assert(a.owned_ids(p)[i] != a.owned_ids(p)[j]);
        }
        assert forall|id: u64| #[trigger] b.token(id) is Some implies b.owned_ids(
            b.token(id).unwrap().owner,
        ).contains(id) by {
            assert(b.token(id) == a.token(id));
            let t = a.token(id).unwrap();
            assert(a.owned_ids(t.owner).contains(id));
            assert(b.owned_ids(t.owner) == a.owned_ids(t.owner));
        }
    }

    /// Seeds a fresh contract. The host must never seed with the zero
    /// address as admin.
    pub fn new(admin: Principal, main_contract: Option<Principal>, gas_for_one_time_updating: u64)
        -> (r: VnftState)
        requires
            !admin.spec_is_zero(),
        ensures
            r.wf(),
            r.admin == admin,
            r.main_contract == main_contract,
            r.gas_for_one_time_updating == gas_for_one_time_updating,
            r.next_id == 1,
            forall|id: u64| r.token(id) is None,
            forall|p: Principal| r.owned_ids(p) == Seq::<u64>::empty(),
    {
        VnftState {
            admin,
            nfts: Ledger::new(),
            owner_nfts: PMap::new(),
            next_id: 1,
            main_contract,
            gas_for_one_time_updating,
        }
    }

    /// The id list for `p`, copied out of the owner index.
    pub fn tokens_for_owner(&self, owner: Principal) -> (r: Vec<u64>)
        ensures
            r@ == self.owned_ids(owner),
    {
        match self.owner_nfts.get(owner) {
            Some(v) => copy_ids(v),
            None => Vec::new(),
        }
    }

    /// Mints a new token for `to`. Only the admin or the linked main
    /// contract may mint; the id is the current `next_id`, never one used
    /// before.
    pub fn mint(&mut self, caller: Principal, to: Principal, metadata: TokenMetadata) -> (r:
        Result<VnftEvent, VnftError>)
        requires
            old(self).wf(),
            metadata.wf(),
        ensures
            final(self).wf(),
            !spec_can_mint(caller, old(self).admin, old(self).main_contract)
                ==> r == Err::<VnftEvent, VnftError>(VnftError::Unauthorized)
                    && *final(self) == *old(self),
            spec_can_mint(caller, old(self).admin, old(self).main_contract)
                && old(self).next_id == u64::MAX
                ==> r == Err::<VnftEvent, VnftError>(VnftError::Overflow)
                    && *final(self) == *old(self),
            spec_can_mint(caller, old(self).admin, old(self).main_contract) && old(self).next_id
                < u64::MAX ==> {
                &&& r == Ok::<VnftEvent, VnftError>(VnftEvent::Minted {
                    id: old(self).next_id,
                    owner: to,
                })
                &&& final(self).next_id == old(self).next_id + 1
                &&& final(self).token(old(self).next_id) == Some(NFT {
                    id: old(self).next_id,
                    owner: to,
                    metadata,
                })
                &&& forall|id: u64|
                    id != old(self).next_id ==> final(self).token(id) == old(self).token(id)
                &&& final(self).owned_ids(to) == old(self).owned_ids(to).push(old(self).next_id)
                &&& forall|p: Principal|
                    p != to ==> final(self).owned_ids(p) == old(self).owned_ids(p)
                &&& final(self).admin == old(self).admin
                &&& final(self).main_contract == old(self).main_contract
                &&& final(self).gas_for_one_time_updating == old(self).gas_for_one_time_updating
            },
    {
        if !can_mint(caller, self.admin, self.main_contract) {
            return Err(VnftError::Unauthorized);
        }
        if self.next_id == u64::MAX {
            return Err(VnftError::Overflow);
        }
        let new_id = self.next_id;
        let ghost pre = *self;
        self.next_id = new_id + 1;
        let nft = NFT { id: new_id, owner: to, metadata };
        proof {
            if pre.token(new_id as u64) is Some {
                assert(pre.token(new_id as u64).unwrap().id < pre.next_id);
                assert(false);
            }
        }
        self.nfts.put(nft);
        let mut ids = self.tokens_for_owner(to);
        proof {
            if pre.owned_ids(to).contains(new_id as u64) {
                let i = choose|i: int|
                    0 <= i < pre.owned_ids(to).len() && pre.owned_ids(to)[i] == new_id;
                assert(pre.token(pre.owned_ids(to)[i]) matches Some(t) && t.owner == to);
                assert(false);
            }
        }
        ids.push(new_id);
        self.owner_nfts.set(to, ids);
        proof {
            let post = *self;
            assert(post.owned_ids(to) =~= pre.owned_ids(to).push(new_id as u64));
            assert forall|id: u64| #[trigger] post.token(id) is Some implies {
                let t = post.token(id).unwrap();
                t.id == id && id < post.next_id && t.metadata.wf()
            } by {
                if id != new_id {
                    assert(post.token(id) == pre.token(id));
                }
            }
            assert forall|p: Principal, i: int|
                0 <= i < post.owned_ids(p).len() implies (post.token(
                #[trigger] post.owned_ids(p)[i],
            ) matches Some(t) && t.owner == p) by {
                if p == to {
                    if i < pre.owned_ids(to).len() {
                        assert(pre.token(pre.owned_ids(to)[i]) matches Some(t) && t.owner == to);
                        assert(pre.owned_ids(to)[i] != new_id);
                    } else {
                        assert(post.owned_ids(to)[i] == new_id);
                    }
                } else {
                    assert(post.owned_ids(p) == pre.owned_ids(p));
                    assert(pre.token(pre.owned_ids(p)[i]) matches Some(t) && t.owner == p);
                    assert(pre.owned_ids(p)[i] != new_id);
                }
            }
            assert forall|p: Principal, i: int, j: int|
                0 <= i < j < post.owned_ids(p).len() implies #[trigger] post.owned_ids(p)[i]
                != #[trigger] post.owned_ids(p)[j] by {
                if p == to && j == pre.owned_ids(to).len() {
                    assert(pre.token(pre.owned_ids(to)[i]) matches Some(t) && t.owner == to);
                    assert(pre.owned_ids(to)[i] != new_id);
                } else if p == to {
                    assert(post.owned_ids(to)[i] == pre.owned_ids(to)[i]);
                    assert(post.owned_ids(to)[j] == pre.owned_ids(to)[j]);
                    assert(pre.owned_ids(to)[i] != pre.owned_ids(to)[j]);
                } else {
                    assert(post.owned_ids(p) == pre.owned_ids(p));
                    assert(pre.owned_ids(p)[i] != pre.owned_ids(p)[j]);
                }
            }
            assert forall|id: u64| #[trigger] post.token(id) is Some implies post.owned_ids(
                post.token(id).unwrap().owner,
            ).contains(id) by {
                if id == new_id {
                    assert(post.owned_ids(to)[pre.owned_ids(to).len() as int] == new_id);
                } else {
                    assert(post.token(id) == pre.token(id));
                    let t = pre.token(id).unwrap();
                    let i = choose|i: int|
                        0 <= i < pre.owned_ids(t.owner).len() && pre.owned_ids(t.owner)[i] == id;
                    if t.owner == to {
                        assert(post.owned_ids(to)[i] == id);
                    } else {
                        assert(post.owned_ids(t.owner)[i] == id);
                    }
                }
            }
        }
        Ok(VnftEvent::Minted { id: new_id, owner: to })
    }

    /// Burns the token `id`. Only its owner may burn; the id disappears from
    /// the ledger and from the owner's list and is never handed out again.
    pub fn burn(&mut self, caller: Principal, id: u64) -> (r: Result<VnftEvent, VnftError>)
        requires
            old(self).wf(),
        ensures
            final(self).wf(),
            old(self).token(id) is None
                ==> r == Err::<VnftEvent, VnftError>(VnftError::NotFound)
                    && *final(self) == *old(self),
            old(self).token(id) is Some && old(self).token(id).unwrap().owner != caller
                ==> r == Err::<VnftEvent, VnftError>(VnftError::NotOwner)
                    && *final(self) == *old(self),
            old(self).token(id) is Some && old(self).token(id).unwrap().owner == caller ==> {
                &&& r == Ok::<VnftEvent, VnftError>(VnftEvent::Burned { id, owner: caller })
                &&& final(self).token(id) is None
                &&& forall|o: u64| o != id ==> final(self).token(o) == old(self).token(o)
                &&& final(self).owned_ids(caller) == old(self).owned_ids(caller).remove_value(id)
                &&& !final(self).owned_ids(caller).contains(id)
                &&& forall|p: Principal|
                    p != caller ==> final(self).owned_ids(p) == old(self).owned_ids(p)
                &&& final(self).next_id == old(self).next_id
                &&& final(self).admin == old(self).admin
                &&& final(self).main_contract == old(self).main_contract
                &&& final(self).gas_for_one_time_updating == old(self).gas_for_one_time_updating
            },
    {
        let owner = match self.nfts.get(id) {
            None => {
                return Err(VnftError::NotFound);
            },
            Some(t) => t.owner,
        };
        if !can_modify(caller, owner) {
            return Err(VnftError::NotOwner);
        }
        let ghost pre = *self;
        self.nfts.remove(id);
        let mut ids = self.tokens_for_owner(caller);
        remove_id(&mut ids, id);
        self.owner_nfts.set(caller, ids);
        proof {
            let post = *self;
            let pre_list = pre.owned_ids(caller);
            pre_list.index_of_first_ensures(id);
            assert(pre.token(id).unwrap().owner == caller);
            assert(pre_list.contains(id));
            let idx = pre_list.index_of_first(id).unwrap();
            assert(post.owned_ids(caller) == pre_list.remove(idx));
            assert forall|k: int|
                0 <= k < post.owned_ids(caller).len() implies #[trigger] post.owned_ids(caller)[k]
                != id && pre_list.contains(post.owned_ids(caller)[k]) by {
                if k < idx {
                    assert(post.owned_ids(caller)[k] == pre_list[k]);
                } else {
                    assert(post.owned_ids(caller)[k] == pre_list[k + 1]);
                }
            }
            assert forall|id2: u64| #[trigger] post.token(id2) is Some implies {
                let t = post.token(id2).unwrap();
                t.id == id2 && id2 < post.next_id && t.metadata.wf()
            } by {
                assert(id2 != id);
                assert(post.token(id2) == pre.token(id2));
            }
            assert forall|p: Principal, i: int|
                0 <= i < post.owned_ids(p).len() implies (post.token(
                #[trigger] post.owned_ids(p)[i],
            ) is Some && post.token(post.owned_ids(p)[i]).unwrap().owner == p) by {
                if p == caller {
                    let e = post.owned_ids(caller)[i];
                    assert(e != id);
                    let j = choose|j: int| 0 <= j < pre_list.len() && pre_list[j] == e;
                    assert(pre.token(pre_list[j]) is Some);
                } else {
                    assert(post.owned_ids(p) == pre.owned_ids(p));
                    assert(pre.token(pre.owned_ids(p)[i]) is Some);
                    assert(pre.token(pre.owned_ids(p)[i]).unwrap().owner == p);
                    assert(pre.owned_ids(p)[i] != id);
                }
            }
            assert forall|p: Principal, i: int, j: int|
                0 <= i < j < post.owned_ids(p).len() implies #[trigger] post.owned_ids(p)[i]
                != #[trigger] post.owned_ids(p)[j] by {
                if p == caller {
                    let a = if i < idx { i } else { i + 1 };
                    let b = if j < idx { j } else { j + 1 };
                    assert(post.owned_ids(caller)[i] == pre_list[a]);
                    assert(post.owned_ids(caller)[j] == pre_list[b]);
                    assert(pre.owned_ids(caller)[a] != pre.owned_ids(caller)[b]);
                } else {
                    assert(post.owned_ids(p) == pre.owned_ids(p));
                    assert(pre.owned_ids(p)[i] != pre.owned_ids(p)[j]);
                }
            }
            assert forall|id2: u64| #[trigger] post.token(id2) is Some implies post.owned_ids(
                post.token(id2).unwrap().owner,
            ).contains(id2) by {
                assert(id2 != id);
                assert(post.token(id2) == pre.token(id2));
                let t = pre.token(id2).unwrap();
                let j = choose|j: int|
                    0 <= j < pre.owned_ids(t.owner).len() && pre.owned_ids(t.owner)[j] == id2;
                if t.owner == caller {
                    assert(pre_list[j] == id2);
                    assert(j != idx);
                    if j < idx {
                        assert(post.owned_ids(caller)[j] == id2);
                    } else {
                        assert(post.owned_ids(caller)[j - 1] == pre_list[j]);
                    }
                } else {
                    assert(post.owned_ids(t.owner)[j] == id2);
                }
            }
        }
        Ok(VnftEvent::Burned { id, owner: caller })
    }

    /// Transfers the token `id` to `to`. Only its owner may transfer; a
    /// transfer to oneself succeeds and leaves the token owned as before.
    pub fn transfer(&mut self, caller: Principal, id: u64, to: Principal) -> (r: Result<
        VnftEvent,
        VnftError,
    >)
        requires
            old(self).wf(),
        ensures
            final(self).wf(),
            old(self).token(id) is None
                ==> r == Err::<VnftEvent, VnftError>(VnftError::NotFound)
                    && *final(self) == *old(self),
            old(self).token(id) is Some && old(self).token(id).unwrap().owner != caller
                ==> r == Err::<VnftEvent, VnftError>(VnftError::NotOwner)
                    && *final(self) == *old(self),
            old(self).token(id) is Some && old(self).token(id).unwrap().owner == caller ==> {
                &&& r == Ok::<VnftEvent, VnftError>(VnftEvent::Transferred {
                    id,
                    from: caller,
                    to,
                })
                &&& final(self).token(id) == Some(NFT { owner: to, ..old(self).token(id).unwrap() })
                &&& forall|o: u64| o != id ==> final(self).token(o) == old(self).token(o)
                &&& final(self).owned_ids(to) == (if to == caller {
                    old(self).owned_ids(caller).remove_value(id)
                } else {
                    old(self).owned_ids(to)
                }).push(id)
                &&& to != caller ==> final(self).owned_ids(caller) == old(self).owned_ids(
                    caller,
                ).remove_value(id) && !final(self).owned_ids(caller).contains(id)
                &&& final(self).owned_ids(to).contains(id)
                &&& forall|p: Principal|
                    p != caller && p != to ==> final(self).owned_ids(p) == old(self).owned_ids(p)
                &&& final(self).next_id == old(self).next_id
                &&& final(self).admin == old(self).admin
                &&& final(self).main_contract == old(self).main_contract
                &&& final(self).gas_for_one_time_updating == old(self).gas_for_one_time_updating
            },
    {
        let owner = match self.nfts.get(id) {
            None => {
                return Err(VnftError::NotFound);
            },
            Some(t) => t.owner,
        };
        if !can_modify(caller, owner) {
            return Err(VnftError::NotOwner);
        }
        let ghost pre = *self;
        let mut from_ids = self.tokens_for_owner(caller);
        remove_id(&mut from_ids, id);
        self.owner_nfts.set(caller, from_ids);
        self.nfts.set_owner(id, to);
        let mut to_ids = self.tokens_for_owner(to);
        proof {
            let pre_list = pre.owned_ids(caller);
            pre_list.index_of_first_ensures(id);
            assert(pre.token(id).unwrap().owner == caller);
            assert(pre_list.contains(id));
            let idx = pre_list.index_of_first(id).unwrap();
            assert forall|k: int|
                0 <= k < pre_list.remove(idx).len() implies #[trigger] pre_list.remove(idx)[k]
                != id && pre_list.contains(pre_list.remove(idx)[k]) by {
                if k < idx {
                    assert(pre_list.remove(idx)[k] == pre_list[k]);
                } else {
                    assert(pre_list.remove(idx)[k] == pre_list[k + 1]);
                }
            }
            if to != caller {
                assert forall|k: int|
                    0 <= k < pre.owned_ids(to).len() implies #[trigger] pre.owned_ids(to)[k]
                    != id by {
                    assert(pre.token(pre.owned_ids(to)[k]) is Some);
                    assert(pre.token(pre.owned_ids(to)[k]).unwrap().owner == to);
                }
            }
        }
        to_ids.push(id);
        self.owner_nfts.set(to, to_ids);
        proof {
            let post = *self;
            let pre_list = pre.owned_ids(caller);
            let idx = pre_list.index_of_first(id).unwrap();
            let mid = pre_list.remove(idx);
            let base = if to == caller { mid } else { pre.owned_ids(to) };
            assert(post.owned_ids(to) == base.push(id));
            assert(post.owned_ids(to)[base.len() as int] == id);
            assert(post.owned_ids(to).contains(id));
            assert forall|id2: u64| #[trigger] post.token(id2) is Some implies {
                let t = post.token(id2).unwrap();
                t.id == id2 && id2 < post.next_id && t.metadata.wf()
            } by {
                if id2 != id {
                    assert(post.token(id2) == pre.token(id2));
                } else {
                    assert(pre.token(id) is Some);
                }
            }
            assert forall|p: Principal, i: int|
                0 <= i < post.owned_ids(p).len() implies (post.token(
                #[trigger] post.owned_ids(p)[i],
            ) is Some && post.token(post.owned_ids(p)[i]).unwrap().owner == p) by {
                if p == to {
                    if i == base.len() {
                        assert(post.owned_ids(to)[i] == id);
                    } else {
                        let e = base[i];
                        assert(post.owned_ids(to)[i] == e);
                        if to == caller {
                            assert(e != id);
                            let j = choose|j: int| 0 <= j < pre_list.len() && pre_list[j] == e;
                            assert(pre.token(pre_list[j]) is Some);
                        } else {
                            assert(pre.token(pre.owned_ids(to)[i]) is Some);
                            assert(e != id);
                        }
                    }
                } else if p == caller {
                    let e = mid[i];
                    assert(e != id);
                    let j = choose|j: int| 0 <= j < pre_list.len() && pre_list[j] == e;
                    assert(pre.token(pre_list[j]) is Some);
                } else {
                    assert(post.owned_ids(p) == pre.owned_ids(p));
                    assert(pre.token(pre.owned_ids(p)[i]) is Some);
                    assert(pre.token(pre.owned_ids(p)[i]).unwrap().owner == p);
                    assert(pre.owned_ids(p)[i] != id);
                }
            }
            assert forall|p: Principal, i: int, j: int|
                0 <= i < j < post.owned_ids(p).len() implies #[trigger] post.owned_ids(p)[i]
                != #[trigger] post.owned_ids(p)[j] by {
                if p == to {
                    if j == base.len() {
                        assert(post.owned_ids(to)[i] == base[i]);
                        assert(base[i] != id);
                    } else {
                        assert(post.owned_ids(to)[i] == base[i]);
                        assert(post.owned_ids(to)[j] == base[j]);
                        if to == caller {
                            let a = if i < idx { i } else { i + 1 };
                            let b = if j < idx { j } else { j + 1 };
                            assert(mid[i] == pre_list[a]);
                            assert(mid[j] == pre_list[b]);
                            assert(pre.owned_ids(caller)[a] != pre.owned_ids(caller)[b]);
                        } else {
                            assert(pre.owned_ids(to)[i] != pre.owned_ids(to)[j]);
                        }
                    }
                } else if p == caller {
                    let a = if i < idx { i } else { i + 1 };
                    let b = if j < idx { j } else { j + 1 };
                    assert(post.owned_ids(caller)[i] == pre_list[a]);
                    assert(post.owned_ids(caller)[j] == pre_list[b]);
                    assert(pre.owned_ids(caller)[a] != pre.owned_ids(caller)[b]);
                } else {
                    assert(post.owned_ids(p) == pre.owned_ids(p));
                    assert(pre.owned_ids(p)[i] != pre.owned_ids(p)[j]);
                }
            }
            assert forall|id2: u64| #[trigger] post.token(id2) is Some implies post.owned_ids(
                post.token(id2).unwrap().owner,
            ).contains(id2) by {
                if id2 == id {
                    assert(post.owned_ids(to)[base.len() as int] == id);
                } else {
                    assert(post.token(id2) == pre.token(id2));
                    let t = pre.token(id2).unwrap();
                    let j = choose|j: int|
                        0 <= j < pre.owned_ids(t.owner).len() && pre.owned_ids(t.owner)[j] == id2;
                    if t.owner == caller {
                        assert(pre_list[j] == id2);
                        assert(j != idx);
                        let j2: int = if j < idx { j } else { j - 1 };
                        assert(mid[j2] == id2);
                        if to == caller {
                            assert(post.owned_ids(to)[j2] == id2);
                        } else {
                            assert(post.owned_ids(caller)[j2] == id2);
                        }
                    } else if t.owner == to {
                        assert(post.owned_ids(to)[j] == base[j]);
                        assert(base[j] == id2);
                    } else {
                        assert(post.owned_ids(t.owner)[j] == id2);
                    }
                }
            }
        }
        Ok(VnftEvent::Transferred { id, from: caller, to })
    }

    /// Registers the linked main contract. Only the admin may do so; the new
    /// address overwrites any earlier one unconditionally.
    pub fn set_main_contract(&mut self, caller: Principal, main_contract: Principal) -> (r:
        Result<VnftEvent, VnftError>)
        requires
            old(self).wf(),
        ensures
            final(self).wf(),
            !spec_can_admin(caller, old(self).admin)
                ==> r == Err::<VnftEvent, VnftError>(VnftError::Unauthorized)
                    && *final(self) == *old(self),
            spec_can_admin(caller, old(self).admin) ==> {
                &&& r == Ok::<VnftEvent, VnftError>(VnftEvent::MainContractSet(main_contract))
                &&& *final(self) == (VnftState {
                    main_contract: Some(main_contract),
                    ..*old(self)
                })
            },
    {
        if !can_admin(caller, self.admin) {
            return Err(VnftError::Unauthorized);
        }
        let ghost pre = *self;
        self.main_contract = Some(main_contract);
        proof {
            VnftState::lemma_wf_depends_on_stores(pre, *self);
        }
        Ok(VnftEvent::MainContractSet(main_contract))
    }
}

impl VnftState {
    /// The token under `id`, copied out.
    pub fn query_nft(&self, id: u64) -> (r: Option<NFT>)
        ensures
            match r {
                Some(t) => self.token(id) is Some && nft_like(t, self.token(id).unwrap()),
                None => self.token(id) is None,
            },
    {
        match self.nfts.get(id) {
            Some(t) => Some(t.duplicate()),
            None => None,
        }
    }

    /// All tokens `owner` holds, copied out in index order.
    pub fn query_nfts_of(&self, owner: Principal) -> (r: Vec<NFT>)
        requires
            self.wf(),
        ensures
            r@.len() == self.owned_ids(owner).len(),
            forall|i: int|
                0 <= i < r@.len() ==> (self.token(self.owned_ids(owner)[i]) is Some && nft_like(
                    #[trigger] r@[i],
                    self.token(self.owned_ids(owner)[i]).unwrap(),
                )),
    {
        let ids = self.tokens_for_owner(owner);
        let mut r: Vec<NFT> = Vec::new();
        let mut i: usize = 0;
        let n = ids.len();
        while i < n
            invariant
                self.wf(),
                i <= n,
                n == ids@.len(),
                ids@ == self.owned_ids(owner),
                r@.len() == i,
                forall|k: int|
                    0 <= k < i ==> (self.token(self.owned_ids(owner)[k]) is Some && nft_like(
                        #[trigger] r@[k],
                        self.token(self.owned_ids(owner)[k]).unwrap(),
                    )),
            decreases n - i,
        {
            proof {
                assert(self.token(self.owned_ids(owner)[i as int]) is Some);
            }
            let t = self.nfts.get(ids[i]).unwrap();
            r.push(t.duplicate());
            i = i + 1;
        }
        r
    }

    /// The linked main contract, if one is registered.
    pub fn query_main_contract(&self) -> (r: Option<Principal>)
        ensures
            r == self.main_contract,
    {
        self.main_contract
    }

    /// Every token's id and metadata, copied out.
    pub fn available_nfts(&self) -> (r: Vec<(u64, TokenMetadata)>)
        requires
            self.wf(),
        ensures
            r@.len() == self.nfts.token_count(),
            forall|i: int|
                0 <= i < r@.len() ==> (self.token(#[trigger] r@[i].0) is Some && meta_like(
                    r@[i].1,
                    self.token(r@[i].0).unwrap().metadata,
                )),
            forall|i: int, j: int| 0 <= i < j < r@.len() ==> r@[i].0 != r@[j].0,
            forall|id: u64|
                self.token(id) is Some ==> exists|i: int| 0 <= i < r@.len() && r@[i].0 == id,
    {
        let all = self.nfts.all_tokens();
        let mut r: Vec<(u64, TokenMetadata)> = Vec::new();
        let mut i: usize = 0;
        let n = all.len();
        while i < n
            invariant
                i <= n,
                n == all@.len(),
                r@.len() == i,
                forall|k: int|
                    0 <= k < i ==> #[trigger] r@[k].0 == all@[k].id && meta_like(
                        r@[k].1,
                        all@[k].metadata,
                    ),
                forall|k: int|
                    0 <= k < n ==> (self.nfts.spec_get(#[trigger] all@[k].id) is Some && nft_like(
                        all@[k],
                        self.nfts.spec_get(all@[k].id).unwrap(),
                    )),
                forall|a: int, b: int| 0 <= a < b < n ==> all@[a].id != all@[b].id,
                forall|id: u64|
                    self.nfts.spec_get(id) is Some ==> exists|k: int|
                        0 <= k < n && all@[k].id == id,
            decreases n - i,
        {
            r.push((all[i].id, all[i].metadata.duplicate()));
            i = i + 1;
        }
        proof {
            assert forall|id: u64| self.token(id) is Some implies exists|k: int|
                0 <= k < r@.len() && r@[k].0 == id by {
                let k = choose|k: int| 0 <= k < n && all@[k].id == id;
                assert(r@[k].0 == id);
            }
        }
        r
    }

    /// The full state, copied out for external indexers.
    pub fn query_state(&self) -> (r: IoVnftState)
        requires
            self.wf(),
        ensures
            r.admin == self.admin,
            r.main_contract == self.main_contract,
            r.gas_for_one_time_updating == self.gas_for_one_time_updating,
            r.nfts@.len() == self.nfts.token_count(),
            forall|i: int|
                0 <= i < r.nfts@.len() ==> (self.token(#[trigger] r.nfts@[i].id) is Some
                    && nft_like(r.nfts@[i], self.token(r.nfts@[i].id).unwrap())),
            forall|id: u64|
                self.token(id) is Some ==> exists|i: int|
                    0 <= i < r.nfts@.len() && r.nfts@[i].id == id,
    {
        IoVnftState::from(self)
    }
}

/// What a state query hands out: the whole contract state as plain lists.
pub struct IoVnftState {
    pub admin: Principal,
    pub nfts: Vec<NFT>,
    pub main_contract: Option<Principal>,
    pub gas_for_one_time_updating: u64,
}

impl IoVnftState {
    /// Builds the dump from the live state.
    pub fn from(state: &VnftState) -> (r: IoVnftState)
        requires
            state.wf(),
        ensures
            r.admin == state.admin,
            r.main_contract == state.main_contract,
            r.gas_for_one_time_updating == state.gas_for_one_time_updating,
            r.nfts@.len() == state.nfts.token_count(),
            forall|i: int|
                0 <= i < r.nfts@.len() ==> (state.token(#[trigger] r.nfts@[i].id) is Some
                    && nft_like(r.nfts@[i], state.token(r.nfts@[i].id).unwrap())),
            forall|id: u64|
                state.token(id) is Some ==> exists|i: int|
                    0 <= i < r.nfts@.len() && r.nfts@[i].id == id,
    {
        IoVnftState {
            admin: state.admin,
            nfts: state.nfts.all_tokens(),
            main_contract: state.main_contract,
            gas_for_one_time_updating: state.gas_for_one_time_updating,
        }
    }
}

/// Removes the first occurrence of `id` from `v`, if any.
pub fn remove_id(v: &mut Vec<u64>, id: u64)
    ensures
        final(v)@ == old(v)@.remove_value(id),
{
    let n = v.len();
    let mut i: usize = 0;
    while i < n
        invariant
            i <= n,
            n == v@.len(),
            v@ == old(v)@,
            forall|j: int| 0 <= j < i ==> v@[j] != id,
        decreases n - i,
    {
        if v[i] == id {
            proof {
                old(v)@.index_of_first_ensures(id);
                assert(old(v)@[i as int] == id);
                assert(old(v)@.contains(id));
                let idx = old(v)@.index_of_first(id).unwrap();
                assert(!(idx < i as int));
                assert(!(idx > i as int));
            }
            v.remove(i);
            return;
        }
        i = i + 1;
    }
    proof {
        if old(v)@.contains(id) {
            let j = choose|j: int| 0 <= j < old(v)@.len() && old(v)@[j] == id;
            assert(false);
        }
        old(v)@.index_of_first_ensures(id);
    }
}

} // verus!
