//! The scheduled metadata updater. A `start` call advances a token's active
//! media index once, synchronously, and — when updates remain — describes
//! exactly one delayed self-addressed continuation for the host to send. The
//! continuation entry point repeats the step until the budget is exhausted,
//! or stops silently when the token is gone or changed hands.

use vstd::prelude::*;
use crate::errors::VnftError;
use crate::events::VnftEvent;
use crate::ledger::Ledger;
use crate::principal::Principal;
use crate::state::VnftState;
use crate::token::{NFT, TokenMetadata};

verus! {

/// Execution budget a re-armed continuation keeps in reserve for the step
/// that schedules it.
pub const GAS_RESERVE_FOR_REARM: u64 = 1_000_000_000;

/// One delayed self-addressed continuation the host must send: deliver an
/// `update_metadata` call carrying these fields after `delay_in_blocks`
/// blocks, funded with `gas_budget`.
#[derive(Clone, Copy, PartialEq, Eq, Structural, Debug)]
pub struct ScheduledUpdate {
    pub token_id: u64,
    pub owner: Principal,
    pub update_period_in_blocks: u32,
    pub remaining_updates: u32,
    pub gas_budget: u64,
    pub delay_in_blocks: u32,
}

/// Where the active media index moves in one step: one to the right,
/// wrapping at the end of the media list. The saturation mirrors the
/// executable step, which bumps the index with saturating arithmetic before
/// reducing it.
pub open spec fn advanced_media_index(index: u64, media_len: u64) -> u64
    recommends
        media_len > 0,
{
    ((if index == u64::MAX {
        index as int
    } else {
        index as int + 1
    }) % (media_len as int)) as u64
}

/// `a * b`, stuck at the largest value on overflow.
pub open spec fn spec_saturating_mul(a: u64, b: u64) -> u64 {
    if a * b > u64::MAX {
        u64::MAX
    } else {
        (a * b) as u64
    }
}

/// The continuation that `start_metadata_updates` asks for, if any: one
/// delayed call carrying one fewer remaining update, funded in proportion to
/// the whole remaining chain.
pub open spec fn start_continuation(
    gas_for_one_time_updating: u64,
    token_id: u64,
    msg_src: Principal,
    updates_count: u32,
    update_period: u32,
) -> Option<ScheduledUpdate> {
    if updates_count >= 2 {
        Some(ScheduledUpdate {
            token_id,
            owner: msg_src,
            update_period_in_blocks: update_period,
            remaining_updates: (updates_count - 1) as u32,
            gas_budget: spec_saturating_mul(gas_for_one_time_updating, updates_count as u64),
            delay_in_blocks: update_period,
        })
    } else {
        None
    }
}

/// The continuation that `updates_metadata` re-arms, if any: one delayed
/// call carrying one fewer remaining update, funded from the currently
/// available budget less a fixed reserve.
pub open spec fn rearm_continuation(
    token_id: u64,
    owner: Principal,
    updates_count: u32,
    update_period: u32,
    gas_available: u64,
) -> Option<ScheduledUpdate> {
    if updates_count >= 2 {
        Some(ScheduledUpdate {
            token_id,
            owner,
            update_period_in_blocks: update_period,
            remaining_updates: (updates_count - 1) as u32,
            gas_budget: if gas_available >= GAS_RESERVE_FOR_REARM {
                (gas_available - GAS_RESERVE_FOR_REARM) as u64
            } else {
                0
            },
            delay_in_blocks: update_period,
        })
    } else {
        None
    }
}

/// The token after one advance of its media index.
pub open spec fn token_after_advance(t: NFT) -> NFT {
    NFT {
        metadata: TokenMetadata {
            current_media_index: advanced_media_index(
                t.metadata.current_media_index,
                t.metadata.media@.len() as u64,
            ),
            ..t.metadata
        },
        ..t
    }
}

/// Advances the media index of `token_id` in place and returns the new
/// index.
fn advance_media(nfts: &mut Ledger, token_id: u64) -> (r: u64)
    requires
        old(nfts).wf(),
        old(nfts).spec_get(token_id) is Some,
        old(nfts).spec_get(token_id).unwrap().metadata.media@.len() > 0,
    ensures
        final(nfts).wf(),
        r == advanced_media_index(
            old(nfts).spec_get(token_id).unwrap().metadata.current_media_index,
            old(nfts).spec_get(token_id).unwrap().metadata.media@.len() as u64,
        ),
        final(nfts).spec_get(token_id) == Some(
            token_after_advance(old(nfts).spec_get(token_id).unwrap()),
        ),
        forall|o: u64| o != token_id ==> final(nfts).spec_get(o) == old(nfts).spec_get(o),
        final(nfts).token_count() == old(nfts).token_count(),
        r < old(nfts).spec_get(token_id).unwrap().metadata.media@.len(),
{
    let current: u64 = match nfts.get(token_id) {
        Some(t) => t.metadata.current_media_index,
        None => 0,
    };
    let media_len: u64 = match nfts.get(token_id) {
        Some(t) => t.metadata.media.len() as u64,
        None => 1,
    };
    let bumped: u64 = if current == u64::MAX {
        u64::MAX
    } else {
        current + 1
    };
    let new_index: u64 = bumped % media_len;
    nfts.set_media_index(token_id, new_index);
    new_index
}

/// Starts an update chain on the ledger alone: validates, advances the index
/// once, and describes the continuation for the remaining steps. The caller
/// has already checked the counts; a zero `updates_count` here performs the
/// one advance and schedules nothing.
pub fn start_metadata_updates(
    gas_for_one_time_updating: u64,
    nfts: &mut Ledger,
    token_id: u64,
    msg_src: Principal,
    updates_count: u32,
    update_period: u32,
) -> (r: Result<Option<ScheduledUpdate>, VnftError>)
    requires
        old(nfts).wf(),
    ensures
        final(nfts).wf(),
        old(nfts).spec_get(token_id) is None
            ==> r == Err::<Option<ScheduledUpdate>, VnftError>(VnftError::TokenDoesNotExist)
                && *final(nfts) == *old(nfts),
        old(nfts).spec_get(token_id) is Some
            && old(nfts).spec_get(token_id).unwrap().owner != msg_src
            ==> r == Err::<Option<ScheduledUpdate>, VnftError>(VnftError::DeniedAccess)
                && *final(nfts) == *old(nfts),
        old(nfts).spec_get(token_id) is Some
            && old(nfts).spec_get(token_id).unwrap().owner == msg_src
            && old(nfts).spec_get(token_id).unwrap().metadata.media@.len() == 0
            ==> r == Err::<Option<ScheduledUpdate>, VnftError>(VnftError::TokenDoesNotExist)
                && *final(nfts) == *old(nfts),
        old(nfts).spec_get(token_id) is Some
            && old(nfts).spec_get(token_id).unwrap().owner == msg_src
            && old(nfts).spec_get(token_id).unwrap().metadata.media@.len() > 0 ==> {
            &&& r == Ok::<Option<ScheduledUpdate>, VnftError>(start_continuation(
                gas_for_one_time_updating,
                token_id,
                msg_src,
                updates_count,
                update_period,
            ))
            &&& final(nfts).spec_get(token_id) == Some(
                token_after_advance(old(nfts).spec_get(token_id).unwrap()),
            )
            &&& forall|o: u64| o != token_id ==> final(nfts).spec_get(o) == old(nfts).spec_get(o)
            &&& final(nfts).token_count() == old(nfts).token_count()
        },
{
    match nfts.get(token_id) {
        None => {
            return Err(VnftError::TokenDoesNotExist);
        },
        Some(t) => {
            if !crate::auth::can_modify(msg_src, t.owner) {
                return Err(VnftError::DeniedAccess);
            }
            if t.metadata.media.len() == 0 {
                return Err(VnftError::TokenDoesNotExist);
            }
        },
    }
    advance_media(nfts, token_id);
    if updates_count >= 2 {
        let gas_budget = match gas_for_one_time_updating.checked_mul(updates_count as u64) {
            Some(g) => g,
            None => u64::MAX,
        };
        Ok(Some(ScheduledUpdate {
            token_id,
            owner: msg_src,
            update_period_in_blocks: update_period,
            remaining_updates: updates_count - 1,
            gas_budget,
            delay_in_blocks: update_period,
        }))
    } else {
        Ok(None)
    }
}

/// One continuation step on the ledger alone: validates that the token still
/// exists under the owner recorded at schedule time, advances the index
/// once, and re-arms one further continuation while updates remain. Returns
/// the new active media index.
pub fn updates_metadata(
    nfts: &mut Ledger,
    token_id: u64,
    owner: Principal,
    update_period: u32,
    updates_count: u32,
    gas_available: u64,
) -> (r: Result<(u64, Option<ScheduledUpdate>), VnftError>)
    requires
        old(nfts).wf(),
    ensures
        final(nfts).wf(),
        old(nfts).spec_get(token_id) is None
            ==> r == Err::<(u64, Option<ScheduledUpdate>), VnftError>(VnftError::TokenDoesNotExist)
                && *final(nfts) == *old(nfts),
        old(nfts).spec_get(token_id) is Some
            && old(nfts).spec_get(token_id).unwrap().owner != owner
            ==> r == Err::<(u64, Option<ScheduledUpdate>), VnftError>(VnftError::DeniedAccess)
                && *final(nfts) == *old(nfts),
        old(nfts).spec_get(token_id) is Some
            && old(nfts).spec_get(token_id).unwrap().owner == owner
            && old(nfts).spec_get(token_id).unwrap().metadata.media@.len() == 0
            ==> r == Err::<(u64, Option<ScheduledUpdate>), VnftError>(VnftError::TokenDoesNotExist)
                && *final(nfts) == *old(nfts),
        old(nfts).spec_get(token_id) is Some
            && old(nfts).spec_get(token_id).unwrap().owner == owner
            && old(nfts).spec_get(token_id).unwrap().metadata.media@.len() > 0 ==> {
            &&& r == Ok::<(u64, Option<ScheduledUpdate>), VnftError>(
                (
                    advanced_media_index(
                        old(nfts).spec_get(token_id).unwrap().metadata.current_media_index,
                        old(nfts).spec_get(token_id).unwrap().metadata.media@.len() as u64,
                    ),
                    rearm_continuation(token_id, owner, updates_count, update_period, gas_available),
                ),
            )
            &&& final(nfts).spec_get(token_id) == Some(
                token_after_advance(old(nfts).spec_get(token_id).unwrap()),
            )
            &&& forall|o: u64| o != token_id ==> final(nfts).spec_get(o) == old(nfts).spec_get(o)
            &&& final(nfts).token_count() == old(nfts).token_count()
        },
{
    match nfts.get(token_id) {
        None => {
            return Err(VnftError::TokenDoesNotExist);
        },
        Some(t) => {
            if !crate::auth::can_modify(owner, t.owner) {
                return Err(VnftError::DeniedAccess);
            }
            if t.metadata.media.len() == 0 {
                return Err(VnftError::TokenDoesNotExist);
            }
        },
    }
    let new_index = advance_media(nfts, token_id);
    if updates_count >= 2 {
        let gas_budget = gas_available.saturating_sub(GAS_RESERVE_FOR_REARM);
        Ok((
            new_index,
            Some(ScheduledUpdate {
                token_id,
                owner,
                update_period_in_blocks: update_period,
                remaining_updates: updates_count - 1,
                gas_budget,
                delay_in_blocks: update_period,
            }),
        ))
    } else {
        Ok((new_index, None))
    }
}

proof fn lemma_wf_after_media_advance(pre: VnftState, post: VnftState, token_id: u64)
    requires
        pre.wf(),
        post.owner_nfts == pre.owner_nfts,
        post.next_id == pre.next_id,
        post.nfts.wf(),
        pre.token(token_id) is Some,
        pre.token(token_id).unwrap().metadata.media@.len() > 0,
        post.token(token_id) == Some(token_after_advance(pre.token(token_id).unwrap())),
        forall|o: u64| o != token_id ==> post.token(o) == pre.token(o),
    ensures
        post.wf(),
{
    let t = pre.token(token_id).unwrap();
    assert(token_after_advance(t).metadata.wf());
    assert forall|id: u64| #[trigger] post.token(id) is Some implies {
        let u = post.token(id).unwrap();
        u.id == id && id < post.next_id && u.metadata.wf()
    } by {
        if id != token_id {
            assert(post.token(id) == pre.token(id));
        }
    }
    assert forall|p: Principal, i: int|
        0 <= i < post.owned_ids(p).len() implies (post.token(
        #[trigger] post.owned_ids(p)[i],
    ) is Some && post.token(post.owned_ids(p)[i]).unwrap().owner == p) by {
        assert(post.owned_ids(p) == pre.owned_ids(p));
        assert(pre.token(pre.owned_ids(p)[i]) is Some);
        assert(pre.token(pre.owned_ids(p)[i]).unwrap().owner == p);
    }
    assert forall|p: Principal, i: int, j: int|
        0 <= i < j < post.owned_ids(p).len() implies #[trigger] post.owned_ids(p)[i]
        != #[trigger] post.owned_ids(p)[j] by {
        assert(post.owned_ids(p) == pre.owned_ids(p));
        assert(pre.owned_ids(p)[i] != pre.owned_ids(p)[j]);
    }
    assert forall|id: u64| #[trigger] post.token(id) is Some implies post.owned_ids(
        post.token(id).unwrap().owner,
    ).contains(id) by {
        if id != token_id {
            assert(post.token(id) == pre.token(id));
        }
        let u = post.token(id).unwrap();
        assert(pre.token(id).unwrap().owner == u.owner);
        assert(pre.owned_ids(u.owner).contains(id));
        assert(post.owned_ids(u.owner) == pre.owned_ids(u.owner));
    }
}

impl VnftState {
    /// Starts a scheduled update chain for `token_id`. Validates the counts
    /// and the caller, advances the active media index exactly once,
    /// synchronously, and describes the single continuation the host must
    /// send when more than one update was requested.
    pub fn start_metadata_update(
        &mut self,
        caller: Principal,
        updates_count: u32,
        update_period_in_blocks: u32,
        token_id: u64,
    ) -> (r: Result<(VnftEvent, Option<ScheduledUpdate>), VnftError>)
        requires
            old(self).wf(),
        ensures
            final(self).wf(),
            updates_count == 0 ==> r == Err::<(VnftEvent, Option<ScheduledUpdate>), VnftError>(
                VnftError::InvalidUpdateCount,
            ) && *final(self) == *old(self),
            updates_count > 0 && update_period_in_blocks == 0 ==> r == Err::<
                (VnftEvent, Option<ScheduledUpdate>),
                VnftError,
            >(VnftError::InvalidUpdatePeriod) && *final(self) == *old(self),
            updates_count > 0 && update_period_in_blocks > 0 && old(self).token(token_id) is None
                ==> r == Err::<(VnftEvent, Option<ScheduledUpdate>), VnftError>(
                VnftError::TokenDoesNotExist,
            ) && *final(self) == *old(self),
            updates_count > 0 && update_period_in_blocks > 0 && old(self).token(token_id) is Some
                && old(self).token(token_id).unwrap().owner != caller ==> r == Err::<
                (VnftEvent, Option<ScheduledUpdate>),
                VnftError,
            >(VnftError::DeniedAccess) && *final(self) == *old(self),
            updates_count > 0 && update_period_in_blocks > 0 && old(self).token(token_id) is Some
                && old(self).token(token_id).unwrap().owner == caller && old(self).token(
                token_id,
            ).unwrap().metadata.media@.len() == 0 ==> r == Err::<
                (VnftEvent, Option<ScheduledUpdate>),
                VnftError,
            >(VnftError::TokenDoesNotExist) && *final(self) == *old(self),
            updates_count > 0 && update_period_in_blocks > 0 && old(self).token(token_id) is Some
                && old(self).token(token_id).unwrap().owner == caller && old(self).token(
                token_id,
            ).unwrap().metadata.media@.len() > 0 ==> {
                &&& r == Ok::<(VnftEvent, Option<ScheduledUpdate>), VnftError>(
                    (
                        VnftEvent::MetadataStartedUpdating {
                            updates_count,
                            update_period_in_blocks,
                            token_id,
                        },
                        start_continuation(
                            old(self).gas_for_one_time_updating,
                            token_id,
                            caller,
                            updates_count,
                            update_period_in_blocks,
                        ),
                    ),
                )
                &&& final(self).token(token_id) == Some(
                    token_after_advance(old(self).token(token_id).unwrap()),
                )
                &&& forall|o: u64| o != token_id ==> final(self).token(o) == old(self).token(o)
                &&& forall|p: Principal| final(self).owned_ids(p) == old(self).owned_ids(p)
                &&& final(self).next_id == old(self).next_id
                &&& final(self).admin == old(self).admin
                &&& final(self).main_contract == old(self).main_contract
                &&& final(self).gas_for_one_time_updating == old(self).gas_for_one_time_updating
            },
    {
        if updates_count == 0 {
            return Err(VnftError::InvalidUpdateCount);
        }
        if update_period_in_blocks == 0 {
            return Err(VnftError::InvalidUpdatePeriod);
        }
        let ghost pre = *self;
        let gas = self.gas_for_one_time_updating;
        let res = start_metadata_updates(
            gas,
            &mut self.nfts,
            token_id,
            caller,
            updates_count,
            update_period_in_blocks,
        );
        match res {
            Err(e) => {
                proof {
                    assert(*self == pre);
                }
                Err(e)
            },
            Ok(sched) => {
                proof {
                    lemma_wf_after_media_advance(pre, *self, token_id);
                }
                Ok(
                    (
                        VnftEvent::MetadataStartedUpdating {
                            updates_count,
                            update_period_in_blocks,
                            token_id,
                        },
                        sched,
                    ),
                )
            },
        }
    }

    /// One continuation step, reachable only through the program's own
    /// delayed message: any other caller is turned away before the token is
    /// even looked up. A token that is gone or owned by someone else than at
    /// schedule time ends the chain with an error and no mutation.
    pub fn update_metadata(
        &mut self,
        caller: Principal,
        program_id: Principal,
        token_id: u64,
        owner: Principal,
        update_period: u32,
        updates_count: u32,
        gas_available: u64,
    ) -> (r: Result<(VnftEvent, Option<ScheduledUpdate>), VnftError>)
        requires
            old(self).wf(),
        ensures
            final(self).wf(),
            caller != program_id ==> r == Err::<(VnftEvent, Option<ScheduledUpdate>), VnftError>(
                VnftError::OnlyProgramCanUpdate,
            ) && *final(self) == *old(self),
            caller == program_id && old(self).token(token_id) is None ==> r == Err::<
                (VnftEvent, Option<ScheduledUpdate>),
                VnftError,
            >(VnftError::TokenDoesNotExist) && *final(self) == *old(self),
            caller == program_id && old(self).token(token_id) is Some && old(self).token(
                token_id,
            ).unwrap().owner != owner ==> r == Err::<
                (VnftEvent, Option<ScheduledUpdate>),
                VnftError,
            >(VnftError::DeniedAccess) && *final(self) == *old(self),
            caller == program_id && old(self).token(token_id) is Some && old(self).token(
                token_id,
            ).unwrap().owner == owner && old(self).token(token_id).unwrap().metadata.media@.len()
                == 0 ==> r == Err::<(VnftEvent, Option<ScheduledUpdate>), VnftError>(
                VnftError::TokenDoesNotExist,
            ) && *final(self) == *old(self),
            caller == program_id && old(self).token(token_id) is Some && old(self).token(
                token_id,
            ).unwrap().owner == owner && old(self).token(token_id).unwrap().metadata.media@.len()
                > 0 ==> {
                &&& r == Ok::<(VnftEvent, Option<ScheduledUpdate>), VnftError>(
                    (
                        VnftEvent::MetadataUpdated {
                            token_id,
                            current_media_index: advanced_media_index(
                                old(self).token(token_id).unwrap().metadata.current_media_index,
                                old(self).token(token_id).unwrap().metadata.media@.len() as u64,
                            ),
                        },
                        rearm_continuation(
                            token_id,
                            owner,
                            updates_count,
                            update_period,
                            gas_available,
                        ),
                    ),
                )
                &&& final(self).token(token_id) == Some(
                    token_after_advance(old(self).token(token_id).unwrap()),
                )
                &&& forall|o: u64| o != token_id ==> final(self).token(o) == old(self).token(o)
                &&& forall|p: Principal| final(self).owned_ids(p) == old(self).owned_ids(p)
                &&& final(self).next_id == old(self).next_id
                &&& final(self).admin == old(self).admin
                &&& final(self).main_contract == old(self).main_contract
                &&& final(self).gas_for_one_time_updating == old(self).gas_for_one_time_updating
            },
    {
        if caller != program_id {
            return Err(VnftError::OnlyProgramCanUpdate);
        }
        let ghost pre = *self;
        let res = updates_metadata(
            &mut self.nfts,
            token_id,
            owner,
            update_period,
            updates_count,
            gas_available,
        );
        match res {
            Err(e) => {
                proof {
                    assert(*self == pre);
                }
                Err(e)
            },
            Ok((current_media_index, sched)) => {
                proof {
                    lemma_wf_after_media_advance(pre, *self, token_id);
                }
                Ok((VnftEvent::MetadataUpdated { token_id, current_media_index }, sched))
            },
        }
    }
}

} // verus!
