//! Notifications the token contract asks the host to publish, one per
//! successful state-changing call. The library only builds these values;
//! emitting them is the host's business.

use vstd::prelude::*;
use crate::principal::Principal;

verus! {

#[derive(Clone, Copy, PartialEq, Eq, Structural, Debug)]
pub enum VnftEvent {
    Minted { id: u64, owner: Principal },
    Burned { id: u64, owner: Principal },
    Transferred { id: u64, from: Principal, to: Principal },
    MainContractSet(Principal),
    MetadataStartedUpdating { updates_count: u32, update_period_in_blocks: u32, token_id: u64 },
    MetadataUpdated { token_id: u64, current_media_index: u64 },
}

} // verus!
