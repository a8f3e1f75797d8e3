//! Notifications and errors of the game-hub contract.

use vstd::prelude::*;
use crate::principal::Principal;

verus! {

/// Notifications the hub asks the host to publish, one per state-changing
/// call.
pub enum MainEvent {
    NFTsSelected { user: Principal, selected_nfts: Vec<(Principal, u128)> },
    AdminAdded(Principal),
    RunStarted {
        initiator: Principal,
        participants: Vec<(Principal, Vec<(Principal, u128)>)>,
        signature: [u8; 32],
    },
    RunFinished {
        user: Principal,
        monsters_defeated: u32,
        items_found: Vec<u128>,
        new_items_selected: Vec<u128>,
        survival_time: u64,
    },
    NewWeaponSelected { user: Principal, token_id: u128 },
    KeyAdded { user: Principal, public_key: Vec<u8>, metadata: Option<String> },
    KeyRemoved { user: Principal },
    KeyUpdated { user: Principal, public_key: Vec<u8>, metadata: Option<String> },
}

/// Why a hub operation was refused.
#[derive(Clone, Copy, PartialEq, Eq, Structural, Debug)]
pub enum MainError {
    EmptySelection,
    DuplicateSelection,
    Unauthorized,
    NoParticipants,
    InvalidStats,
    KeyAlreadyExists,
    KeyNotFound,
}

} // verus!
