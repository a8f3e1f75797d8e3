//! The authorization guard: stateless predicates gating every mutating
//! operation. Each failing predicate makes the operation return an error
//! before any state is touched.

use vstd::prelude::*;
use crate::principal::Principal;

verus! {

/// Minting is open to the admin and to the linked main contract, if one is
/// set.
pub open spec fn spec_can_mint(
    caller: Principal,
    admin: Principal,
    main_contract: Option<Principal>,
) -> bool {
    caller == admin || main_contract == Some(caller)
}

pub fn can_mint(caller: Principal, admin: Principal, main_contract: Option<Principal>) -> (r: bool)
    ensures
        r == spec_can_mint(caller, admin, main_contract),
{
    if caller == admin {
        true
    } else {
        match main_contract {
            Some(linked) => linked == caller,
            None => false,
        }
    }
}

/// Burning, transferring and starting a metadata update are open to the
/// recorded owner alone.
pub open spec fn spec_can_modify(caller: Principal, owner: Principal) -> bool {
    caller == owner
}

pub fn can_modify(caller: Principal, owner: Principal) -> (r: bool)
    ensures
        r == spec_can_modify(caller, owner),
{
    caller == owner
}

/// Changing the linked main contract is open to the admin alone.
pub open spec fn spec_can_admin(caller: Principal, admin: Principal) -> bool {
    caller == admin
}

pub fn can_admin(caller: Principal, admin: Principal) -> (r: bool)
    ensures
        r == spec_can_admin(caller, admin),
{
    caller == admin
}

} // verus!
