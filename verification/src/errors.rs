//! Error taxonomy of the token contract. Every validation failure is reported
//! through these variants before any state is mutated.

use vstd::prelude::*;

verus! {

/// Why a token operation was refused. `AlreadyExists` and
/// `InvalidMainContract` are reserved: no current path returns them.
/// `NotificationError` belongs to the host's event-emission edge, which sits
/// outside the library.
#[derive(Clone, Copy, PartialEq, Eq, Structural, Debug)]
pub enum VnftError {
    Unauthorized,
    NotFound,
    NotOwner,
    AlreadyExists,
    InvalidMainContract,
    Overflow,
    TokenDoesNotExist,
    DeniedAccess,
    InvalidUpdateCount,
    InvalidUpdatePeriod,
    NotificationError,
    OnlyProgramCanUpdate,
}

} // verus!
