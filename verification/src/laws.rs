//! The library-wide laws, stated once and proved from the state invariant
//! and the operations' contracts.

use vstd::prelude::*;
use crate::principal::Principal;
use crate::state::VnftState;
use crate::updater::{start_continuation, rearm_continuation};

verus! {

/// Issued ids never repeat, even across burns: in a well-formed state every
/// stored id lies strictly below `next_id`. Since `mint` issues exactly
/// `next_id` and then raises it, while no other operation ever lowers it, an
/// id issued later is strictly greater than every id stored — or burned —
/// before it.
pub proof fn lemma_issued_ids_below_next(s: VnftState, id: u64)
    requires
        s.wf(),
        s.token(id) is Some,
    ensures
        id < s.next_id,
{
}

/// The id a mint would issue next is not in use.
pub proof fn lemma_next_id_unused(s: VnftState)
    requires
        s.wf(),
    ensures
        s.token(s.next_id) is None,
{
    if s.token(s.next_id) is Some {
        lemma_issued_ids_below_next(s, s.next_id);
    }
}

/// The active media index always stays inside the media list: for every
/// token of a well-formed state with any media at all, the index is below
/// the list's length.
pub proof fn lemma_media_index_in_bounds(s: VnftState, id: u64)
    requires
        s.wf(),
        s.token(id) is Some,
        s.token(id).unwrap().metadata.media@.len() > 0,
    ensures
        s.token(id).unwrap().metadata.current_media_index < s.token(
            id,
        ).unwrap().metadata.media@.len(),
{
}

/// How many advances the rest of a chain performs once a continuation with
/// `remaining` updates is in flight and no step is rejected: each delivery
/// advances once and re-arms with one fewer, stopping when none remain.
pub open spec fn chain_advances_from(remaining: u32) -> nat
    decreases remaining,
{
    if remaining == 0 {
        0
    } else if remaining >= 2 {
        1 + chain_advances_from((remaining - 1) as u32)
    } else {
        1
    }
}

proof fn lemma_chain_advances_value(remaining: u32)
    ensures
        chain_advances_from(remaining) == remaining,
    decreases remaining,
{
    if remaining >= 2 {
        lemma_chain_advances_value((remaining - 1) as u32);
    }
}

/// A chain started with `n ≥ 1` updates performs exactly `n` advances when
/// ownership never changes and no step is rejected. `start` advances once,
/// synchronously, and hands the host a continuation carrying `n - 1`
/// remaining updates exactly when `n ≥ 2`; each delivered continuation with
/// `r` remaining advances once and re-arms with `r - 1` exactly when
/// `r ≥ 2`. Counting those steps, the whole chain advances `n` times. A
/// rejected step (the token gone, or its owner changed since scheduling)
/// mutates nothing and re-arms nothing, so an interrupted chain performs
/// fewer advances.
pub proof fn lemma_chain_performs_exactly_n_advances(
    gas_for_one_time_updating: u64,
    token_id: u64,
    owner: Principal,
    n: u32,
    period: u32,
    gas_available: u64,
)
    requires
        n >= 1,
    ensures
        start_continuation(gas_for_one_time_updating, token_id, owner, n, period) is Some <==> n
            >= 2,
        start_continuation(gas_for_one_time_updating, token_id, owner, n, period) matches Some(c)
            ==> c.remaining_updates == n - 1 && c.token_id == token_id && c.owner == owner,
        rearm_continuation(token_id, owner, n, period, gas_available) is Some <==> n >= 2,
        rearm_continuation(token_id, owner, n, period, gas_available) matches Some(c)
            ==> c.remaining_updates == n - 1 && c.token_id == token_id && c.owner == owner,
        1 + chain_advances_from((n - 1) as u32) == n,
{
    lemma_chain_advances_value((n - 1) as u32);
}

} // verus!
