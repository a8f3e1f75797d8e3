//! The run-creation digest: a fixed byte encoding of the initiator and the
//! participants, hashed into a 32-byte proof value by the dependency's
//! hasher.

use vstd::prelude::*;
use vstd::bytes::{u64_to_le_bytes, u128_to_le_bytes, spec_u64_to_le_bytes,
    spec_u128_to_le_bytes};
use crate::principal::Principal;

verus! {

/// The 32-byte digest the dependency's hasher produces for the given bytes.
pub uninterp spec fn digest_of(data: Seq<u8>) -> Seq<u8>;

/// Relies on keccak_const::Keccak256 (re-exported by sails_rs): the 32-byte
/// digest depends on the input bytes alone.
#[verifier::external_body]
pub(crate) fn keccak256(data: &Vec<u8>) -> (r: [u8; 32])
    ensures
        r@ == digest_of(data@),
{
    sails_rs::keccak_const::Keccak256::new().update(data.as_slice()).finalize()
}

/// A principal's 32 bytes: its four limbs, least significant first, each in
/// little-endian order.
pub open spec fn principal_bytes(p: Principal) -> Seq<u8> {
    spec_u64_to_le_bytes(p.limb0) + spec_u64_to_le_bytes(p.limb1) + spec_u64_to_le_bytes(p.limb2)
        + spec_u64_to_le_bytes(p.limb3)
}

/// One selected token: its contract's bytes, then its id in little-endian
/// order.
pub open spec fn pair_bytes(e: (Principal, u128)) -> Seq<u8> {
    principal_bytes(e.0) + spec_u128_to_le_bytes(e.1)
}

/// A selection list's bytes, in order.
pub open spec fn selection_bytes(s: Seq<(Principal, u128)>) -> Seq<u8>
    decreases s.len(),
{
    if s.len() == 0 {
        Seq::empty()
    } else {
        selection_bytes(s.drop_last()) + pair_bytes(s.last())
    }
}

/// The participants' bytes: for each, the user's bytes followed by the
/// bytes of their selection, in order.
pub open spec fn participants_bytes(ps: Seq<(Principal, Vec<(Principal, u128)>)>) -> Seq<u8>
    decreases ps.len(),
{
    if ps.len() == 0 {
        Seq::empty()
    } else {
        participants_bytes(ps.drop_last()) + principal_bytes(ps.last().0) + selection_bytes(
            ps.last().1@,
        )
    }
}

/// Everything a run-creation digest covers.
pub open spec fn run_digest_input(
    initiator: Principal,
    ps: Seq<(Principal, Vec<(Principal, u128)>)>,
) -> Seq<u8> {
    principal_bytes(initiator) + participants_bytes(ps)
}

fn push_principal_bytes(out: &mut Vec<u8>, p: Principal)
    ensures
        final(out)@ == old(out)@ + principal_bytes(p),
{
    let mut b = u64_to_le_bytes(p.limb0);
    out.append(&mut b);
    let mut b = u64_to_le_bytes(p.limb1);
    out.append(&mut b);
    let mut b = u64_to_le_bytes(p.limb2);
    out.append(&mut b);
    let mut b = u64_to_le_bytes(p.limb3);
    out.append(&mut b);
    proof {
        assert(out@ =~= old(out)@ + principal_bytes(p));
    }
}

fn push_selection_bytes(out: &mut Vec<u8>, s: &Vec<(Principal, u128)>)
    ensures
        final(out)@ == old(out)@ + selection_bytes(s@),
{
    let n = s.len();
    let mut i: usize = 0;
    while i < n
        invariant
            i <= n,
            n == s@.len(),
            out@ == old(out)@ + selection_bytes(s@.subrange(0, i as int)),
        decreases n - i,
    {
        let (c, t) = s[i];
        push_principal_bytes(out, c);
        let mut b = u128_to_le_bytes(t);
        out.append(&mut b);
        proof {
            assert(s@.subrange(0, i as int + 1).drop_last() =~= s@.subrange(0, i as int));
            assert(s@.subrange(0, i as int + 1).last() == s@[i as int]);
            assert(out@ =~= old(out)@ + selection_bytes(s@.subrange(0, i as int + 1)));
        }
        i = i + 1;
    }
    proof {
        assert(s@.subrange(0, n as int) =~= s@);
    }
}

/// The 32-byte proof value for a run started by `initiator` over
/// `participants`.
pub fn run_digest(initiator: Principal, participants: &Vec<(Principal, Vec<(Principal, u128)>)>)
    -> (r: [u8; 32])
    ensures
        r@ == digest_of(run_digest_input(initiator, participants@)),
{
    let mut data: Vec<u8> = Vec::new();
    push_principal_bytes(&mut data, initiator);
    let n = participants.len();
    let mut i: usize = 0;
    while i < n
        invariant
            i <= n,
            n == participants@.len(),
            data@ == principal_bytes(initiator) + participants_bytes(
                participants@.subrange(0, i as int),
            ),
        decreases n - i,
    {
        let user = participants[i].0;
        push_principal_bytes(&mut data, user);
        push_selection_bytes(&mut data, &participants[i].1);
        proof {
            assert(participants@.subrange(0, i as int + 1).drop_last() =~= participants@.subrange(
                0,
                i as int,
            ));
            assert(participants@.subrange(0, i as int + 1).last() == participants@[i as int]);
            assert(data@ =~= principal_bytes(initiator) + participants_bytes(
                participants@.subrange(0, i as int + 1),
            ));
        }
        i = i + 1;
    }
    proof {
        assert(participants@.subrange(0, n as int) =~= participants@);
        assert(data@ =~= run_digest_input(initiator, participants@));
    }
    keccak256(&data)
}

} // verus!
