use vnft::errors::VnftError;
use vnft::events::VnftEvent;
use vnft::principal::Principal;
use vnft::state::VnftState;
use vnft::token::TokenMetadata;
use vnft::updater::GAS_RESERVE_FOR_REARM;

fn p(n: u64) -> Principal {
    Principal::from_low(n)
}

fn meta(media: &[&str], index: u64) -> TokenMetadata {
    TokenMetadata {
        name: String::from("token"),
        description: String::from("a token"),
        current_media_index: index,
        media: media.iter().map(|m| String::from(*m)).collect(),
        reference: String::from("ref"),
    }
}

const ADMIN: u64 = 1;
const GAS_ONE: u64 = 10_000_000_000;

fn seeded() -> VnftState {
    VnftState::new(p(ADMIN), None, GAS_ONE)
}

#[test]
fn mint_assigns_sequential_ids_even_across_burns() {
    let mut s = seeded();
    let e1 = s.mint(p(ADMIN), p(2), meta(&["a"], 0)).unwrap();
    assert_eq!(e1, VnftEvent::Minted { id: 1, owner: p(2) });
    let e2 = s.mint(p(ADMIN), p(2), meta(&["a"], 0)).unwrap();
    assert_eq!(e2, VnftEvent::Minted { id: 2, owner: p(2) });
    s.burn(p(2), 2).unwrap();
    let e3 = s.mint(p(ADMIN), p(2), meta(&["a"], 0)).unwrap();
    assert_eq!(e3, VnftEvent::Minted { id: 3, owner: p(2) });
}

#[test]
fn burn_then_remint_gets_fresh_id() {
    let mut s = seeded();
    let first = s.mint(p(ADMIN), p(7), meta(&["a", "b", "c"], 0)).unwrap();
    assert_eq!(first, VnftEvent::Minted { id: 1, owner: p(7) });
    s.burn(p(7), 1).unwrap();
    let second = s.mint(p(ADMIN), p(7), meta(&["a", "b", "c"], 0)).unwrap();
    assert_eq!(second, VnftEvent::Minted { id: 2, owner: p(7) });
}

#[test]
fn unauthorized_mint_changes_nothing() {
    let mut s = seeded();
    let r = s.mint(p(99), p(2), meta(&["a"], 0));
    assert_eq!(r, Err(VnftError::Unauthorized));
    assert!(s.query_nft(1).is_none());
    assert!(s.tokens_for_owner(p(2)).is_empty());
    // The id counter did not move: the next authorized mint still issues 1.
    let e = s.mint(p(ADMIN), p(2), meta(&["a"], 0)).unwrap();
    assert_eq!(e, VnftEvent::Minted { id: 1, owner: p(2) });
}

#[test]
fn linked_contract_can_mint() {
    let mut s = seeded();
    let e = s.set_main_contract(p(ADMIN), p(50)).unwrap();
    assert_eq!(e, VnftEvent::MainContractSet(p(50)));
    assert_eq!(s.query_main_contract(), Some(p(50)));
    let e = s.mint(p(50), p(3), meta(&["a"], 0)).unwrap();
    assert_eq!(e, VnftEvent::Minted { id: 1, owner: p(3) });
}

#[test]
fn set_main_contract_requires_admin() {
    let mut s = seeded();
    let r = s.set_main_contract(p(99), p(50));
    assert_eq!(r, Err(VnftError::Unauthorized));
    assert_eq!(s.query_main_contract(), None);
}

#[test]
fn transfer_moves_ownership_and_updates_index() {
    let mut s = seeded();
    s.mint(p(ADMIN), p(2), meta(&["a"], 0)).unwrap();
    let e = s.transfer(p(2), 1, p(3)).unwrap();
    assert_eq!(e, VnftEvent::Transferred { id: 1, from: p(2), to: p(3) });
    let t = s.query_nft(1).unwrap();
    assert_eq!(t.owner, p(3));
    assert!(!s.tokens_for_owner(p(2)).contains(&1));
    assert!(s.tokens_for_owner(p(3)).contains(&1));
}

#[test]
fn transfer_requires_owner() {
    let mut s = seeded();
    s.mint(p(ADMIN), p(2), meta(&["a"], 0)).unwrap();
    assert_eq!(s.transfer(p(3), 1, p(4)), Err(VnftError::NotOwner));
    assert_eq!(s.transfer(p(2), 9, p(4)), Err(VnftError::NotFound));
    assert_eq!(s.query_nft(1).unwrap().owner, p(2));
}

#[test]
fn self_transfer_succeeds() {
    let mut s = seeded();
    s.mint(p(ADMIN), p(2), meta(&["a"], 0)).unwrap();
    let e = s.transfer(p(2), 1, p(2)).unwrap();
    assert_eq!(e, VnftEvent::Transferred { id: 1, from: p(2), to: p(2) });
    assert_eq!(s.query_nft(1).unwrap().owner, p(2));
    assert_eq!(s.tokens_for_owner(p(2)), vec![1]);
}

#[test]
fn burn_removes_token_everywhere() {
    let mut s = seeded();
    s.mint(p(ADMIN), p(2), meta(&["a"], 0)).unwrap();
    s.mint(p(ADMIN), p(2), meta(&["b"], 0)).unwrap();
    let e = s.burn(p(2), 1).unwrap();
    assert_eq!(e, VnftEvent::Burned { id: 1, owner: p(2) });
    assert!(s.query_nft(1).is_none());
    assert_eq!(s.tokens_for_owner(p(2)), vec![2]);
}

#[test]
fn burn_rejections() {
    let mut s = seeded();
    s.mint(p(ADMIN), p(2), meta(&["a"], 0)).unwrap();
    assert_eq!(s.burn(p(3), 1), Err(VnftError::NotOwner));
    assert_eq!(s.burn(p(2), 9), Err(VnftError::NotFound));
    assert!(s.query_nft(1).is_some());
}

#[test]
fn start_advances_once_and_schedules_remainder() {
    let mut s = seeded();
    s.mint(p(ADMIN), p(2), meta(&["a", "b", "c"], 0)).unwrap();
    let (e, sched) = s.start_metadata_update(p(2), 3, 5, 1).unwrap();
    assert_eq!(
        e,
        VnftEvent::MetadataStartedUpdating {
            updates_count: 3,
            update_period_in_blocks: 5,
            token_id: 1,
        }
    );
    assert_eq!(s.query_nft(1).unwrap().metadata.current_media_index, 1);
    let sched = sched.unwrap();
    assert_eq!(sched.token_id, 1);
    assert_eq!(sched.owner, p(2));
    assert_eq!(sched.remaining_updates, 2);
    assert_eq!(sched.delay_in_blocks, 5);
    assert_eq!(sched.update_period_in_blocks, 5);
    assert_eq!(sched.gas_budget, GAS_ONE * 3);
}

#[test]
fn start_with_single_update_schedules_nothing() {
    let mut s = seeded();
    s.mint(p(ADMIN), p(2), meta(&["a", "b"], 0)).unwrap();
    let (_, sched) = s.start_metadata_update(p(2), 1, 5, 1).unwrap();
    assert!(sched.is_none());
    assert_eq!(s.query_nft(1).unwrap().metadata.current_media_index, 1);
}

#[test]
fn start_validation_errors() {
    let mut s = seeded();
    s.mint(p(ADMIN), p(2), meta(&["a", "b"], 0)).unwrap();
    s.mint(p(ADMIN), p(2), meta(&[], 0)).unwrap();
    assert_eq!(
        s.start_metadata_update(p(2), 0, 5, 1),
        Err(VnftError::InvalidUpdateCount)
    );
    assert_eq!(
        s.start_metadata_update(p(2), 3, 0, 1),
        Err(VnftError::InvalidUpdatePeriod)
    );
    assert_eq!(
        s.start_metadata_update(p(3), 3, 5, 1),
        Err(VnftError::DeniedAccess)
    );
    assert_eq!(
        s.start_metadata_update(p(2), 3, 5, 9),
        Err(VnftError::TokenDoesNotExist)
    );
    // Token 2 exists but has no media.
    assert_eq!(
        s.start_metadata_update(p(2), 3, 5, 2),
        Err(VnftError::TokenDoesNotExist)
    );
    assert_eq!(s.query_nft(1).unwrap().metadata.current_media_index, 0);
}

#[test]
fn media_index_wraps_cyclically() {
    let mut s = seeded();
    s.mint(p(ADMIN), p(2), meta(&["a", "b", "c"], 2)).unwrap();
    s.start_metadata_update(p(2), 1, 5, 1).unwrap();
    assert_eq!(s.query_nft(1).unwrap().metadata.current_media_index, 0);
}

#[test]
fn update_metadata_only_for_the_program_itself() {
    let mut s = seeded();
    s.mint(p(ADMIN), p(2), meta(&["a", "b"], 0)).unwrap();
    let program = p(77);
    let r = s.update_metadata(p(2), program, 1, p(2), 5, 2, GAS_ONE);
    assert_eq!(r, Err(VnftError::OnlyProgramCanUpdate));
    assert_eq!(s.query_nft(1).unwrap().metadata.current_media_index, 0);
}

#[test]
fn chain_stops_when_ownership_changes() {
    let mut s = seeded();
    s.mint(p(ADMIN), p(2), meta(&["a", "b", "c"], 0)).unwrap();
    let (_, sched) = s.start_metadata_update(p(2), 3, 5, 1).unwrap();
    let sched = sched.unwrap();
    assert_eq!(sched.remaining_updates, 2);
    assert_eq!(s.query_nft(1).unwrap().metadata.current_media_index, 1);
    // Ownership changes before the continuation fires.
    s.transfer(p(2), 1, p(3)).unwrap();
    let program = p(77);
    let r = s.update_metadata(
        program,
        program,
        sched.token_id,
        sched.owner,
        sched.update_period_in_blocks,
        sched.remaining_updates,
        GAS_ONE,
    );
    assert_eq!(r, Err(VnftError::DeniedAccess));
    // The chain stopped; the index stays where the start call left it.
    assert_eq!(s.query_nft(1).unwrap().metadata.current_media_index, 1);
}

#[test]
fn chain_with_three_updates_advances_three_times() {
    let mut s = seeded();
    s.mint(p(ADMIN), p(2), meta(&["a", "b", "c"], 0)).unwrap();
    let program = p(77);
    let (_, sched) = s.start_metadata_update(p(2), 3, 5, 1).unwrap();
    let sched = sched.unwrap();
    assert_eq!(s.query_nft(1).unwrap().metadata.current_media_index, 1);

    let (e, sched2) = s
        .update_metadata(
            program,
            program,
            sched.token_id,
            sched.owner,
            sched.update_period_in_blocks,
            sched.remaining_updates,
            5_000_000_000,
        )
        .unwrap();
    assert_eq!(
        e,
        VnftEvent::MetadataUpdated { token_id: 1, current_media_index: 2 }
    );
    let sched2 = sched2.unwrap();
    assert_eq!(sched2.remaining_updates, 1);
    assert_eq!(sched2.gas_budget, 5_000_000_000 - GAS_RESERVE_FOR_REARM);

    let (e, sched3) = s
        .update_metadata(
            program,
            program,
            sched2.token_id,
            sched2.owner,
            sched2.update_period_in_blocks,
            sched2.remaining_updates,
            5_000_000_000,
        )
        .unwrap();
    assert_eq!(
        e,
        VnftEvent::MetadataUpdated { token_id: 1, current_media_index: 0 }
    );
    assert!(sched3.is_none());
    // Three advances in all: 0 -> 1 -> 2 -> 0.
    assert_eq!(s.query_nft(1).unwrap().metadata.current_media_index, 0);
}

#[test]
fn start_gas_budget_saturates_at_max() {
    let mut s = VnftState::new(p(ADMIN), None, u64::MAX);
    s.mint(p(ADMIN), p(2), meta(&["a", "b"], 0)).unwrap();
    let (_, sched) = s.start_metadata_update(p(2), 2, 5, 1).unwrap();
    assert_eq!(sched.unwrap().gas_budget, u64::MAX);
}

#[test]
fn rearm_gas_saturates_at_zero() {
    let mut s = seeded();
    s.mint(p(ADMIN), p(2), meta(&["a", "b"], 0)).unwrap();
    let program = p(77);
    let (_, sched) = s
        .update_metadata(program, program, 1, p(2), 5, 2, GAS_RESERVE_FOR_REARM / 2)
        .unwrap();
    assert_eq!(sched.unwrap().gas_budget, 0);
}

#[test]
fn queries_reflect_the_ledger() {
    let mut s = seeded();
    s.mint(p(ADMIN), p(2), meta(&["a"], 0)).unwrap();
    s.mint(p(ADMIN), p(3), meta(&["b", "c"], 1)).unwrap();
    s.mint(p(ADMIN), p(2), meta(&["d"], 0)).unwrap();

    let of2 = s.query_nfts_of(p(2));
    assert_eq!(of2.len(), 2);
    assert_eq!(of2[0].id, 1);
    assert_eq!(of2[1].id, 3);
    assert!(s.query_nfts_of(p(9)).is_empty());

    let all = s.available_nfts();
    assert_eq!(all.len(), 3);
    let mut ids: Vec<u64> = all.iter().map(|(id, _)| *id).collect();
    ids.sort();
    assert_eq!(ids, vec![1, 2, 3]);

    let dump = s.query_state();
    assert_eq!(dump.admin, p(ADMIN));
    assert_eq!(dump.main_contract, None);
    assert_eq!(dump.gas_for_one_time_updating, GAS_ONE);
    assert_eq!(dump.nfts.len(), 3);

    let t2 = s.query_nft(2).unwrap();
    assert_eq!(t2.owner, p(3));
    assert_eq!(t2.metadata.media, vec![String::from("b"), String::from("c")]);
    assert_eq!(t2.metadata.current_media_index, 1);
    assert_eq!(t2.metadata.name, "token");
}
