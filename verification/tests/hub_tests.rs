use vnft::hub::{MainContractState, RunStats};
use vnft::hub_events::{MainEvent, MainError};
use vnft::principal::Principal;

fn p(n: u64) -> Principal {
    Principal::from_low(n)
}

const ADMIN: u64 = 1;

fn seeded() -> MainContractState {
    MainContractState::new(p(ADMIN))
}

#[test]
fn empty_selection_is_rejected() {
    let mut s = seeded();
    let r = s.nfts_selected_by_user(p(2), vec![]);
    assert!(matches!(r, Err(MainError::EmptySelection)));
    assert!(s.query_user_nfts(p(2)).is_none());
}

#[test]
fn duplicate_selection_is_rejected() {
    let mut s = seeded();
    let r = s.nfts_selected_by_user(p(2), vec![(p(10), 1), (p(11), 2), (p(10), 1)]);
    assert!(matches!(r, Err(MainError::DuplicateSelection)));
    assert!(s.query_user_nfts(p(2)).is_none());
}

#[test]
fn selection_is_stored_and_overwrites() {
    let mut s = seeded();
    let e = s
        .nfts_selected_by_user(p(2), vec![(p(10), 1), (p(10), 2)])
        .unwrap();
    match e {
        MainEvent::NFTsSelected { user, selected_nfts } => {
            assert_eq!(user, p(2));
            assert_eq!(selected_nfts, vec![(p(10), 1), (p(10), 2)]);
        }
        _ => panic!("wrong event"),
    }
    assert_eq!(s.query_user_nfts(p(2)).unwrap(), vec![1, 2]);
    // A new selection replaces the old one.
    s.nfts_selected_by_user(p(2), vec![(p(12), 9)]).unwrap();
    assert_eq!(s.query_user_nfts(p(2)).unwrap(), vec![9]);
}

#[test]
fn add_admin_flow() {
    let mut s = seeded();
    let r = s.add_admin(p(99), p(5));
    assert!(matches!(r, Err(MainError::Unauthorized)));
    assert_eq!(s.query_admins(), vec![p(ADMIN)]);

    let e = s.add_admin(p(ADMIN), p(5)).unwrap();
    assert!(matches!(e, MainEvent::AdminAdded(a) if a == p(5)));
    assert_eq!(s.query_admins(), vec![p(ADMIN), p(5)]);

    // Adding an existing admin changes nothing and still succeeds.
    s.add_admin(p(5), p(ADMIN)).unwrap();
    assert_eq!(s.query_admins(), vec![p(ADMIN), p(5)]);
}

#[test]
fn start_run_needs_participants() {
    let s = seeded();
    let r = s.start_run(p(2));
    assert!(matches!(r, Err(MainError::NoParticipants)));
}

#[test]
fn start_run_gathers_participants_and_signs() {
    let mut s = seeded();
    s.nfts_selected_by_user(p(2), vec![(p(10), 1)]).unwrap();
    s.nfts_selected_by_user(p(3), vec![(p(10), 2), (p(11), 7)]).unwrap();
    let e = s.start_run(p(2)).unwrap();
    let first_signature = match e {
        MainEvent::RunStarted { initiator, participants, signature } => {
            assert_eq!(initiator, p(2));
            assert_eq!(participants.len(), 2);
            let of2 = participants.iter().find(|(u, _)| *u == p(2)).unwrap();
            assert_eq!(of2.1, vec![(p(10), 1)]);
            let of3 = participants.iter().find(|(u, _)| *u == p(3)).unwrap();
            assert_eq!(of3.1, vec![(p(10), 2), (p(11), 7)]);
            signature
        }
        _ => panic!("wrong event"),
    };
    // A different participant set yields a different digest: the signature
    // really depends on the hashed bytes.
    s.nfts_selected_by_user(p(3), vec![(p(10), 2)]).unwrap();
    let e = s.start_run(p(2)).unwrap();
    match e {
        MainEvent::RunStarted { signature, .. } => {
            assert_ne!(signature, first_signature);
        }
        _ => panic!("wrong event"),
    }
}

#[test]
fn finish_run_range_checks() {
    let mut s = seeded();
    let too_many_items: Vec<u128> = (0..101).collect();
    assert!(matches!(
        s.finish_run(p(2), 1001, vec![], vec![], 10),
        Err(MainError::InvalidStats)
    ));
    assert!(matches!(
        s.finish_run(p(2), 10, too_many_items.clone(), vec![], 10),
        Err(MainError::InvalidStats)
    ));
    assert!(matches!(
        s.finish_run(p(2), 10, vec![], too_many_items, 10),
        Err(MainError::InvalidStats)
    ));
    assert!(matches!(
        s.finish_run(p(2), 10, vec![], vec![], 1000 * 60 * 60 * 24 + 1),
        Err(MainError::InvalidStats)
    ));
    assert!(s.query_state().last_run_stats.is_empty());
}

#[test]
fn finish_run_stores_stats() {
    let mut s = seeded();
    let e = s.finish_run(p(2), 42, vec![7, 8], vec![9], 3600).unwrap();
    match e {
        MainEvent::RunFinished {
            user,
            monsters_defeated,
            items_found,
            new_items_selected,
            survival_time,
        } => {
            assert_eq!(user, p(2));
            assert_eq!(monsters_defeated, 42);
            assert_eq!(items_found, vec![7, 8]);
            assert_eq!(new_items_selected, vec![9]);
            assert_eq!(survival_time, 3600);
        }
        _ => panic!("wrong event"),
    }
    let dump = s.query_state();
    assert_eq!(dump.last_run_stats.len(), 1);
    assert_eq!(dump.last_run_stats[0].user, p(2));
    assert_eq!(dump.last_run_stats[0].monsters_defeated, 42);
    assert_eq!(dump.last_run_stats[0].items_found, vec![7, 8]);
}

#[test]
fn run_finished_returns_and_stores() {
    let mut s = seeded();
    let stats = RunStats {
        user: p(2),
        monsters_defeated: 3,
        items_found: vec![1],
        new_items_selected: vec![],
        survival_time: 60,
    };
    let back = s.run_finished(p(2), stats).unwrap();
    assert_eq!(back.monsters_defeated, 3);
    assert_eq!(back.items_found, vec![1]);
    assert_eq!(s.query_state().last_run_stats.len(), 1);

    let bad = RunStats {
        user: p(2),
        monsters_defeated: 1001,
        items_found: vec![],
        new_items_selected: vec![],
        survival_time: 60,
    };
    assert!(matches!(s.run_finished(p(2), bad), Err(MainError::InvalidStats)));
}

#[test]
fn new_weapon_selection_is_announced() {
    let s = seeded();
    let e = s.set_new_selected_weapon(p(2), 31);
    assert!(matches!(
        e,
        MainEvent::NewWeaponSelected { user, token_id } if user == p(2) && token_id == 31
    ));
}

#[test]
fn keyring_add_query_update_remove() {
    let mut s = seeded();
    assert!(s.query_key(p(2)).is_none());
    assert!(matches!(s.remove_key(p(2)), Err(MainError::KeyNotFound)));
    assert!(matches!(
        s.update_key(p(2), vec![1], None),
        Err(MainError::KeyNotFound)
    ));

    s.add_key(p(2), vec![1, 2, 3], Some(String::from("laptop"))).unwrap();
    let e = s.query_key(p(2)).unwrap();
    assert_eq!(e.user, p(2));
    assert_eq!(e.public_key, vec![1, 2, 3]);
    assert_eq!(e.metadata, Some(String::from("laptop")));

    assert!(matches!(
        s.add_key(p(2), vec![9], None),
        Err(MainError::KeyAlreadyExists)
    ));

    s.update_key(p(2), vec![4, 5], None).unwrap();
    let e = s.query_key(p(2)).unwrap();
    assert_eq!(e.public_key, vec![4, 5]);
    assert_eq!(e.metadata, None);

    s.add_key(p(3), vec![6], None).unwrap();
    let all = s.query_all_keys();
    assert_eq!(all.len(), 2);

    s.remove_key(p(2)).unwrap();
    assert!(s.query_key(p(2)).is_none());
    assert_eq!(s.query_all_keys().len(), 1);
}

#[test]
fn query_all_user_selections_lists_everyone() {
    let mut s = seeded();
    s.nfts_selected_by_user(p(2), vec![(p(10), 1)]).unwrap();
    s.nfts_selected_by_user(p(3), vec![(p(11), 2)]).unwrap();
    let all = s.query_all_user_selections();
    assert_eq!(all.len(), 2);
    let of3 = all.iter().find(|u| u.user == p(3)).unwrap();
    assert_eq!(of3.selected_nfts, vec![(p(11), 2)]);

    let dump = s.query_state();
    assert_eq!(dump.admins, vec![p(ADMIN)]);
    assert_eq!(dump.user_nft_selections.len(), 2);
    assert!(dump.keyring.is_empty());
}
