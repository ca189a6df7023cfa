//! NFT synchronisation tests: transfer handling, replay idempotence, and
//! the owner/address encodings.

use miniapp_factory::database::Database;
use miniapp_factory::handlers::{project_create, ApiOutcome};
use miniapp_factory::nft::{
    handle_transfer, is_zero_address, owner_eth_to_hex, owner_from_address, token_id_from_limbs,
    TransferOutcome,
};
use miniapp_factory::projects::DatabaseProject;

fn create_ok(db: &mut Database, user: &str, project: &str, now: i64) {
    match project_create(db, user, project, now) {
        ApiOutcome::Success(()) => {}
        _ => panic!("expected project creation to succeed"),
    }
}

fn addr(last: u8) -> [u8; 20] {
    let mut a = [0u8; 20];
    a[19] = last;
    a
}

#[test]
fn transfer_rewrites_the_owner_of_the_token_project() {
    let mut db = Database::new();
    for k in 0..5 {
        let owner = format!("eth:{:040x}", k + 100);
        create_ok(&mut db, &owner, &format!("proj-{}", k), 1);
    }
    // The fifth inserted project has id 5.
    let outcome = handle_transfer(&mut db, &addr(1), &addr(2), [5, 0, 0, 0]);
    assert_eq!(outcome, TransferOutcome::OwnerUpdated);
    let project = DatabaseProject::get_by_id(&db, 5).unwrap();
    assert_eq!(project.owner, format!("eth:{}02", "00".repeat(19)));
    // The other projects are untouched.
    let other = DatabaseProject::get_by_id(&db, 4).unwrap();
    assert_eq!(other.owner, format!("eth:{:040x}", 103));
}

#[test]
fn transfer_replay_leaves_the_store_unchanged() {
    let mut db = Database::new();
    create_ok(&mut db, "eth:00000000000000000000000000000000000000aa", "demo", 1);
    assert_eq!(
        handle_transfer(&mut db, &addr(1), &addr(2), [1, 0, 0, 0]),
        TransferOutcome::OwnerUpdated
    );
    let after_once = DatabaseProject::get_by_id(&db, 1).unwrap();
    assert_eq!(
        handle_transfer(&mut db, &addr(1), &addr(2), [1, 0, 0, 0]),
        TransferOutcome::OwnerUpdated
    );
    let after_twice = DatabaseProject::get_by_id(&db, 1).unwrap();
    assert_eq!(after_once.owner, after_twice.owner);
    assert_eq!(after_once.version, after_twice.version);
    assert_eq!(after_once.id, after_twice.id);
}

#[test]
fn mint_events_and_bad_tokens_are_ignored() {
    let mut db = Database::new();
    create_ok(&mut db, "eth:00000000000000000000000000000000000000aa", "demo", 1);
    assert_eq!(
        handle_transfer(&mut db, &[0u8; 20], &addr(2), [1, 0, 0, 0]),
        TransferOutcome::Minted
    );
    assert_eq!(
        handle_transfer(&mut db, &addr(1), &addr(2), [1, 1, 0, 0]),
        TransferOutcome::InvalidTokenId
    );
    assert_eq!(
        handle_transfer(&mut db, &addr(1), &addr(2), [u64::MAX, 0, 0, 0]),
        TransferOutcome::InvalidTokenId
    );
    assert_eq!(
        handle_transfer(&mut db, &addr(1), &addr(2), [7, 0, 0, 0]),
        TransferOutcome::ProjectMissing
    );
    let project = DatabaseProject::get_by_id(&db, 1).unwrap();
    assert_eq!(project.owner, "eth:00000000000000000000000000000000000000aa");
}

#[test]
fn token_and_address_helpers() {
    assert_eq!(token_id_from_limbs([5, 0, 0, 0]), Some(5));
    assert_eq!(token_id_from_limbs([i32::MAX as u64, 0, 0, 0]), Some(i32::MAX));
    assert_eq!(token_id_from_limbs([i32::MAX as u64 + 1, 0, 0, 0]), None);
    assert!(is_zero_address(&[0u8; 20]));
    assert!(!is_zero_address(&addr(9)));
    assert_eq!(
        owner_from_address(&addr(2)),
        format!("eth:{}02", "00".repeat(19))
    );
    assert_eq!(
        owner_eth_to_hex("eth:00000000000000000000000000000000000000aa"),
        "0x00000000000000000000000000000000000000aa"
    );
}
