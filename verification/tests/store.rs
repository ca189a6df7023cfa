//! Store and endpoint tests: pricing, creation, the credit ledger's
//! non-negative rule, promo codes and the waitlist.

use miniapp_factory::credits::DatabaseCredits;
use miniapp_factory::database::{Database, StoreError};
use miniapp_factory::handlers::{
    admin_account, code_add, code_redeem, project_available, project_create, project_price,
    user_credits, user_projects, ApiOutcome,
};
use miniapp_factory::models::PromoCode;
use miniapp_factory::projects::DatabaseProject;
use miniapp_factory::waitlist::{allowed, enroll, position, EnrollOutcome};

fn create_ok(db: &mut Database, user: &str, project: &str, now: i64) {
    match project_create(db, user, project, now) {
        ApiOutcome::Success(()) => {}
        _ => panic!("expected project creation to succeed"),
    }
}

#[test]
fn pricing_first_project_free_then_paid() {
    let mut db = Database::new();
    for k in 0..7 {
        let owner = format!("eth:{:040x}", k + 100);
        let name = format!("proj-{}", k);
        create_ok(&mut db, &owner, &name, 10 + k as i64);
    }
    assert_eq!(DatabaseProject::get_count(&db), 7);
    let caller = "eth:00000000000000000000000000000000000000aa";
    assert_eq!(project_price(&db, caller), 0);
    create_ok(&mut db, caller, "mine", 20);
    assert_eq!(project_price(&db, caller), 20_000_000);
}

#[test]
fn insufficient_funds_rejects_creation_without_a_row() {
    let mut db = Database::new();
    let caller = "eth:00000000000000000000000000000000000000aa";
    create_ok(&mut db, caller, "first", 1);
    let grant = DatabaseCredits {
        account: caller.to_string(),
        credits: 19_999_999,
        description: "grant".to_string(),
        date: 2,
    };
    grant.insert(&mut db).unwrap();
    assert_eq!(user_credits(&db, caller), 19_999_999);
    match project_create(&mut db, caller, "demo", 3) {
        ApiOutcome::PaymentRequired => {}
        _ => panic!("expected payment to be required"),
    }
    assert_eq!(DatabaseProject::get_count(&db), 1);
    assert_eq!(user_credits(&db, caller), 19_999_999);
    match project_available(&db, "demo") {
        ApiOutcome::Success(free) => assert!(free),
        _ => panic!("expected availability"),
    }
}

#[test]
fn ledger_allows_exactly_the_funded_debits() {
    let mut db = Database::new();
    let account = "eth:00000000000000000000000000000000000000bb";
    let size = 5_000i64;
    let k = 4;
    let grant = DatabaseCredits {
        account: account.to_string(),
        credits: k * size,
        description: "grant".to_string(),
        date: 1,
    };
    grant.insert(&mut db).unwrap();
    let mut successes = 0;
    for attempt in 0..(k + 1) {
        let debit = DatabaseCredits {
            account: account.to_string(),
            credits: -size,
            description: "debit".to_string(),
            date: 2 + attempt,
        };
        if debit.insert(&mut db).is_ok() {
            successes += 1;
        }
    }
    assert_eq!(successes, k);
    assert_eq!(user_credits(&db, account), 0);
}

#[test]
fn credit_insert_rejects_overflowing_sum() {
    let mut db = Database::new();
    let account = "eth:00000000000000000000000000000000000000cc";
    let grant = DatabaseCredits {
        account: account.to_string(),
        credits: i64::MAX,
        description: "grant".to_string(),
        date: 1,
    };
    grant.insert(&mut db).unwrap();
    let more = DatabaseCredits {
        account: account.to_string(),
        credits: 1,
        description: "more".to_string(),
        date: 2,
    };
    assert_eq!(more.insert(&mut db), Err(StoreError::InsufficientFunds));
}

#[test]
fn duplicate_project_names_are_rejected() {
    let mut db = Database::new();
    let caller = "eth:00000000000000000000000000000000000000aa";
    create_ok(&mut db, caller, "demo", 1);
    match project_create(&mut db, caller, "demo", 2) {
        ApiOutcome::BadRequest(e) => assert_eq!(e.error, "Project demo already exists."),
        _ => panic!("expected a duplicate rejection"),
    }
    match project_create(&mut db, caller, "Bad Name", 3) {
        ApiOutcome::BadRequest(e) => {
            assert_eq!(e.error, "Bad Name is not a valid project name.")
        }
        _ => panic!("expected a validation rejection"),
    }
}

#[test]
fn user_projects_lists_only_the_owner() {
    let mut db = Database::new();
    let alice = "eth:00000000000000000000000000000000000000aa";
    let bob = "eth:00000000000000000000000000000000000000bb";
    create_ok(&mut db, alice, "one", 1);
    create_ok(&mut db, bob, "two", 2);
    let grant = DatabaseCredits {
        account: alice.to_string(),
        credits: 20_000_000,
        description: "grant".to_string(),
        date: 3,
    };
    grant.insert(&mut db).unwrap();
    create_ok(&mut db, alice, "three", 4);
    assert_eq!(user_projects(&db, alice), vec!["one".to_string(), "three".to_string()]);
    assert_eq!(user_projects(&db, bob), vec!["two".to_string()]);
}

#[test]
fn promo_codes_redeem_once() {
    let mut db = Database::new();
    let admin = admin_account();
    let user = "eth:00000000000000000000000000000000000000aa";
    let codes = vec![PromoCode {
        code: "WELCOME".to_string(),
        credits: 1000,
        description: "welcome grant".to_string(),
    }];
    match code_add(&mut db, user, &codes) {
        ApiOutcome::Unauthorized => {}
        _ => panic!("non-admin must not add codes"),
    }
    match code_add(&mut db, admin.as_str(), &codes) {
        ApiOutcome::Success(()) => {}
        _ => panic!("admin must add codes"),
    }
    match code_redeem(&mut db, user, "WELCOME", 5) {
        ApiOutcome::Success(()) => {}
        _ => panic!("first redemption must succeed"),
    }
    assert_eq!(user_credits(&db, user), 1000);
    match code_redeem(&mut db, user, "WELCOME", 6) {
        ApiOutcome::Invalid => {}
        _ => panic!("second redemption must be rejected"),
    }
    assert_eq!(user_credits(&db, user), 1000);
}

#[test]
fn waitlist_enrolls_once_per_address_and_account() {
    let mut db = Database::new();
    assert!(allowed(&db, "10.0.0.1"));
    assert_eq!(position(&db, "acct-1"), 0);
    assert_eq!(
        enroll(&mut db, "acct-1".to_string(), "10.0.0.1".to_string(), 1),
        EnrollOutcome::Enrolled
    );
    assert!(!allowed(&db, "10.0.0.1"));
    assert_eq!(position(&db, "acct-1"), 1);
    assert_eq!(
        enroll(&mut db, "acct-2".to_string(), "10.0.0.1".to_string(), 2),
        EnrollOutcome::Forbidden
    );
    assert_eq!(
        enroll(&mut db, "acct-1".to_string(), "10.0.0.2".to_string(), 3),
        EnrollOutcome::Forbidden
    );
    assert_eq!(
        enroll(&mut db, "acct-2".to_string(), "10.0.0.2".to_string(), 4),
        EnrollOutcome::Enrolled
    );
    assert_eq!(position(&db, "acct-2"), 2);
    let listed = miniapp_factory::waitlist::all(&db);
    assert_eq!(listed.len(), 2);
    assert_eq!(listed[0].account, "acct-1");
    assert_eq!(listed[0].date, 1);
    assert_eq!(listed[1].account, "acct-2");
}
