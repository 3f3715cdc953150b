use enhanced_royalties::account::{ErrorCode, ShareHolder, ShareStorage, ShareStorageOps};
use enhanced_royalties::instructions::{
    check_name, check_name_space, deposit_funds, disable_share_storage, distribute_share,
    enable_share_storage, initialize_share_storage, set_holders,
};
use enhanced_royalties::ledger::{MAX_NAME_LEN, NAME_SPACE};
use enhanced_royalties::pubkey::Pubkey;

fn request_key(tag: u8) -> Pubkey {
    Pubkey::new_from_array([tag; 32])
}

fn request_holder(tag: u8, share_basis_points: u16) -> ShareHolder {
    ShareHolder { pubkey: request_key(tag), share_basis_points }
}

fn request_admin() -> Pubkey {
    request_key(200)
}

fn funded_ledger() -> ShareStorage {
    let mut storage = initialize_share_storage(request_admin(), String::from("royalties")).unwrap();
    let holders = vec![request_holder(1, 5000), request_holder(2, 3000), request_holder(3, 2000)];
    assert_eq!(set_holders(&mut storage, &request_admin(), holders), Ok(()));
    storage
}

fn request_accounts() -> Vec<Pubkey> {
    vec![request_key(1), request_key(2), request_key(3)]
}

#[test]
fn new_ledger_is_enabled_and_empty() {
    let storage = initialize_share_storage(request_admin(), String::from("royalties")).unwrap();
    assert_eq!(storage.admin, request_admin());
    assert_eq!(storage.name, "royalties");
    assert!(storage.enabled);
    assert!(storage.holders.is_empty());
    assert_eq!(storage.total_distributed, 0);
    assert_eq!(storage.last_distributed_at, 0);
    assert_eq!(storage.total_basis_points(), 0);
}

#[test]
fn name_must_have_one_to_thirty_two_characters() {
    assert_eq!(MAX_NAME_LEN, 32);
    assert_eq!(
        initialize_share_storage(request_admin(), String::new()),
        Err(ErrorCode::InvalidName)
    );
    assert!(initialize_share_storage(request_admin(), String::from("a")).is_ok());
    assert!(initialize_share_storage(request_admin(), "a".repeat(32)).is_ok());
    assert_eq!(
        initialize_share_storage(request_admin(), "a".repeat(33)),
        Err(ErrorCode::InvalidName)
    );
    assert_eq!(check_name(&String::from("ledger")), Ok(()));
    assert_eq!(check_name(&String::new()), Err(ErrorCode::InvalidName));
    assert_eq!(check_name(&"x".repeat(100)), Err(ErrorCode::InvalidName));
}

#[test]
fn name_length_counts_characters() {
    // 32 characters of two bytes each.
    assert_eq!(check_name(&"é".repeat(32)), Ok(()));
    assert_eq!(check_name(&"é".repeat(33)), Err(ErrorCode::InvalidName));
    let storage = initialize_share_storage(request_admin(), "é".repeat(32)).unwrap();
    assert_eq!(storage.name.chars().count(), 32);
}

#[test]
fn name_space_counts_bytes() {
    assert_eq!(NAME_SPACE, 32);
    assert_eq!(check_name_space(&String::new()), Ok(()));
    assert_eq!(check_name_space(&"a".repeat(32)), Ok(()));
    assert_eq!(check_name_space(&"a".repeat(33)), Err(ErrorCode::InvalidName));
    // Two bytes for each character.
    assert_eq!(check_name_space(&"é".repeat(16)), Ok(()));
    assert_eq!(check_name_space(&"é".repeat(17)), Err(ErrorCode::InvalidName));
    // A name of 32 characters that a ledger accepts and a stored record has no room for.
    assert_eq!(check_name(&"é".repeat(32)), Ok(()));
    assert_eq!(check_name_space(&"é".repeat(32)), Err(ErrorCode::InvalidName));
}

#[test]
fn unauthorized_disable_fails_and_leaves_the_ledger_enabled() {
    let mut storage = funded_ledger();
    let before = storage.clone();
    assert_eq!(
        disable_share_storage(&mut storage, &request_key(9)),
        Err(ErrorCode::Unauthorized)
    );
    assert!(storage.enabled);
    assert_eq!(storage, before);
}

#[test]
fn unauthorized_enable_fails_and_leaves_the_ledger_disabled() {
    let mut storage = funded_ledger();
    assert_eq!(disable_share_storage(&mut storage, &request_admin()), Ok(()));
    let before = storage.clone();
    assert_eq!(enable_share_storage(&mut storage, &request_key(9)), Err(ErrorCode::Unauthorized));
    assert!(!storage.enabled);
    assert_eq!(storage, before);
}

#[test]
fn toggles_are_idempotent() {
    let mut storage = funded_ledger();
    let enabled = storage.clone();
    assert_eq!(enable_share_storage(&mut storage, &request_admin()), Ok(()));
    assert_eq!(storage, enabled);
    assert_eq!(disable_share_storage(&mut storage, &request_admin()), Ok(()));
    assert!(!storage.enabled);
    let disabled = storage.clone();
    assert_eq!(disable_share_storage(&mut storage, &request_admin()), Ok(()));
    assert_eq!(storage, disabled);
    assert_eq!(enable_share_storage(&mut storage, &request_admin()), Ok(()));
    assert_eq!(storage, enabled);
}

#[test]
fn disabled_ledger_still_lets_its_registry_be_edited() {
    let mut storage = funded_ledger();
    assert_eq!(disable_share_storage(&mut storage, &request_admin()), Ok(()));
    assert_eq!(
        set_holders(&mut storage, &request_admin(), vec![request_holder(7, 10000)]),
        Ok(())
    );
    assert_eq!(storage.holders, vec![request_holder(7, 10000)]);
    assert_eq!(storage.remove_holder(&request_key(7)), Ok(()));
    assert_eq!(storage.add_holder(request_holder(8, 10000)), Ok(()));
    assert!(!storage.enabled);
}

#[test]
fn distribution_pays_what_exceeds_the_reserve() {
    let mut storage = funded_ledger();
    let r = distribute_share(&mut storage, &request_accounts(), 1101, 1000, 1_700_000_000);
    assert_eq!(r, Ok(vec![51, 30, 20]));
    assert_eq!(storage.total_distributed, 101);
    assert_eq!(storage.last_distributed_at, 1_700_000_000);
    assert!(storage.enabled);
    assert_eq!(storage.holders.len(), 3);
}

#[test]
fn distribution_is_not_idempotent() {
    let mut storage = funded_ledger();
    assert_eq!(
        distribute_share(&mut storage, &request_accounts(), 1101, 1000, 10),
        Ok(vec![51, 30, 20])
    );
    assert_eq!(
        distribute_share(&mut storage, &request_accounts(), 1101, 1000, 20),
        Ok(vec![51, 30, 20])
    );
    assert_eq!(storage.total_distributed, 202);
    assert_eq!(storage.last_distributed_at, 20);
}

#[test]
fn anyone_may_ask_for_a_distribution() {
    // The request names no caller: there is nothing to authorize.
    let mut storage = funded_ledger();
    assert!(distribute_share(&mut storage, &request_accounts(), 10, 0, 1).is_ok());
}

#[test]
fn disabled_ledger_refuses_distribution_without_side_effects() {
    let mut storage = funded_ledger();
    assert_eq!(disable_share_storage(&mut storage, &request_admin()), Ok(()));
    let before = storage.clone();
    assert_eq!(
        distribute_share(&mut storage, &request_accounts(), 1101, 1000, 5),
        Err(ErrorCode::ShareStorageDisabled)
    );
    assert_eq!(storage, before);
    // Also with an empty pool, and with everything else wrong.
    assert_eq!(
        distribute_share(&mut storage, &request_accounts(), 0, 1000, 5),
        Err(ErrorCode::ShareStorageDisabled)
    );
    assert_eq!(
        distribute_share(&mut storage, &Vec::new(), 0, 0, 5),
        Err(ErrorCode::ShareStorageDisabled)
    );
    assert_eq!(storage, before);
}

#[test]
fn enabling_again_lets_the_distribution_through() {
    let mut storage = funded_ledger();
    assert_eq!(disable_share_storage(&mut storage, &request_admin()), Ok(()));
    assert_eq!(
        distribute_share(&mut storage, &request_accounts(), 1101, 1000, 5),
        Err(ErrorCode::ShareStorageDisabled)
    );
    assert_eq!(enable_share_storage(&mut storage, &request_admin()), Ok(()));
    assert_eq!(
        distribute_share(&mut storage, &request_accounts(), 1101, 1000, 6),
        Ok(vec![51, 30, 20])
    );
    assert_eq!(storage.total_distributed, 101);
    assert_eq!(storage.last_distributed_at, 6);
}

#[test]
fn empty_pool_is_a_no_op() {
    let mut storage = funded_ledger();
    assert_eq!(
        distribute_share(&mut storage, &request_accounts(), 1101, 1000, 50),
        Ok(vec![51, 30, 20])
    );
    let before = storage.clone();
    // Balance at the reserve, below it, and both zero.
    assert_eq!(distribute_share(&mut storage, &request_accounts(), 1000, 1000, 60), Ok(vec![0, 0, 0]));
    assert_eq!(distribute_share(&mut storage, &request_accounts(), 999, 1000, 70), Ok(vec![0, 0, 0]));
    assert_eq!(distribute_share(&mut storage, &request_accounts(), 0, 0, 80), Ok(vec![0, 0, 0]));
    assert_eq!(storage, before);
    assert_eq!(storage.total_distributed, 101);
    assert_eq!(storage.last_distributed_at, 50);
}

#[test]
fn empty_pool_is_a_no_op_even_when_the_total_is_full() {
    let mut storage = funded_ledger();
    storage.total_distributed = u64::MAX;
    let before = storage.clone();
    assert_eq!(distribute_share(&mut storage, &request_accounts(), 5, 5, 9), Ok(vec![0, 0, 0]));
    assert_eq!(storage, before);
}

#[test]
fn empty_pool_is_a_no_op_whatever_the_shares_add_up_to() {
    // One holder of 5000 basis points, its own account, balance equal to the reserve.
    let mut storage = initialize_share_storage(request_admin(), String::from("half")).unwrap();
    assert_eq!(storage.add_holder(request_holder(1, 5000)), Ok(()));
    storage.total_distributed = 40;
    storage.last_distributed_at = 7;
    let before = storage.clone();
    let accounts = vec![request_key(1)];
    assert_eq!(distribute_share(&mut storage, &accounts, 1000, 1000, 99), Ok(vec![0]));
    assert_eq!(distribute_share(&mut storage, &accounts, 999, 1000, 99), Ok(vec![0]));
    assert_eq!(distribute_share(&mut storage, &accounts, 0, 0, 99), Ok(vec![0]));
    assert_eq!(storage, before);
    assert_eq!(storage.total_distributed, 40);
    assert_eq!(storage.last_distributed_at, 7);
    // Shares beyond 10000 make no difference either.
    assert_eq!(storage.add_holder(request_holder(2, 9000)), Ok(()));
    let before = storage.clone();
    let accounts = vec![request_key(1), request_key(2)];
    assert_eq!(distribute_share(&mut storage, &accounts, 5, 5, 99), Ok(vec![0, 0]));
    assert_eq!(storage, before);
    // With anything to distribute the same registry is refused.
    assert_eq!(
        distribute_share(&mut storage, &accounts, 6, 5, 99),
        Err(ErrorCode::InvalidShareDistribution)
    );
    assert_eq!(storage, before);
}

#[test]
fn empty_pool_still_passes_the_checks_on_ledger_and_accounts() {
    let mut storage = initialize_share_storage(request_admin(), String::from("half")).unwrap();
    assert_eq!(storage.add_holder(request_holder(1, 5000)), Ok(()));
    assert_eq!(
        distribute_share(&mut storage, &vec![request_key(2)], 0, 0, 1),
        Err(ErrorCode::InvalidHolderAccount)
    );
    assert_eq!(
        distribute_share(&mut storage, &Vec::new(), 0, 0, 1),
        Err(ErrorCode::InvalidHolderAccounts)
    );
    assert_eq!(disable_share_storage(&mut storage, &request_admin()), Ok(()));
    assert_eq!(
        distribute_share(&mut storage, &vec![request_key(1)], 0, 0, 1),
        Err(ErrorCode::ShareStorageDisabled)
    );
}

#[test]
fn ledger_without_holders_refuses_distribution() {
    let mut storage = initialize_share_storage(request_admin(), String::from("empty")).unwrap();
    let before = storage.clone();
    assert_eq!(
        distribute_share(&mut storage, &Vec::new(), 1101, 1000, 5),
        Err(ErrorCode::NoHolders)
    );
    assert_eq!(
        distribute_share(&mut storage, &request_accounts(), 0, 0, 5),
        Err(ErrorCode::NoHolders)
    );
    assert_eq!(storage, before);
}

#[test]
fn number_of_accounts_must_be_the_number_of_holders() {
    let mut storage = funded_ledger();
    let before = storage.clone();
    assert_eq!(
        distribute_share(&mut storage, &vec![request_key(1), request_key(2)], 1101, 1000, 5),
        Err(ErrorCode::InvalidHolderAccounts)
    );
    assert_eq!(
        distribute_share(
            &mut storage,
            &vec![request_key(1), request_key(2), request_key(3), request_key(4)],
            1101,
            1000,
            5
        ),
        Err(ErrorCode::InvalidHolderAccounts)
    );
    assert_eq!(
        distribute_share(&mut storage, &Vec::new(), 1101, 1000, 5),
        Err(ErrorCode::InvalidHolderAccounts)
    );
    assert_eq!(storage, before);
}

#[test]
fn accounts_must_be_the_holders_in_registry_order() {
    let mut storage = funded_ledger();
    let before = storage.clone();
    assert_eq!(
        distribute_share(
            &mut storage,
            &vec![request_key(1), request_key(3), request_key(2)],
            1101,
            1000,
            5
        ),
        Err(ErrorCode::InvalidHolderAccount)
    );
    assert_eq!(
        distribute_share(
            &mut storage,
            &vec![request_key(1), request_key(2), request_key(9)],
            1101,
            1000,
            5
        ),
        Err(ErrorCode::InvalidHolderAccount)
    );
    assert_eq!(storage, before);
}

#[test]
fn accounts_are_checked_before_the_pool_is_looked_at() {
    let mut storage = funded_ledger();
    let before = storage.clone();
    assert_eq!(
        distribute_share(
            &mut storage,
            &vec![request_key(9), request_key(2), request_key(3)],
            0,
            0,
            5
        ),
        Err(ErrorCode::InvalidHolderAccount)
    );
    assert_eq!(storage, before);
}

#[test]
fn registry_that_does_not_add_up_is_not_distributed_to() {
    let mut storage = funded_ledger();
    assert_eq!(storage.remove_holder(&request_key(3)), Ok(()));
    let before = storage.clone();
    let accounts = vec![request_key(1), request_key(2)];
    assert_eq!(
        distribute_share(&mut storage, &accounts, 1101, 1000, 5),
        Err(ErrorCode::InvalidShareDistribution)
    );
    assert_eq!(storage, before);
    assert_eq!(storage.add_holder(request_holder(4, 2001)), Ok(()));
    let accounts = vec![request_key(1), request_key(2), request_key(4)];
    assert_eq!(
        distribute_share(&mut storage, &accounts, 1101, 1000, 5),
        Err(ErrorCode::InvalidShareDistribution)
    );
    assert_eq!(storage.remove_holder(&request_key(4)), Ok(()));
    assert_eq!(storage.add_holder(request_holder(4, 2000)), Ok(()));
    assert_eq!(
        distribute_share(&mut storage, &accounts, 1101, 1000, 5),
        Ok(vec![51, 30, 20])
    );
}

#[test]
fn full_cumulative_total_refuses_distribution() {
    let mut storage = funded_ledger();
    storage.total_distributed = u64::MAX - 100;
    let before = storage.clone();
    assert_eq!(
        distribute_share(&mut storage, &request_accounts(), 1101, 1000, 5),
        Err(ErrorCode::ArithmeticOverflow)
    );
    assert_eq!(storage, before);
    assert_eq!(
        distribute_share(&mut storage, &request_accounts(), 1100, 1000, 5),
        Ok(vec![50, 30, 20])
    );
    assert_eq!(storage.total_distributed, u64::MAX);
    assert_eq!(storage.last_distributed_at, 5);
}

#[test]
fn total_grows_by_exactly_what_was_paid() {
    let mut storage = funded_ledger();
    let mut paid: u64 = 0;
    for (round, balance) in [1001u64, 1999, 1000, 123_456, 1003].iter().enumerate() {
        let amounts =
            distribute_share(&mut storage, &request_accounts(), *balance, 1000, round as i64)
                .unwrap();
        paid += amounts.iter().sum::<u64>();
        assert_eq!(storage.total_distributed, paid);
    }
    assert_eq!(paid, 1 + 999 + 0 + 122_456 + 3);
}

#[test]
fn deposit_needs_sufficient_funds() {
    assert_eq!(deposit_funds(100, 100), Ok(()));
    assert_eq!(deposit_funds(100, 99), Ok(()));
    assert_eq!(deposit_funds(100, 0), Ok(()));
    assert_eq!(deposit_funds(0, 0), Ok(()));
    assert_eq!(deposit_funds(100, 101), Err(ErrorCode::InsufficientFunds));
    assert_eq!(deposit_funds(0, 1), Err(ErrorCode::InsufficientFunds));
    assert_eq!(deposit_funds(u64::MAX - 1, u64::MAX), Err(ErrorCode::InsufficientFunds));
}
