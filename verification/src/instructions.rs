//! The requests a ledger answers: creation, replacement of the registry,
//! enabling and disabling, and distribution.
//!
//! Every request checks before it changes anything: a refused request leaves
//! the record as it was. Replacing the registry and toggling are for the
//! administrator alone; anyone may ask for a distribution, since value only
//! ever goes to the registered holders.

use vstd::prelude::*;
use crate::account::{ErrorCode, ShareHolder, ShareStorage, ShareStorageOps, SplShareStorage};
use crate::associated_token::{derive_token_destinations, token_destinations};
use crate::distribution::{
    as_ints, distributable_amount, native_destinations, payouts, plan_distribution, sum,
};
use crate::ledger::{
    distributable_pool, name_fits, valid_name, Ledger, MAX_NAME_LEN, NAME_SPACE,
};
use crate::pubkey::Pubkey;
use crate::shares::validate_holders;

verus! {

/// Whether `name` has 1 to 32 characters.
pub fn check_name(name: &String) -> (r: Result<(), ErrorCode>)
    ensures
        r is Ok <==> valid_name(name@),
        r is Err ==> r == Err::<(), ErrorCode>(ErrorCode::InvalidName),
{
    let length: usize = name.as_str().unicode_len();
    if length == 0 || length > MAX_NAME_LEN {
        Err(ErrorCode::InvalidName)
    } else {
        Ok(())
    }
}

/// Whether `name` fits the 32 bytes that a stored record has room for. A
/// ledger can be created under any name of 1 to 32 characters; a host that
/// keeps records in storage of fixed size asks this as well, and refuses the
/// name with `InvalidName` where it does not fit.
pub fn check_name_space(name: &String) -> (r: Result<(), ErrorCode>)
    ensures
        r is Ok <==> name_fits(name@),
        r is Err ==> r == Err::<(), ErrorCode>(ErrorCode::InvalidName),
{
    if name.as_str().as_bytes().len() > NAME_SPACE {
        Err(ErrorCode::InvalidName)
    } else {
        Ok(())
    }
}

/// Creates the record of a ledger of native value for the administrator
/// `admin`: enabled, with no holders and nothing distributed. Fails with
/// `InvalidName` unless `name` has 1 to 32 characters.
pub fn initialize_share_storage(admin: Pubkey, name: String) -> (r: Result<
    ShareStorage,
    ErrorCode,
>)
    ensures
        match r {
            Ok(storage) => valid_name(name@) && storage@ == Ledger::created(admin, name@, None)
                && storage@.wf(),
            Err(e) => !valid_name(name@) && e == ErrorCode::InvalidName,
        },
{
    match check_name(&name) {
        Err(e) => Err(e),
        Ok(()) => Ok(
            ShareStorage {
                admin,
                name,
                enabled: true,
                last_distributed_at: 0,
                total_distributed: 0,
                holders: Vec::new(),
            },
        ),
    }
}

/// Creates the record of a ledger of the fungible asset `token_mint` for the
/// administrator `admin`: enabled, with no holders and nothing distributed.
/// Fails with `InvalidName` unless `name` has 1 to 32 characters.
pub fn initialize_spl_share_storage(admin: Pubkey, token_mint: Pubkey, name: String) -> (r: Result<
    SplShareStorage,
    ErrorCode,
>)
    ensures
        match r {
            Ok(storage) => valid_name(name@) && storage@ == Ledger::created(
                admin,
                name@,
                Some(token_mint),
            ) && storage@.wf(),
            Err(e) => !valid_name(name@) && e == ErrorCode::InvalidName,
        },
{
    match check_name(&name) {
        Err(e) => Err(e),
        Ok(()) => Ok(
            SplShareStorage {
                admin,
                token_mint,
                name,
                enabled: true,
                last_distributed_at: 0,
                total_distributed: 0,
                holders: Vec::new(),
            },
        ),
    }
}

/// Decides a deposit of `amount` into a ledger by a depositor who has
/// `available`. Fails with `InsufficientFunds` when the depositor has less
/// than the amount.
pub fn deposit_funds(available: u64, amount: u64) -> (r: Result<(), ErrorCode>)
    ensures
        r is Ok <==> amount <= available,
        r is Err ==> r == Err::<(), ErrorCode>(ErrorCode::InsufficientFunds),
{
    if amount > available {
        Err(ErrorCode::InsufficientFunds)
    } else {
        Ok(())
    }
}

/// Replaces the whole registry of any kind of ledger record with `holders`,
/// in the order given, on behalf of `caller`. Fails with `Unauthorized`
/// unless `caller` is the administrator, and otherwise with what the
/// validation of `holders` answers. It is all or nothing: on success the
/// registry is exactly `holders`, on failure the record is unchanged.
pub fn replace_holders<S: ShareStorageOps>(
    storage: &mut S,
    caller: &Pubkey,
    holders: Vec<ShareHolder>,
) -> (r: Result<(), ErrorCode>)
    ensures
        r == old(storage)@.replace_check(*caller, holders@),
        r is Ok ==> final(storage)@ == old(storage)@.with_holders(holders@),
        r is Ok ==> final(storage)@.distributable(),
        r is Err ==> final(storage)@ == old(storage)@,
        old(storage)@.wf() ==> final(storage)@.wf(),
{
    if !storage.is_admin(caller) {
        return Err(ErrorCode::Unauthorized);
    }
    match validate_holders(&holders) {
        Err(e) => Err(e),
        Ok(()) => {
            let registry = storage.holders_mut();
            *registry = holders;
            Ok(())
        },
    }
}

/// Replaces the registry of a ledger of native value; see [`replace_holders`].
pub fn set_holders(storage: &mut ShareStorage, caller: &Pubkey, holders: Vec<ShareHolder>) -> (r:
    Result<(), ErrorCode>)
    ensures
        r == old(storage)@.replace_check(*caller, holders@),
        r is Ok ==> final(storage)@ == old(storage)@.with_holders(holders@),
        r is Ok ==> final(storage)@.distributable(),
        r is Err ==> final(storage)@ == old(storage)@,
        old(storage)@.wf() ==> final(storage)@.wf(),
{
    replace_holders(storage, caller, holders)
}

/// Replaces the registry of a ledger of a fungible asset; see [`replace_holders`].
pub fn set_spl_holders(
    storage: &mut SplShareStorage,
    caller: &Pubkey,
    holders: Vec<ShareHolder>,
) -> (r: Result<(), ErrorCode>)
    ensures
        r == old(storage)@.replace_check(*caller, holders@),
        r is Ok ==> final(storage)@ == old(storage)@.with_holders(holders@),
        r is Ok ==> final(storage)@.distributable(),
        r is Err ==> final(storage)@ == old(storage)@,
        old(storage)@.wf() ==> final(storage)@.wf(),
{
    replace_holders(storage, caller, holders)
}

/// Enables a ledger of native value on behalf of `caller`. Fails with
/// `Unauthorized`, changing nothing, unless `caller` is the administrator.
/// Enabling an enabled ledger succeeds and changes nothing.
pub fn enable_share_storage(storage: &mut ShareStorage, caller: &Pubkey) -> (r: Result<
    (),
    ErrorCode,
>)
    ensures
        r == old(storage)@.guard(*caller),
        r is Ok ==> final(storage)@ == old(storage)@.with_enabled(true),
        r is Err ==> final(storage)@ == old(storage)@,
{
    if !storage.is_admin(caller) {
        return Err(ErrorCode::Unauthorized);
    }
    storage.enabled = true;
    Ok(())
}

/// Disables a ledger of native value on behalf of `caller`. Fails with
/// `Unauthorized`, changing nothing, unless `caller` is the administrator.
/// Disabling a disabled ledger succeeds and changes nothing.
pub fn disable_share_storage(storage: &mut ShareStorage, caller: &Pubkey) -> (r: Result<
    (),
    ErrorCode,
>)
    ensures
        r == old(storage)@.guard(*caller),
        r is Ok ==> final(storage)@ == old(storage)@.with_enabled(false),
        r is Err ==> final(storage)@ == old(storage)@,
{
    if !storage.is_admin(caller) {
        return Err(ErrorCode::Unauthorized);
    }
    storage.enabled = false;
    Ok(())
}

/// Enables a ledger of a fungible asset on behalf of `caller`. Fails with
/// `Unauthorized`, changing nothing, unless `caller` is the administrator.
pub fn enable_spl_share_storage(storage: &mut SplShareStorage, caller: &Pubkey) -> (r: Result<
    (),
    ErrorCode,
>)
    ensures
        r == old(storage)@.guard(*caller),
        r is Ok ==> final(storage)@ == old(storage)@.with_enabled(true),
        r is Err ==> final(storage)@ == old(storage)@,
{
    if !storage.is_admin(caller) {
        return Err(ErrorCode::Unauthorized);
    }
    storage.enabled = true;
    Ok(())
}

/// Disables a ledger of a fungible asset on behalf of `caller`. Fails with
/// `Unauthorized`, changing nothing, unless `caller` is the administrator.
pub fn disable_spl_share_storage(storage: &mut SplShareStorage, caller: &Pubkey) -> (r: Result<
    (),
    ErrorCode,
>)
    ensures
        r == old(storage)@.guard(*caller),
        r is Ok ==> final(storage)@ == old(storage)@.with_enabled(false),
        r is Err ==> final(storage)@ == old(storage)@,
{
    if !storage.is_admin(caller) {
        return Err(ErrorCode::Unauthorized);
    }
    storage.enabled = false;
    Ok(())
}

/// Distributes what a ledger of native value holds above its reserve.
///
/// `holder_accounts` are the accounts to pay, one per holder in registry
/// order; `current_balance` is the balance of the ledger's account,
/// `rent_exempt_minimum` the part of it that must stay, and `now` the time
/// of the request. The request is refused, and the record left unchanged,
/// for the first of these that holds: the ledger is disabled
/// (`ShareStorageDisabled`); it has no holders (`NoHolders`); the number of
/// accounts is not the number of holders (`InvalidHolderAccounts`); an
/// account is not its holder's identity (`InvalidHolderAccount`).
///
/// With nothing above the reserve the request then succeeds as a no-op,
/// whatever the shares add up to: all amounts are zero and the record is
/// unchanged. With something to distribute it is refused when the shares do
/// not add up to 10000 basis points (`InvalidShareDistribution`) or the
/// cumulative total would exceed 64 bits (`ArithmeticOverflow`). Otherwise
/// the result holds the amount to transfer to each account, adding up to the
/// pool; the cumulative total grows by the pool and the time of the last
/// distribution becomes `now`.
pub fn distribute_share(
    storage: &mut ShareStorage,
    holder_accounts: &Vec<Pubkey>,
    current_balance: u64,
    rent_exempt_minimum: u64,
    now: i64,
) -> (r: Result<Vec<u64>, ErrorCode>)
    ensures
        match r {
            Ok(amounts) => {
                &&& old(storage)@.distribution_check(
                    old(storage)@.native_destinations(),
                    holder_accounts@,
                    distributable_pool(current_balance as nat, rent_exempt_minimum as nat),
                ) is Ok
                &&& as_ints(amounts@) == payouts(
                    distributable_pool(current_balance as nat, rent_exempt_minimum as nat),
                    old(storage)@.holders,
                )
                &&& sum(as_ints(amounts@)) == distributable_pool(
                    current_balance as nat,
                    rent_exempt_minimum as nat,
                )
                &&& final(storage)@ == old(storage)@.after_distribution(
                    distributable_pool(current_balance as nat, rent_exempt_minimum as nat),
                    now as int,
                )
            },
            Err(e) => {
                &&& old(storage)@.distribution_check(
                    old(storage)@.native_destinations(),
                    holder_accounts@,
                    distributable_pool(current_balance as nat, rent_exempt_minimum as nat),
                ) == Err::<(), ErrorCode>(e)
                &&& final(storage)@ == old(storage)@
            },
        },
        old(storage)@.wf() ==> final(storage)@.wf(),
{
    let pool: u64 = distributable_amount(current_balance, rent_exempt_minimum);
    let destinations = native_destinations(&storage.holders);
    match plan_distribution(
        storage.enabled,
        &storage.holders,
        storage.total_distributed,
        &destinations,
        holder_accounts,
        pool,
    ) {
        Err(e) => Err(e),
        Ok(amounts) => {
            if pool > 0 {
                storage.total_distributed = storage.total_distributed + pool;
                storage.last_distributed_at = now;
            }
            Ok(amounts)
        },
    }
}

/// Distributes what the vault of a ledger of a fungible asset holds.
///
/// `token_mint` is the asset that the caller names, `holder_token_accounts`
/// the token accounts to pay, one per holder in registry order,
/// `vault_balance` the amount in the vault and `now` the time of the
/// request. The request is refused with `InvalidTokenMint` when `token_mint`
/// is not the asset of the ledger. After that it is decided as for a ledger
/// of native value, with the associated token account of each holder for the
/// asset as the holder's destination: a token account that is not that one
/// is refused with `InvalidHolderAccount`, and an empty vault that passes
/// the checks on the accounts is a no-op, whatever the shares add up to. A
/// refused request leaves the record unchanged.
pub fn distribute_spl_share(
    storage: &mut SplShareStorage,
    token_mint: &Pubkey,
    holder_token_accounts: &Vec<Pubkey>,
    vault_balance: u64,
    now: i64,
) -> (r: Result<Vec<u64>, ErrorCode>)
    ensures
        match r {
            Ok(amounts) => {
                &&& old(storage)@.asset_identity == Some(*token_mint)
                &&& old(storage)@.distribution_check(
                    token_destinations(old(storage)@.holders, *token_mint),
                    holder_token_accounts@,
                    vault_balance as nat,
                ) is Ok
                &&& as_ints(amounts@) == payouts(vault_balance as nat, old(storage)@.holders)
                &&& sum(as_ints(amounts@)) == vault_balance
                &&& final(storage)@ == old(storage)@.after_distribution(
                    vault_balance as nat,
                    now as int,
                )
            },
            Err(e) => {
                &&& if old(storage)@.asset_identity == Some(*token_mint) {
                    old(storage)@.distribution_check(
                        token_destinations(old(storage)@.holders, *token_mint),
                        holder_token_accounts@,
                        vault_balance as nat,
                    ) == Err::<(), ErrorCode>(e)
                } else {
                    e == ErrorCode::InvalidTokenMint
                }
                &&& final(storage)@ == old(storage)@
            },
        },
        old(storage)@.wf() ==> final(storage)@.wf(),
{
    if !storage.token_mint.same(token_mint) {
        return Err(ErrorCode::InvalidTokenMint);
    }
    let destinations = derive_token_destinations(&storage.holders, token_mint);
    match plan_distribution(
        storage.enabled,
        &storage.holders,
        storage.total_distributed,
        &destinations,
        holder_token_accounts,
        vault_balance,
    ) {
        Err(e) => Err(e),
        Ok(amounts) => {
            if vault_balance > 0 {
                storage.total_distributed = storage.total_distributed + vault_balance;
                storage.last_distributed_at = now;
            }
            Ok(amounts)
        },
    }
}

} // verus!
