//! The distribution engine: it turns a pool of value and a registry whose
//! shares add up to 10000 basis points into one payout per holder, so that
//! the payouts add up to the pool exactly.
//!
//! Every holder is paid its proportional part rounded down; what the
//! rounding leaves over goes to the first holder of the registry, whole.

use vstd::prelude::*;
use crate::account::{ErrorCode, ShareHolder};
use crate::ledger::{
    destination_views, destinations_match, distributable_pool, distribution_check,
    own_destinations,
};
use crate::pubkey::Pubkey;
use crate::shares::{
    lemma_share_at_most_total, lemma_total_share_bounds, shares_complete, total_share,
    TOTAL_BASIS_POINTS,
};

verus! {

/// The part of `pool` that `share_basis_points` out of 10000 stands for, rounded down.
pub open spec fn proportional_share(pool: nat, share_basis_points: nat) -> nat {
    (pool * share_basis_points) / 10000
}

/// The sum of the rounded-down parts of all `holders`.
pub open spec fn floor_total(pool: nat, holders: Seq<ShareHolder>) -> nat
    decreases holders.len(),
{
    if holders.len() == 0 {
        0
    } else {
        floor_total(pool, holders.drop_last()) + proportional_share(
            pool,
            holders.last().share_basis_points as nat,
        )
    }
}

/// What rounding down leaves undistributed of `pool`.
pub open spec fn remainder(pool: nat, holders: Seq<ShareHolder>) -> int {
    pool - floor_total(pool, holders)
}

/// The payout of the holder at position `i`: its rounded-down part, and for
/// the first holder the whole remainder on top of it.
pub open spec fn payout(pool: nat, holders: Seq<ShareHolder>, i: int) -> int {
    if i == 0 {
        proportional_share(pool, holders[0].share_basis_points as nat) + remainder(pool, holders)
    } else {
        proportional_share(pool, holders[i].share_basis_points as nat) as int
    }
}

/// The payouts of all `holders`, in registry order.
pub open spec fn payouts(pool: nat, holders: Seq<ShareHolder>) -> Seq<int> {
    Seq::new(holders.len(), |i: int| payout(pool, holders, i))
}

/// The sum of a sequence of amounts.
pub open spec fn sum(amounts: Seq<int>) -> int
    decreases amounts.len(),
{
    if amounts.len() == 0 {
        0
    } else {
        sum(amounts.drop_last()) + amounts.last()
    }
}

/// Machine amounts as mathematical integers.
pub open spec fn as_ints(amounts: Seq<u64>) -> Seq<int> {
    Seq::new(amounts.len(), |i: int| amounts[i] as int)
}

/// A rounded-down part lies within one unit below the exact proportion.
pub proof fn lemma_proportional_share_bounds(pool: nat, share_basis_points: nat)
    ensures
        0 <= proportional_share(pool, share_basis_points),
        10000 * proportional_share(pool, share_basis_points) <= pool * share_basis_points,
        pool * share_basis_points < 10000 * (proportional_share(pool, share_basis_points) + 1),
{
    let product = pool * share_basis_points;
    assert(0 <= product) by (nonlinear_arith)
        requires
            product == pool * share_basis_points,
    ;
    assert(product == 10000 * (product / 10000) + product % 10000);
}

/// A share of at most 10000 basis points is at most the pool.
pub proof fn lemma_proportional_share_at_most_pool(pool: nat, share_basis_points: nat)
    requires
        share_basis_points <= 10000,
    ensures
        proportional_share(pool, share_basis_points) <= pool,
{
    assert(pool * share_basis_points <= pool * 10000) by (nonlinear_arith)
        requires
            share_basis_points <= 10000,
    ;
}

/// The rounded-down parts of the first `n + 1` holders are those of the first
/// `n` and the part of the next one.
pub proof fn lemma_floor_total_take(pool: nat, holders: Seq<ShareHolder>, n: int)
    requires
        0 <= n < holders.len(),
    ensures
        floor_total(pool, holders.take(n + 1)) == floor_total(pool, holders.take(n))
            + proportional_share(pool, holders[n].share_basis_points as nat),
{
    assert(holders.take(n + 1).drop_last() =~= holders.take(n));
}

/// Rounding down loses less than one unit per holder: ten thousand times the
/// sum of the parts lies between the pool times the sum of the shares, less
/// 9999 for each holder, and the pool times the sum of the shares.
pub proof fn lemma_floor_total_bounds(pool: nat, holders: Seq<ShareHolder>)
    ensures
        0 <= floor_total(pool, holders),
        10000 * floor_total(pool, holders) <= pool * total_share(holders),
        pool * total_share(holders) <= 10000 * floor_total(pool, holders) + 9999 * holders.len(),
    decreases holders.len(),
{
    if holders.len() == 0 {
        assert(pool * total_share(holders) == 0) by (nonlinear_arith)
            requires
                total_share(holders) == 0,
        ;
    } else {
        let rest = holders.drop_last();
        let share = holders.last().share_basis_points as nat;
        lemma_floor_total_bounds(pool, rest);
        lemma_proportional_share_bounds(pool, share);
        assert(pool * total_share(holders) == pool * total_share(rest) + pool * share)
            by (nonlinear_arith)
            requires
                total_share(holders) == total_share(rest) + share,
        ;
    }
}

/// Each rounded-down part is at most the sum of all of them.
pub proof fn lemma_share_at_most_floor_total(pool: nat, holders: Seq<ShareHolder>, i: int)
    requires
        0 <= i < holders.len(),
    ensures
        proportional_share(pool, holders[i].share_basis_points as nat) <= floor_total(
            pool,
            holders,
        ),
    decreases holders.len(),
{
    lemma_floor_total_bounds(pool, holders.drop_last());
    lemma_proportional_share_bounds(pool, holders.last().share_basis_points as nat);
    if i < holders.len() - 1 {
        lemma_share_at_most_floor_total(pool, holders.drop_last(), i);
    }
}

/// While the shares add up to at most 10000 basis points, the rounded-down
/// parts of any prefix of the registry add up to at most the pool.
pub proof fn lemma_floor_total_at_most_pool(pool: nat, holders: Seq<ShareHolder>, n: int)
    requires
        total_share(holders) <= 10000,
        0 <= n <= holders.len(),
    ensures
        0 <= floor_total(pool, holders.take(n)) <= pool,
{
    let prefix = holders.take(n);
    lemma_floor_total_bounds(pool, prefix);
    lemma_total_share_bounds(holders, n);
    assert(pool * total_share(prefix) <= pool * 10000) by (nonlinear_arith)
        requires
            total_share(prefix) <= 10000,
    ;
}

/// With shares that add up to exactly 10000 basis points, the remainder is
/// at least zero and less than the number of holders.
pub proof fn lemma_remainder_bounds(pool: nat, holders: Seq<ShareHolder>)
    requires
        total_share(holders) == 10000,
    ensures
        holders.len() >= 1,
        0 <= remainder(pool, holders) <= holders.len() - 1,
{
    lemma_floor_total_bounds(pool, holders);
    assert(pool * total_share(holders) == pool * 10000) by (nonlinear_arith)
        requires
            total_share(holders) == 10000,
    ;
}

/// The payouts of the first `n` holders add up to their rounded-down parts,
/// and the remainder with them once the first holder is among them.
proof fn lemma_payouts_prefix_sum(pool: nat, holders: Seq<ShareHolder>, n: int)
    requires
        0 <= n <= holders.len(),
    ensures
        sum(payouts(pool, holders).take(n)) == floor_total(pool, holders.take(n)) + if n == 0 {
            0
        } else {
            remainder(pool, holders)
        },
    decreases n,
{
    if n > 0 {
        lemma_payouts_prefix_sum(pool, holders, n - 1);
        lemma_floor_total_take(pool, holders, n - 1);
        assert(payouts(pool, holders).take(n).drop_last() =~= payouts(pool, holders).take(n - 1));
    } else {
        assert(holders.take(0).len() == 0);
    }
}

/// Exactness: for every registry whose shares add up to 10000 basis points
/// and every pool, the payouts add up to the pool.
pub proof fn lemma_payouts_sum(pool: nat, holders: Seq<ShareHolder>)
    requires
        total_share(holders) == 10000,
    ensures
        sum(payouts(pool, holders)) == pool,
{
    lemma_payouts_prefix_sum(pool, holders, holders.len() as int);
    assert(payouts(pool, holders).take(holders.len() as int) =~= payouts(pool, holders));
    assert(holders.take(holders.len() as int) =~= holders);
}

/// Rounding: for every registry whose shares add up to 10000 basis points,
/// every holder but the first is paid its exact proportion rounded down,
/// which is less than one unit below that proportion; the first holder is
/// paid its rounded-down proportion and the whole remainder, which is less
/// than the number of holders. No payout is negative or exceeds the pool.
pub proof fn lemma_payout_rounding(pool: nat, holders: Seq<ShareHolder>, i: int)
    requires
        total_share(holders) == 10000,
        0 <= i < holders.len(),
    ensures
        i > 0 ==> payout(pool, holders, i) == proportional_share(
            pool,
            holders[i].share_basis_points as nat,
        ),
        i > 0 ==> 10000 * payout(pool, holders, i) <= pool * holders[i].share_basis_points < 10000
            * (payout(pool, holders, i) + 1),
        i == 0 ==> payout(pool, holders, 0) == proportional_share(
            pool,
            holders[0].share_basis_points as nat,
        ) + remainder(pool, holders),
        i == 0 ==> 10000 * (payout(pool, holders, 0) - remainder(pool, holders)) <= pool
            * holders[0].share_basis_points < 10000 * (payout(pool, holders, 0) - remainder(
            pool,
            holders,
        ) + 1),
        0 <= remainder(pool, holders) <= holders.len() - 1,
        0 <= payout(pool, holders, i) <= pool,
{
    let share = holders[i].share_basis_points as nat;
    lemma_proportional_share_bounds(pool, share);
    lemma_remainder_bounds(pool, holders);
    lemma_share_at_most_total(holders, i);
    lemma_proportional_share_at_most_pool(pool, share);
    lemma_share_at_most_floor_total(pool, holders, i);
}

/// An empty pool pays nothing to anyone.
pub proof fn lemma_empty_pool_pays_nothing(holders: Seq<ShareHolder>, i: int)
    requires
        0 <= i < holders.len(),
    ensures
        floor_total(0, holders) == 0,
        payout(0, holders, i) == 0,
        payouts(0, holders)[i] == 0,
    decreases holders.len(),
{
    let share = holders[i].share_basis_points as nat;
    assert(0 * share == 0) by (nonlinear_arith);
    lemma_floor_total_bounds(0, holders);
    assert(0 * total_share(holders) == 0) by (nonlinear_arith);
    let first = holders[0].share_basis_points as nat;
    assert(0 * first == 0) by (nonlinear_arith);
}

/// The payouts of an empty pool add up to nothing.
pub proof fn lemma_empty_pool_sum(holders: Seq<ShareHolder>)
    ensures
        sum(payouts(0, holders)) == 0,
{
    let n = holders.len() as int;
    lemma_payouts_prefix_sum(0, holders, n);
    assert(payouts(0, holders).take(n) =~= payouts(0, holders));
    assert(holders.take(n) =~= holders);
    if n > 0 {
        lemma_empty_pool_pays_nothing(holders, 0);
    }
}

/// The rounded-down part of `pool` for a share of at most 10000 basis
/// points. The product is formed in 128 bits, where it cannot overflow.
pub fn holder_share(pool: u64, share_basis_points: u16) -> (share: u64)
    requires
        share_basis_points <= 10000,
    ensures
        share == proportional_share(pool as nat, share_basis_points as nat),
{
    proof {
        lemma_proportional_share_at_most_pool(pool as nat, share_basis_points as nat);
        lemma_proportional_share_bounds(pool as nat, share_basis_points as nat);
        assert(pool * share_basis_points <= 0xffff_ffff_ffff_ffff * 10000) by (nonlinear_arith)
            requires
                pool <= 0xffff_ffff_ffff_ffff,
                share_basis_points <= 10000,
        ;
    }
    let wide: u128 = (pool as u128) * (share_basis_points as u128);
    let share: u128 = wide / (TOTAL_BASIS_POINTS as u128);
    share as u64
}

/// Splits `pool` among `holders`, whose shares add up to 10000 basis points:
/// each holder gets its proportional part rounded down, and the first holder
/// the remainder as well. The payouts come in registry order and add up to
/// `pool`.
pub fn compute_payouts(pool: u64, holders: &Vec<ShareHolder>) -> (amounts: Vec<u64>)
    requires
        total_share(holders@) == 10000,
    ensures
        as_ints(amounts@) == payouts(pool as nat, holders@),
        amounts.len() == holders.len(),
        sum(as_ints(amounts@)) == pool,
{
    let n: usize = holders.len();
    let mut amounts: Vec<u64> = Vec::new();
    let mut distributed: u64 = 0;
    let mut i: usize = 0;
    proof {
        lemma_remainder_bounds(pool as nat, holders@);
        assert(holders@.take(0).len() == 0);
    }
    while i < n
        invariant
            n == holders.len(),
            i <= n,
            total_share(holders@) == 10000,
            amounts.len() == i,
            forall|j: int|
                0 <= j < i ==> amounts[j] == proportional_share(
                    pool as nat,
                    holders[j].share_basis_points as nat,
                ),
            distributed == floor_total(pool as nat, holders@.take(i as int)),
        decreases n - i,
    {
        proof {
            lemma_share_at_most_total(holders@, i as int);
            lemma_floor_total_take(pool as nat, holders@, i as int);
            lemma_floor_total_at_most_pool(pool as nat, holders@, i + 1);
        }
        let share: u64 = holder_share(pool, holders[i].share_basis_points);
        distributed = distributed + share;
        amounts.push(share);
        i += 1;
    }
    proof {
        assert(holders@.take(n as int) =~= holders@);
        lemma_floor_total_at_most_pool(pool as nat, holders@, n as int);
        lemma_share_at_most_floor_total(pool as nat, holders@, 0);
    }
    let left: u64 = pool - distributed;
    let first: u64 = amounts[0];
    amounts.set(0, first + left);
    proof {
        assert(as_ints(amounts@) =~= payouts(pool as nat, holders@));
        lemma_payouts_sum(pool as nat, holders@);
    }
    amounts
}

/// The pool that can be distributed of `current_balance` when
/// `reserved_floor` must stay behind.
pub fn distributable_amount(current_balance: u64, reserved_floor: u64) -> (pool: u64)
    ensures
        pool == distributable_pool(current_balance as nat, reserved_floor as nat),
{
    if current_balance <= reserved_floor {
        0
    } else {
        current_balance - reserved_floor
    }
}

/// Whether the supplied accounts are, position by position, the destinations.
pub fn destinations_agree(destinations: &Vec<Option<Pubkey>>, supplied: &Vec<Pubkey>) -> (agree:
    bool)
    ensures
        agree == destinations_match(destination_views(destinations@), supplied@),
{
    if destinations.len() != supplied.len() {
        return false;
    }
    let mut i: usize = 0;
    while i < supplied.len()
        invariant
            i <= supplied.len() == destinations.len(),
            forall|j: int|
                0 <= j < i ==> (#[trigger] destination_views(destinations@)[j]) == Some(
                    supplied[j]@,
                ),
        decreases supplied.len() - i,
    {
        let agrees = match &destinations[i] {
            Some(destination) => destination.same(&supplied[i]),
            None => false,
        };
        proof {
            if let Some(destination) = destinations[i as int] {
                Pubkey::lemma_view_injective(destination, supplied[i as int]);
            }
        }
        if !agrees {
            assert(destination_views(destinations@)[i as int] != Some(supplied[i as int]@));
            return false;
        }
        i += 1;
    }
    true
}

/// The payouts of an empty pool: nothing for each holder, whatever the
/// shares add up to.
pub fn no_payouts(holders: &Vec<ShareHolder>) -> (amounts: Vec<u64>)
    ensures
        amounts.len() == holders.len(),
        as_ints(amounts@) == payouts(0, holders@),
        sum(as_ints(amounts@)) == 0,
{
    let mut amounts: Vec<u64> = Vec::new();
    let mut i: usize = 0;
    while i < holders.len()
        invariant
            i <= holders.len(),
            amounts.len() == i,
            forall|j: int| 0 <= j < i ==> #[trigger] amounts[j] == 0,
        decreases holders.len() - i,
    {
        amounts.push(0);
        i += 1;
    }
    proof {
        assert forall|j: int| 0 <= j < holders.len() implies #[trigger] as_ints(amounts@)[j]
            == payouts(0, holders@)[j] by {
            lemma_empty_pool_pays_nothing(holders@, j);
        }
        assert(as_ints(amounts@) =~= payouts(0, holders@));
        lemma_empty_pool_sum(holders@);
    }
    amounts
}

/// Decides a request to distribute `pool` and computes the payouts, from the
/// parts of a ledger that the decision depends on and the destination of
/// each holder. The checks come in the order of [`distribution_check`]; when
/// all pass, the payouts are those of the distribution engine, one per
/// holder in registry order, adding up to `pool`. For an empty pool that is
/// nothing for each holder, and the shares are not looked at.
pub fn plan_distribution(
    enabled: bool,
    holders: &Vec<ShareHolder>,
    total_distributed: u64,
    destinations: &Vec<Option<Pubkey>>,
    supplied: &Vec<Pubkey>,
    pool: u64,
) -> (r: Result<Vec<u64>, ErrorCode>)
    ensures
        match r {
            Ok(amounts) => distribution_check(
                enabled,
                holders@,
                total_distributed as nat,
                destination_views(destinations@),
                supplied@,
                pool as nat,
            ) is Ok && as_ints(amounts@) == payouts(pool as nat, holders@) && sum(
                as_ints(amounts@),
            ) == pool,
            Err(e) => distribution_check(
                enabled,
                holders@,
                total_distributed as nat,
                destination_views(destinations@),
                supplied@,
                pool as nat,
            ) == Err::<(), ErrorCode>(e),
        },
{
    if !enabled {
        return Err(ErrorCode::ShareStorageDisabled);
    }
    if holders.len() == 0 {
        return Err(ErrorCode::NoHolders);
    }
    if supplied.len() != holders.len() {
        return Err(ErrorCode::InvalidHolderAccounts);
    }
    if !destinations_agree(destinations, supplied) {
        return Err(ErrorCode::InvalidHolderAccount);
    }
    if pool == 0 {
        return Ok(no_payouts(holders));
    }
    if !shares_complete(holders) {
        return Err(ErrorCode::InvalidShareDistribution);
    }
    if total_distributed.checked_add(pool).is_none() {
        return Err(ErrorCode::ArithmeticOverflow);
    }
    Ok(compute_payouts(pool, holders))
}

/// The destinations of a ledger of native value: each holder is paid at its
/// own identity.
pub fn native_destinations(holders: &Vec<ShareHolder>) -> (destinations: Vec<Option<Pubkey>>)
    ensures
        destinations.len() == holders.len(),
        destination_views(destinations@) == own_destinations(holders@),
{
    let mut destinations: Vec<Option<Pubkey>> = Vec::new();
    let mut i: usize = 0;
    while i < holders.len()
        invariant
            i <= holders.len(),
            destinations.len() == i,
            forall|j: int| 0 <= j < i ==> #[trigger] destinations[j] == Some(holders[j].pubkey),
        decreases holders.len() - i,
    {
        destinations.push(Some(holders[i].pubkey));
        i += 1;
    }
    proof {
        assert(destination_views(destinations@) =~= own_destinations(holders@));
    }
    destinations
}

} // verus!
