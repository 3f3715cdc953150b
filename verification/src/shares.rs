//! Holder lists as sequences: the sum of their shares, membership by
//! identity, and the validation a list must pass to become a registry.

use vstd::prelude::*;
use crate::account::{ErrorCode, ShareHolder};
use crate::pubkey::Pubkey;

verus! {

/// The most holders a registry can have.
pub const MAX_HOLDERS: usize = 16;

/// The basis points that the shares of a complete registry add up to.
pub const TOTAL_BASIS_POINTS: u32 = 10000;

/// The sum of the shares of `holders`, in basis points.
pub open spec fn total_share(holders: Seq<ShareHolder>) -> nat
    decreases holders.len(),
{
    if holders.len() == 0 {
        0
    } else {
        total_share(holders.drop_last()) + holders.last().share_basis_points as nat
    }
}

/// Whether some holder of `holders` has the identity `identity`.
pub open spec fn holds(holders: Seq<ShareHolder>, identity: Pubkey) -> bool {
    exists|i: int| 0 <= i < holders.len() && (#[trigger] holders[i]).pubkey == identity
}

/// Whether `k` is the first position in `holders` with the identity `identity`.
pub open spec fn is_first_position(holders: Seq<ShareHolder>, identity: Pubkey, k: int) -> bool {
    &&& 0 <= k < holders.len()
    &&& holders[k].pubkey == identity
    &&& forall|j: int| 0 <= j < k ==> (#[trigger] holders[j]).pubkey != identity
}

/// The first position in `holders` with the identity `identity`, where there is one.
pub open spec fn position(holders: Seq<ShareHolder>, identity: Pubkey) -> int {
    choose|k: int| is_first_position(holders, identity, k)
}

/// Whether the identities of `holders` are pairwise distinct.
pub open spec fn distinct(holders: Seq<ShareHolder>) -> bool {
    forall|i: int, j: int|
        0 <= i < j < holders.len() ==> (#[trigger] holders[i]).pubkey != (#[trigger] holders[j]).pubkey
}

/// What the validation of a proposed registry answers: the size bound first,
/// then the sum of the shares, then the distinctness of the identities.
pub open spec fn validation(holders: Seq<ShareHolder>) -> Result<(), ErrorCode> {
    if holders.len() > MAX_HOLDERS {
        Err(ErrorCode::TooManyHolders)
    } else if total_share(holders) != TOTAL_BASIS_POINTS {
        Err(ErrorCode::InvalidShareDistribution)
    } else if !distinct(holders) {
        Err(ErrorCode::HolderAlreadyExists)
    } else {
        Ok(())
    }
}

/// A first position is the only first position.
pub proof fn lemma_position_unique(holders: Seq<ShareHolder>, identity: Pubkey, k: int)
    requires
        is_first_position(holders, identity, k),
    ensures
        position(holders, identity) == k,
        holds(holders, identity),
{
    let p = position(holders, identity);
    assert(is_first_position(holders, identity, p));
    if p < k {
        assert(holders[p].pubkey != identity);
    }
    if k < p {
        assert(holders[k].pubkey != identity);
    }
}

/// Below every position with an identity there is a first one with it.
proof fn lemma_first_position_below(holders: Seq<ShareHolder>, identity: Pubkey, at: int) -> (k:
    int)
    requires
        0 <= at < holders.len(),
        holders[at].pubkey == identity,
    ensures
        is_first_position(holders, identity, k),
    decreases at,
{
    if exists|j: int| 0 <= j < at && (#[trigger] holders[j]).pubkey == identity {
        let j = choose|j: int| 0 <= j < at && (#[trigger] holders[j]).pubkey == identity;
        lemma_first_position_below(holders, identity, j)
    } else {
        at
    }
}

/// Where a list holds an identity, `position` is the first place it holds it.
pub proof fn lemma_position_of_held(holders: Seq<ShareHolder>, identity: Pubkey)
    requires
        holds(holders, identity),
    ensures
        is_first_position(holders, identity, position(holders, identity)),
{
    let at = choose|i: int| 0 <= i < holders.len() && (#[trigger] holders[i]).pubkey == identity;
    let k = lemma_first_position_below(holders, identity, at);
}

/// The sum over the first `n + 1` holders is the sum over the first `n` plus the next share.
pub proof fn lemma_total_share_take(holders: Seq<ShareHolder>, n: int)
    requires
        0 <= n < holders.len(),
    ensures
        total_share(holders.take(n + 1)) == total_share(holders.take(n))
            + holders[n].share_basis_points,
{
    assert(holders.take(n + 1).drop_last() =~= holders.take(n));
}

/// The sum over a prefix is at most the sum over the whole list, and a list
/// of `n` holders sums to at most `n` times the largest 16-bit value.
pub proof fn lemma_total_share_bounds(holders: Seq<ShareHolder>, n: int)
    requires
        0 <= n <= holders.len(),
    ensures
        total_share(holders.take(n)) <= total_share(holders),
        total_share(holders.take(n)) <= n * 0xffff,
    decreases holders.len() - n,
{
    lemma_total_share_cap(holders.take(n));
    if n == holders.len() {
        assert(holders.take(n) =~= holders);
    } else {
        lemma_total_share_take(holders, n);
        lemma_total_share_bounds(holders, n + 1);
    }
}

/// A list of `n` holders sums to at most `n` times the largest 16-bit value.
pub proof fn lemma_total_share_cap(holders: Seq<ShareHolder>)
    ensures
        total_share(holders) <= holders.len() * 0xffff,
    decreases holders.len(),
{
    if holders.len() > 0 {
        lemma_total_share_cap(holders.drop_last());
    }
}

/// No single share exceeds the sum of all shares.
pub proof fn lemma_share_at_most_total(holders: Seq<ShareHolder>, i: int)
    requires
        0 <= i < holders.len(),
    ensures
        holders[i].share_basis_points <= total_share(holders),
    decreases holders.len(),
{
    if i < holders.len() - 1 {
        lemma_share_at_most_total(holders.drop_last(), i);
    }
}

/// Validates a proposed registry: at most 16 holders, shares that add up to
/// exactly 10000 basis points, and no identity twice, checked in that order.
pub fn validate_holders(holders: &Vec<ShareHolder>) -> (r: Result<(), ErrorCode>)
    ensures
        r == validation(holders@),
{
    if holders.len() > MAX_HOLDERS {
        return Err(ErrorCode::TooManyHolders);
    }
    let total: u32 = sum_shares(holders);
    if total != TOTAL_BASIS_POINTS {
        return Err(ErrorCode::InvalidShareDistribution);
    }
    if has_duplicate(holders) {
        return Err(ErrorCode::HolderAlreadyExists);
    }
    Ok(())
}

/// Adds up the shares of at most 16 holders.
pub fn sum_shares(holders: &Vec<ShareHolder>) -> (total: u32)
    requires
        holders.len() <= MAX_HOLDERS,
    ensures
        total == total_share(holders@),
{
    let mut total: u32 = 0;
    let mut i: usize = 0;
    while i < holders.len()
        invariant
            i <= holders.len() <= MAX_HOLDERS,
            total == total_share(holders@.take(i as int)),
            total <= i * 0xffff,
        decreases holders.len() - i,
    {
        proof {
            lemma_total_share_take(holders@, i as int);
        }
        total = total + holders[i].share_basis_points as u32;
        i += 1;
    }
    proof {
        assert(holders@.take(i as int) =~= holders@);
    }
    total
}

/// Whether the shares of a list of any length add up to exactly 10000 basis
/// points.
pub fn shares_complete(holders: &Vec<ShareHolder>) -> (complete: bool)
    ensures
        complete == (total_share(holders@) == TOTAL_BASIS_POINTS),
{
    let mut total: u32 = 0;
    let mut i: usize = 0;
    while i < holders.len()
        invariant
            i <= holders.len(),
            total == total_share(holders@.take(i as int)),
            total <= TOTAL_BASIS_POINTS,
        decreases holders.len() - i,
    {
        proof {
            lemma_total_share_take(holders@, i as int);
            lemma_total_share_bounds(holders@, i as int + 1);
        }
        total = total + holders[i].share_basis_points as u32;
        if total > TOTAL_BASIS_POINTS {
            return false;
        }
        i += 1;
    }
    proof {
        assert(holders@.take(i as int) =~= holders@);
    }
    total == TOTAL_BASIS_POINTS
}

/// Whether two holders of the list share an identity.
pub fn has_duplicate(holders: &Vec<ShareHolder>) -> (found: bool)
    ensures
        found == !distinct(holders@),
{
    let n: usize = holders.len();
    let mut i: usize = 0;
    while i < n
        invariant
            i <= n == holders.len(),
            forall|a: int, b: int|
                0 <= a < i && a < b < n ==> (#[trigger] holders[a]).pubkey != (
                #[trigger] holders[b]).pubkey,
        decreases n - i,
    {
        let mut j: usize = i + 1;
        while j < n
            invariant
                i < j <= n == holders.len(),
                forall|a: int, b: int|
                    0 <= a < i && a < b < n ==> (#[trigger] holders[a]).pubkey != (
                    #[trigger] holders[b]).pubkey,
                forall|b: int| i < b < j ==> holders[i as int].pubkey != (#[trigger] holders[b]).pubkey,
            decreases n - j,
        {
            if holders[i].pubkey.same(&holders[j].pubkey) {
                return true;
            }
            j += 1;
        }
        i += 1;
    }
    false
}

/// Whether some holder of the list has the identity `identity`.
pub fn contains_identity(holders: &Vec<ShareHolder>, identity: &Pubkey) -> (found: bool)
    ensures
        found == holds(holders@, *identity),
{
    find_identity(holders, identity).is_some()
}

/// The first position in the list with the identity `identity`, if there is one.
pub fn find_identity(holders: &Vec<ShareHolder>, identity: &Pubkey) -> (found: Option<usize>)
    ensures
        match found {
            Some(k) => is_first_position(holders@, *identity, k as int)
                && k as int == position(holders@, *identity),
            None => !holds(holders@, *identity),
        },
{
    let mut i: usize = 0;
    while i < holders.len()
        invariant
            i <= holders.len(),
            forall|j: int| 0 <= j < i ==> (#[trigger] holders[j]).pubkey != *identity,
        decreases holders.len() - i,
    {
        if holders[i].pubkey.same(identity) {
            proof {
                lemma_position_unique(holders@, *identity, i as int);
            }
            return Some(i);
        }
        i += 1;
    }
    None
}

} // verus!
