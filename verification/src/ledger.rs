//! The mathematical model of a ledger: what a ledger record stands for in
//! contracts, which requests it refuses and why, and the state it moves to
//! when it accepts one.

use vstd::prelude::*;
use crate::account::{ErrorCode, ShareHolder};
use crate::pubkey::Pubkey;
use crate::shares::{
    distinct, holds, lemma_position_of_held, position, total_share, validation, MAX_HOLDERS,
    TOTAL_BASIS_POINTS,
};

verus! {

/// The longest name a ledger can have, in characters.
pub const MAX_NAME_LEN: usize = 32;

/// A ledger as a mathematical value. Both kinds of ledger record have this
/// view; a ledger of native value has no asset identity, a ledger of a
/// fungible asset has the identity of that asset.
pub struct Ledger {
    pub administrator: Pubkey,
    pub name: Seq<char>,
    pub enabled: bool,
    pub holders: Seq<ShareHolder>,
    pub total_distributed: nat,
    pub last_distributed_at: int,
    pub asset_identity: Option<Pubkey>,
}

/// The bytes that a stored record has room for the name of its ledger.
pub const NAME_SPACE: usize = 32;

/// Whether `name` fits the room that a stored record has for it: its UTF-8
/// encoding has at most 32 bytes.
pub open spec fn name_fits(name: Seq<char>) -> bool {
    vstd::utf8::encode_utf8(name).len() <= NAME_SPACE
}

/// Whether `name` can name a ledger: 1 to 32 characters.
pub open spec fn valid_name(name: Seq<char>) -> bool {
    1 <= name.len() <= MAX_NAME_LEN
}

/// A destination as its bytes.
pub open spec fn destination_view(destination: Option<Pubkey>) -> Option<Seq<u8>> {
    match destination {
        Some(account) => Some(account@),
        None => None,
    }
}

/// Destinations as their bytes.
pub open spec fn destination_views(destinations: Seq<Option<Pubkey>>) -> Seq<Option<Seq<u8>>> {
    Seq::new(destinations.len(), |i: int| destination_view(destinations[i]))
}

/// The pool that can be distributed of a balance of which `reserved` must
/// stay behind: what exceeds the reserve, and nothing where nothing does.
pub open spec fn distributable_pool(balance: nat, reserved: nat) -> nat {
    if balance <= reserved {
        0
    } else {
        (balance - reserved) as nat
    }
}

/// The destinations of holders that are paid at their own identities.
pub open spec fn own_destinations(holders: Seq<ShareHolder>) -> Seq<Option<Seq<u8>>> {
    Seq::new(holders.len(), |i: int| Some(holders[i].pubkey@))
}

/// Whether the supplied destination accounts are, position by position, the
/// destinations that the holders are to be paid at. A holder for which no
/// destination exists matches no account.
pub open spec fn destinations_match(
    destinations: Seq<Option<Seq<u8>>>,
    supplied: Seq<Pubkey>,
) -> bool {
    &&& destinations.len() == supplied.len()
    &&& forall|i: int|
        0 <= i < supplied.len() ==> #[trigger] destinations[i] == Some(supplied[i]@)
}

/// What a request to distribute `pool` answers, by the parts of the ledger it
/// depends on. The checks come in this order: the ledger is enabled, it has
/// holders, there is one supplied account for each holder, and each supplied
/// account is the destination of its holder. A request that passes these is
/// accepted when the pool is empty, whatever the shares add up to: nothing
/// is computed and nothing paid. For a pool that is not empty the shares must
/// add up to 10000 basis points, and the cumulative total must still fit in
/// 64 bits.
pub open spec fn distribution_check(
    enabled: bool,
    holders: Seq<ShareHolder>,
    total_distributed: nat,
    destinations: Seq<Option<Seq<u8>>>,
    supplied: Seq<Pubkey>,
    pool: nat,
) -> Result<(), ErrorCode> {
    if !enabled {
        Err(ErrorCode::ShareStorageDisabled)
    } else if holders.len() == 0 {
        Err(ErrorCode::NoHolders)
    } else if supplied.len() != holders.len() {
        Err(ErrorCode::InvalidHolderAccounts)
    } else if !destinations_match(destinations, supplied) {
        Err(ErrorCode::InvalidHolderAccount)
    } else if pool == 0 {
        Ok(())
    } else if total_share(holders) != TOTAL_BASIS_POINTS {
        Err(ErrorCode::InvalidShareDistribution)
    } else if total_distributed + pool > u64::MAX {
        Err(ErrorCode::ArithmeticOverflow)
    } else {
        Ok(())
    }
}

impl Ledger {
    /// The ledger as it is created: enabled, with no holders and nothing distributed.
    pub open spec fn created(
        administrator: Pubkey,
        name: Seq<char>,
        asset_identity: Option<Pubkey>,
    ) -> Ledger {
        Ledger {
            administrator,
            name,
            enabled: true,
            holders: Seq::empty(),
            total_distributed: 0,
            last_distributed_at: 0,
            asset_identity,
        }
    }

    /// The invariant of every ledger: a name of 1 to 32 characters, at most
    /// 16 holders, and no identity twice among them.
    pub open spec fn wf(self) -> bool {
        &&& valid_name(self.name)
        &&& self.holders.len() <= MAX_HOLDERS
        &&& distinct(self.holders)
    }

    /// Whether the registry can be distributed to: its shares add up to
    /// exactly 10000 basis points.
    pub open spec fn distributable(self) -> bool {
        total_share(self.holders) == TOTAL_BASIS_POINTS
    }

    /// This ledger with the registry `holders`.
    pub open spec fn with_holders(self, holders: Seq<ShareHolder>) -> Ledger {
        Ledger { holders, ..self }
    }

    /// This ledger, enabled or disabled.
    pub open spec fn with_enabled(self, enabled: bool) -> Ledger {
        Ledger { enabled, ..self }
    }

    /// This ledger after a distribution of `pool` at the time `now`. An empty
    /// pool leaves the ledger as it is.
    pub open spec fn after_distribution(self, pool: nat, now: int) -> Ledger {
        if pool == 0 {
            self
        } else {
            Ledger {
                total_distributed: self.total_distributed + pool,
                last_distributed_at: now,
                ..self
            }
        }
    }

    /// The authorization guard: only the administrator passes.
    pub open spec fn guard(self, caller: Pubkey) -> Result<(), ErrorCode> {
        if caller == self.administrator {
            Ok(())
        } else {
            Err(ErrorCode::Unauthorized)
        }
    }

    /// What a request to add `holder` answers.
    pub open spec fn add_check(self, holder: ShareHolder) -> Result<(), ErrorCode> {
        if self.holders.len() >= MAX_HOLDERS {
            Err(ErrorCode::TooManyHolders)
        } else if holds(self.holders, holder.pubkey) {
            Err(ErrorCode::HolderAlreadyExists)
        } else {
            Ok(())
        }
    }

    /// This ledger with `holder` added at the end of the registry.
    pub open spec fn added(self, holder: ShareHolder) -> Ledger {
        self.with_holders(self.holders.push(holder))
    }

    /// What a request to remove the holder with the identity `identity` answers.
    pub open spec fn remove_check(self, identity: Pubkey) -> Result<(), ErrorCode> {
        if holds(self.holders, identity) {
            Ok(())
        } else {
            Err(ErrorCode::HolderNotFound)
        }
    }

    /// This ledger without the first holder with the identity `identity`;
    /// the holders after it move up one place.
    pub open spec fn removed(self, identity: Pubkey) -> Ledger {
        self.with_holders(self.holders.remove(position(self.holders, identity)))
    }

    /// What a request by `caller` to replace the registry with `holders` answers.
    pub open spec fn replace_check(self, caller: Pubkey, holders: Seq<ShareHolder>) -> Result<
        (),
        ErrorCode,
    > {
        if self.guard(caller) is Err {
            self.guard(caller)
        } else {
            validation(holders)
        }
    }

    /// What a request to distribute `pool` answers; see [`distribution_check`].
    pub open spec fn distribution_check(
        self,
        destinations: Seq<Option<Seq<u8>>>,
        supplied: Seq<Pubkey>,
        pool: nat,
    ) -> Result<(), ErrorCode> {
        distribution_check(
            self.enabled,
            self.holders,
            self.total_distributed,
            destinations,
            supplied,
            pool,
        )
    }

    /// The destinations of a ledger of native value: each holder is paid at
    /// its own identity.
    pub open spec fn native_destinations(self) -> Seq<Option<Seq<u8>>> {
        own_destinations(self.holders)
    }

    /// Whether a request to distribute passes the checks on the registry
    /// and the accounts: the ledger has holders, and the supplied accounts
    /// are, one for each holder, their destinations.
    pub open spec fn payable(
        self,
        destinations: Seq<Option<Seq<u8>>>,
        supplied: Seq<Pubkey>,
    ) -> bool {
        &&& self.holders.len() > 0
        &&& supplied.len() == self.holders.len()
        &&& destinations_match(destinations, supplied)
    }

    /// The registry refuses what it cannot hold: a holder beyond the
    /// sixteenth is refused for want of room, a holder whose identity is
    /// already registered is refused, and so is the removal of an identity
    /// that is not registered.
    pub proof fn lemma_registry_refusals(self, holder: ShareHolder, identity: Pubkey)
        ensures
            self.holders.len() >= MAX_HOLDERS ==> self.add_check(holder) == Err::<(), ErrorCode>(
                ErrorCode::TooManyHolders,
            ),
            holds(self.holders, holder.pubkey) ==> self.add_check(holder) is Err,
            self.holders.len() < MAX_HOLDERS && holds(self.holders, holder.pubkey)
                ==> self.add_check(holder) == Err::<(), ErrorCode>(ErrorCode::HolderAlreadyExists),
            !holds(self.holders, identity) ==> self.remove_check(identity) == Err::<(), ErrorCode>(
                ErrorCode::HolderNotFound,
            ),
    {
    }

    /// Adding and removing keep the invariant of the ledger, and an accepted
    /// replacement establishes it for the registry together with shares that
    /// add up to 10000 basis points.
    pub proof fn lemma_registry_edits_keep_invariant(
        self,
        holder: ShareHolder,
        identity: Pubkey,
        caller: Pubkey,
        holders: Seq<ShareHolder>,
    )
        requires
            self.wf(),
        ensures
            self.add_check(holder) is Ok ==> self.added(holder).wf(),
            self.remove_check(identity) is Ok ==> self.removed(identity).wf(),
            self.replace_check(caller, holders) is Ok ==> self.with_holders(holders).wf()
                && self.with_holders(holders).distributable(),
    {
        if self.add_check(holder) is Ok {
            let after = self.holders.push(holder);
            assert forall|i: int, j: int| 0 <= i < j < after.len() implies (#[trigger] after[i]).pubkey
                != (#[trigger] after[j]).pubkey by {
                if j == self.holders.len() {
                    assert(self.holders[i].pubkey != holder.pubkey);
                } else {
                    assert(self.holders[i].pubkey != self.holders[j].pubkey);
                }
            }
        }
        if self.remove_check(identity) is Ok {
            let k = position(self.holders, identity);
            lemma_position_of_held(self.holders, identity);
            let after = self.holders.remove(k);
            assert forall|i: int, j: int| 0 <= i < j < after.len() implies (#[trigger] after[i]).pubkey
                != (#[trigger] after[j]).pubkey by {
                let from_i = if i < k {
                    i
                } else {
                    i + 1
                };
                let from_j = if j < k {
                    j
                } else {
                    j + 1
                };
                assert(self.holders[from_i].pubkey != self.holders[from_j].pubkey);
            }
        }
    }

    /// A disabled ledger refuses every distribution, whatever else holds of
    /// the request. Its administrator can enable it again, and the enabled
    /// ledger then accepts every payable request for an empty pool, and
    /// every payable request for which the shares add up to 10000 basis
    /// points and the cumulative total stays within 64 bits.
    pub proof fn lemma_disabled_refuses_until_enabled(
        self,
        destinations: Seq<Option<Seq<u8>>>,
        supplied: Seq<Pubkey>,
        pool: nat,
    )
        requires
            !self.enabled,
        ensures
            self.distribution_check(destinations, supplied, pool) == Err::<(), ErrorCode>(
                ErrorCode::ShareStorageDisabled,
            ),
            self.guard(self.administrator) is Ok,
            self.payable(destinations, supplied) && pool == 0 ==> self.with_enabled(
                true,
            ).distribution_check(destinations, supplied, pool) is Ok,
            self.payable(destinations, supplied) && self.distributable() && self.total_distributed
                + pool <= u64::MAX ==> self.with_enabled(true).distribution_check(
                destinations,
                supplied,
                pool,
            ) is Ok,
    {
    }

    /// An empty pool is distributed as a no-op: an enabled ledger accepts
    /// every payable request for it, whatever its shares add up to and
    /// however full the cumulative total is, and stays as it was.
    pub proof fn lemma_empty_pool_is_no_op(
        self,
        destinations: Seq<Option<Seq<u8>>>,
        supplied: Seq<Pubkey>,
        now: int,
    )
        ensures
            self.enabled && self.payable(destinations, supplied) ==> self.distribution_check(
                destinations,
                supplied,
                0,
            ) is Ok,
            self.after_distribution(0, now) == self,
    {
    }

    /// A pool that is not empty is only distributed to a registry whose
    /// shares add up to 10000 basis points: an enabled ledger refuses every
    /// payable request for it with `InvalidShareDistribution` otherwise.
    pub proof fn lemma_incomplete_registry_is_refused(
        self,
        destinations: Seq<Option<Seq<u8>>>,
        supplied: Seq<Pubkey>,
        pool: nat,
    )
        requires
            self.enabled,
            self.payable(destinations, supplied),
            pool > 0,
            !self.distributable(),
        ensures
            self.distribution_check(destinations, supplied, pool) == Err::<(), ErrorCode>(
                ErrorCode::InvalidShareDistribution,
            ),
    {
    }

    /// A distribution only ever advances the books: the cumulative total
    /// grows by exactly the pool, the time of the last distribution moves to
    /// the time of the request and so never back while time does not run
    /// back, and nothing else changes.
    pub proof fn lemma_distribution_advances(self, pool: nat, now: int)
        ensures
            self.after_distribution(pool, now).total_distributed == self.total_distributed + pool,
            self.after_distribution(pool, now).total_distributed >= self.total_distributed,
            now >= self.last_distributed_at ==> self.after_distribution(
                pool,
                now,
            ).last_distributed_at >= self.last_distributed_at,
            pool > 0 ==> self.after_distribution(pool, now).last_distributed_at == now,
            self.after_distribution(pool, now).holders == self.holders,
            self.after_distribution(pool, now).enabled == self.enabled,
            self.after_distribution(pool, now).administrator == self.administrator,
            self.after_distribution(pool, now).name == self.name,
            self.after_distribution(pool, now).asset_identity == self.asset_identity,
            self.wf() ==> self.after_distribution(pool, now).wf(),
    {
    }
}

} // verus!
