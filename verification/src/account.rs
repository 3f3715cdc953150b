//! The ledger records and the registry operations they share.

use vstd::prelude::*;
use crate::ledger::Ledger;
use crate::pubkey::Pubkey;
use crate::shares::{contains_identity, find_identity, sum_shares, total_share, MAX_HOLDERS};

verus! {

/// A registered beneficiary and the share of every distribution that it is
/// entitled to, in basis points.
#[derive(Clone, Copy, Debug, PartialEq, Eq)]
pub struct ShareHolder {
    pub pubkey: Pubkey,
    pub share_basis_points: u16,
}

impl Default for ShareHolder {
    /// The holder with the identity of 32 zero bytes and no share.
    fn default() -> (holder: ShareHolder)
        ensures
            holder.share_basis_points == 0,
            holder.pubkey@.len() == 32,
            forall|i: int| 0 <= i < 32 ==> holder.pubkey@[i] == 0,
    {
        ShareHolder { pubkey: Pubkey::default(), share_basis_points: 0 }
    }
}

/// The record of a ledger of native value.
#[derive(Clone, Debug, PartialEq, Eq)]
pub struct ShareStorage {
    pub admin: Pubkey,
    pub name: String,
    pub enabled: bool,
    pub last_distributed_at: i64,
    pub total_distributed: u64,
    pub holders: Vec<ShareHolder>,
}

/// The record of a ledger of a fungible asset, bound to that asset for good.
#[derive(Clone, Debug, PartialEq, Eq)]
pub struct SplShareStorage {
    pub admin: Pubkey,
    pub token_mint: Pubkey,
    pub name: String,
    pub enabled: bool,
    pub last_distributed_at: i64,
    pub total_distributed: u64,
    pub holders: Vec<ShareHolder>,
}

impl View for ShareStorage {
    type V = Ledger;

    open spec fn view(&self) -> Ledger {
        Ledger {
            administrator: self.admin,
            name: self.name@,
            enabled: self.enabled,
            holders: self.holders@,
            total_distributed: self.total_distributed as nat,
            last_distributed_at: self.last_distributed_at as int,
            asset_identity: None,
        }
    }
}

impl View for SplShareStorage {
    type V = Ledger;

    open spec fn view(&self) -> Ledger {
        Ledger {
            administrator: self.admin,
            name: self.name@,
            enabled: self.enabled,
            holders: self.holders@,
            total_distributed: self.total_distributed as nat,
            last_distributed_at: self.last_distributed_at as int,
            asset_identity: Some(self.token_mint),
        }
    }
}

/// The registry operations that every kind of ledger record offers. A record
/// says where its holders and its administrator are; adding, removing and
/// summing are the same for all.
///
/// Adding and removing do not look at the sum of the shares: between two
/// edits a registry may add up to anything. Only the replacement of the whole
/// registry and the distribution of a pool that is not empty insist on 10000
/// basis points.
pub trait ShareStorageOps: View<V = Ledger> + Sized {
    /// The holders, in registry order.
    fn holders(&self) -> (holders: &Vec<ShareHolder>)
        ensures
            holders@ == self@.holders,
    ;

    /// The holders, for editing. Nothing but the registry changes through it.
    fn holders_mut(&mut self) -> (holders: &mut Vec<ShareHolder>)
        ensures
            holders@ == old(self)@.holders,
            final(self)@ == old(self)@.with_holders(final(holders)@),
    ;

    /// The administrator.
    fn admin(&self) -> (admin: &Pubkey)
        ensures
            *admin == self@.administrator,
    ;

    /// Whether `pubkey` is the administrator.
    fn is_admin(&self, pubkey: &Pubkey) -> (r: bool)
        ensures
            r == (*pubkey == self@.administrator),
            r == (self@.guard(*pubkey) is Ok),
    {
        self.admin().same(pubkey)
    }

    /// Adds `holder` at the end of the registry. Fails with `TooManyHolders`
    /// when the registry has 16 holders, and with `HolderAlreadyExists` when
    /// one of them has the identity of `holder`; a failure changes nothing.
    fn add_holder(&mut self, holder: ShareHolder) -> (r: Result<(), ErrorCode>)
        ensures
            r == old(self)@.add_check(holder),
            r is Ok ==> final(self)@ == old(self)@.added(holder),
            r is Err ==> final(self)@ == old(self)@,
            old(self)@.wf() ==> final(self)@.wf(),
    {
        if self.holders().len() >= MAX_HOLDERS {
            return Err(ErrorCode::TooManyHolders);
        }
        if contains_identity(self.holders(), &holder.pubkey) {
            return Err(ErrorCode::HolderAlreadyExists);
        }
        self.holders_mut().push(holder);
        Ok(())
    }

    /// Removes the holder with the identity `pubkey`; the holders after it
    /// move up one place and keep their order. Fails with `HolderNotFound`
    /// when no holder has that identity; a failure changes nothing.
    fn remove_holder(&mut self, pubkey: &Pubkey) -> (r: Result<(), ErrorCode>)
        ensures
            r == old(self)@.remove_check(*pubkey),
            r is Ok ==> final(self)@ == old(self)@.removed(*pubkey),
            r is Err ==> final(self)@ == old(self)@,
            old(self)@.wf() ==> final(self)@.wf(),
    {
        match find_identity(self.holders(), pubkey) {
            Some(index) => {
                self.holders_mut().remove(index);
                Ok(())
            },
            None => Err(ErrorCode::HolderNotFound),
        }
    }

    /// The sum of the shares of all holders, in basis points, whatever it is
    /// at the moment.
    fn total_basis_points(&self) -> (total: u32)
        requires
            self@.holders.len() <= MAX_HOLDERS,
        ensures
            total == total_share(self@.holders),
    {
        sum_shares(self.holders())
    }
}

impl ShareStorageOps for ShareStorage {
    fn holders(&self) -> (holders: &Vec<ShareHolder>) {
        &self.holders
    }

    fn holders_mut(&mut self) -> (holders: &mut Vec<ShareHolder>) {
        &mut self.holders
    }

    fn admin(&self) -> (admin: &Pubkey) {
        &self.admin
    }
}

impl ShareStorageOps for SplShareStorage {
    fn holders(&self) -> (holders: &Vec<ShareHolder>) {
        &self.holders
    }

    fn holders_mut(&mut self) -> (holders: &mut Vec<ShareHolder>) {
        &mut self.holders
    }

    fn admin(&self) -> (admin: &Pubkey) {
        &self.admin
    }
}

/// Why an operation on a ledger was refused.
#[derive(Clone, Copy, Debug, PartialEq, Eq, Structural)]
pub enum ErrorCode {
    /// The registry has, or the proposed registry would have, more than 16 holders.
    TooManyHolders,
    /// An identity is, or would be, in the registry twice.
    HolderAlreadyExists,
    /// No holder of the registry has the identity.
    HolderNotFound,
    /// The ledger is disabled and distributes nothing.
    ShareStorageDisabled,
    /// The caller is not the administrator of the ledger.
    Unauthorized,
    /// The shares do not add up to exactly 10000 basis points.
    InvalidShareDistribution,
    /// The depositor has less than the amount to deposit.
    InsufficientFunds,
    /// The name does not have 1 to 32 characters.
    InvalidName,
    /// The ledger has no holders to distribute to.
    NoHolders,
    /// The number of supplied accounts is not the number of holders.
    InvalidHolderAccounts,
    /// A supplied account is not the destination of its holder.
    InvalidHolderAccount,
    /// The cumulative total would no longer fit in 64 bits.
    ArithmeticOverflow,
    /// The asset named is not the asset of the ledger.
    InvalidTokenMint,
}

} // verus!
