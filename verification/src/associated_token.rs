//! The destination of a holder of a fungible asset: the token account that
//! the associated-token-account program derives from the holder's identity
//! and the identity of the asset.

use vstd::prelude::*;
use crate::account::ShareHolder;
use crate::ledger::{destination_view, destination_views};
use crate::pubkey::Pubkey;

verus! {

/// The address of the associated token account of the wallet `wallet` for
/// the asset `mint`, as its 32 bytes: the program-derived address that the
/// associated-token-account program has for the seeds wallet, token program
/// and asset. It is `None` where no bump seed yields such an address. The
/// derivation hashes its inputs and is not spelled out here; it depends on
/// nothing but the two identities.
pub uninterp spec fn associated_token_address(wallet: Seq<u8>, mint: Seq<u8>) -> Option<Seq<u8>>;

/// The destinations of the holders of a ledger of the asset `mint`: for each
/// holder its associated token account, where there is one.
pub open spec fn token_destinations(holders: Seq<ShareHolder>, mint: Pubkey) -> Seq<
    Option<Seq<u8>>,
> {
    Seq::new(holders.len(), |i: int| associated_token_address(holders[i].pubkey@, mint@))
}

/// Calls `Pubkey::try_find_program_address` of the Solana SDK with the seeds
/// wallet, token program id and asset, under the id of the
/// associated-token-account program. These are the seeds and the program
/// from which `get_associated_token_address` derives its address; that
/// function panics where the search for a bump seed fails, and this call
/// answers `None` there instead.
///
/// Believed, not proved: the address that comes back is a function of the
/// two identities alone, which is given the name
/// [`associated_token_address`]. The search tries the bump seeds from 255
/// down, hashes the seeds with SHA-256 and takes the first hash that is not
/// a point of the ed25519 curve; nothing in it reads a clock, a setting of
/// the process or any other state.
#[verifier::external_body]
fn derive_associated_token_address(wallet: &Pubkey, mint: &Pubkey) -> (address: Option<Pubkey>)
    ensures
        match address {
            Some(found) => associated_token_address(wallet@, mint@) == Some(found@),
            None => associated_token_address(wallet@, mint@) is None,
        },
{
    let seeds: [&[u8]; 3] = [&wallet.bytes, anchor_spl::token::ID.as_ref(), &mint.bytes];
    let program = anchor_spl::associated_token::ID;
    match anchor_lang::prelude::Pubkey::try_find_program_address(&seeds, &program) {
        Some((address, _)) => Some(Pubkey { bytes: address.to_bytes() }),
        None => None,
    }
}

/// Derives the destination of every holder of a ledger of the asset `mint`,
/// in registry order.
pub fn derive_token_destinations(holders: &Vec<ShareHolder>, mint: &Pubkey) -> (destinations: Vec<
    Option<Pubkey>,
>)
    ensures
        destinations.len() == holders.len(),
        destination_views(destinations@) == token_destinations(holders@, *mint),
{
    let mut destinations: Vec<Option<Pubkey>> = Vec::new();
    let mut i: usize = 0;
    while i < holders.len()
        invariant
            i <= holders.len(),
            destinations.len() == i,
            forall|j: int|
                0 <= j < i ==> destination_view(#[trigger] destinations[j])
                    == associated_token_address(holders[j].pubkey@, mint@),
        decreases holders.len() - i,
    {
        let address = derive_associated_token_address(&holders[i].pubkey, mint);
        destinations.push(address);
        i += 1;
    }
    proof {
        assert(destination_views(destinations@) =~= token_destinations(holders@, *mint));
    }
    destinations
}

} // verus!
