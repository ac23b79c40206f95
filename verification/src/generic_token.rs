//! A minimum viable token-account parser over any of the known token
//! programs: the caller names the program, the data decides what the
//! account is.

use crate::pubkey::Pubkey;
use crate::token::{
    spec_token_account_valid, spec_token_2022_account_valid, GenericTokenAccount,
    TOKEN_PROGRAM_ID, TOKEN_2022_PROGRAM_ID,
};
use crate::token_2022;
use vstd::bytes::spec_u64_from_le_bytes;
use vstd::prelude::*;

verus! {

/// What parsing token-account data determines: the mint, the owner and
/// the balance, or nothing when the data or the program id does not
/// match.
pub open spec fn spec_account_unpack(data: Seq<u8>, program_id: Seq<u8>) -> Option<
    (Seq<u8>, Seq<u8>, u64),
> {
    if program_id == TOKEN_PROGRAM_ID@ {
        if spec_token_account_valid(data) {
            Some(
                (data.subrange(0, 32), data.subrange(32, 64), spec_u64_from_le_bytes(
                    data.subrange(64, 72),
                )),
            )
        } else {
            None
        }
    } else if program_id == TOKEN_2022_PROGRAM_ID@ {
        if spec_token_2022_account_valid(data) {
            Some(
                (data.subrange(0, 32), data.subrange(32, 64), spec_u64_from_le_bytes(
                    data.subrange(64, 72),
                )),
            )
        } else {
            None
        }
    } else {
        None
    }
}

/// A parsed token account: its mint, its owner and its balance.
#[derive(Clone, Copy, Debug)]
pub struct Account {
    /// The account's mint.
    pub mint: Pubkey,
    /// The account's owner.
    pub owner: Pubkey,
    /// The account's balance.
    pub amount: u64,
}

impl Account {
    /// Parse token-account data under the program the id names: the
    /// original program accepts exactly the base layout, the successor
    /// also accepts extended accounts tagged as accounts; any other id
    /// parses nothing.
    pub fn unpack(account_data: &[u8], program_id: &Pubkey) -> (r: Option<Self>)
        ensures
            match (r, spec_account_unpack(account_data@, program_id@)) {
                (Some(a), Some((mint, owner, amount))) => a.mint@ == mint && a.owner@ == owner
                    && a.amount == amount,
                (None, None) => true,
                _ => false,
            },
    {
        let token_id = Pubkey::new_from_array(TOKEN_PROGRAM_ID);
        let token_2022_id = Pubkey::new_from_array(TOKEN_2022_PROGRAM_ID);
        if *program_id == token_id {
            if !crate::token::Account::valid_account_data(account_data) {
                return None;
            }
        } else if *program_id == token_2022_id {
            if !token_2022::Account::valid_account_data(account_data) {
                return None;
            }
        } else {
            return None;
        }
        let mint = crate::token::Account::unpack_account_mint_unchecked(account_data);
        let owner = crate::token::Account::unpack_account_owner_unchecked(account_data);
        let amount = crate::token::Account::unpack_account_amount_unchecked(account_data);
        Some(Account { mint, owner, amount })
    }
}

} // verus!
