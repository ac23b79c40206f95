//! Partial declarations for the successor token program: its account
//! and mint shapes, which extend the original layouts with an
//! account-type tag.

use crate::token::{
    is_initialized_account, spec_token_2022_account_valid, spec_token_2022_mint_valid,
    GenericTokenAccount, GenericTokenMint, ACCOUNTTYPE_ACCOUNT, ACCOUNTTYPE_MINT,
    SPL_TOKEN_ACCOUNT_LENGTH, SPL_TOKEN_MINT_LENGTH, SPL_TOKEN_MULTISIG_LENGTH,
};
use vstd::prelude::*;

verus! {

/// The successor token program's account shape.
pub struct Account;

impl GenericTokenAccount for Account {
    open spec fn spec_valid_account_data(data: Seq<u8>) -> bool {
        spec_token_2022_account_valid(data)
    }

    fn valid_account_data(account_data: &[u8]) -> (r: bool) {
        (account_data.len() == SPL_TOKEN_ACCOUNT_LENGTH && is_initialized_account(account_data))
            || (account_data.len() > SPL_TOKEN_ACCOUNT_LENGTH && account_data.len()
            != SPL_TOKEN_MULTISIG_LENGTH && account_data[SPL_TOKEN_ACCOUNT_LENGTH]
            == ACCOUNTTYPE_ACCOUNT && is_initialized_account(account_data))
    }
}

/// The successor token program's mint shape.
pub struct Mint;

impl GenericTokenMint for Mint {
    open spec fn spec_valid_mint_data(data: Seq<u8>) -> bool {
        spec_token_2022_mint_valid(data)
    }

    fn valid_account_data(account_data: &[u8]) -> (r: bool) {
        account_data.len() == SPL_TOKEN_MINT_LENGTH || (account_data.len() > SPL_TOKEN_MINT_LENGTH
            && account_data[SPL_TOKEN_MINT_LENGTH] == ACCOUNTTYPE_MINT)
    }
}


} // verus!
