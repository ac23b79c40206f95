//! Partial token-program declarations: the token account and mint
//! layouts of the original token program, and the traits that read
//! balances and ownership out of raw account data.

use crate::pubkey::Pubkey;
use vstd::bytes::{spec_u64_from_le_bytes, u64_from_le_bytes};
use vstd::prelude::*;

verus! {

/// The token program's address bytes.
pub const TOKEN_PROGRAM_ID: [u8; 32] = [
    6, 221, 246, 225, 215, 101, 161, 147, 217, 203, 225, 70, 206, 235, 121, 172, 28, 180, 133,
    237, 95, 91, 55, 145, 58, 140, 245, 133, 126, 255, 0, 169,
];

/// The successor token program's address bytes.
pub const TOKEN_2022_PROGRAM_ID: [u8; 32] = [
    6, 221, 246, 225, 238, 117, 143, 222, 24, 66, 93, 188, 228, 108, 205, 218, 182, 26, 252, 77,
    131, 185, 13, 39, 254, 189, 249, 40, 216, 161, 139, 252,
];

/// Offset of the mint address within a token account.
pub const SPL_TOKEN_ACCOUNT_MINT_OFFSET: usize = 0;

/// Offset of the owner address within a token account.
pub const SPL_TOKEN_ACCOUNT_OWNER_OFFSET: usize = 32;

/// Offset of the balance within a token account.
pub const SPL_TOKEN_ACCOUNT_AMOUNT_OFFSET: usize = 64;

/// Offset of the initialization state within a token account.
pub const SPL_TOKEN_ACCOUNT_INITIALIZED_OFFSET: usize = 108;

/// Packed length of a token account.
pub const SPL_TOKEN_ACCOUNT_LENGTH: usize = 165;

/// Packed length of a token multisig account.
pub const SPL_TOKEN_MULTISIG_LENGTH: usize = 355;

/// Offset of the supply within a mint.
pub const SPL_TOKEN_MINT_SUPPLY_OFFSET: usize = 36;

/// Offset of the decimals within a mint.
pub const SPL_TOKEN_MINT_DECIMALS_OFFSET: usize = 44;

/// Packed length of a mint.
pub const SPL_TOKEN_MINT_LENGTH: usize = 82;

/// The account-type tag the successor program stores after the base
/// account for a token account.
pub const ACCOUNTTYPE_ACCOUNT: u8 = 2;

/// The account-type tag the successor program stores after the base
/// mint for a mint.
pub const ACCOUNTTYPE_MINT: u8 = 1;

/// Whether raw account data carries an initialized account state.
pub open spec fn spec_is_initialized_account(data: Seq<u8>) -> bool {
    &&& data.len() > SPL_TOKEN_ACCOUNT_INITIALIZED_OFFSET
    &&& data[SPL_TOKEN_ACCOUNT_INITIALIZED_OFFSET as int] != 0
}

/// Whether the account data buffer represents an initialized account:
/// its stored account state is present and non-zero.
pub fn is_initialized_account(account_data: &[u8]) -> (r: bool)
    ensures
        r == spec_is_initialized_account(account_data@),
{
    if account_data.len() > SPL_TOKEN_ACCOUNT_INITIALIZED_OFFSET {
        account_data[SPL_TOKEN_ACCOUNT_INITIALIZED_OFFSET] != 0
    } else {
        false
    }
}

/// Whether raw data is a valid token account of the original program.
pub open spec fn spec_token_account_valid(data: Seq<u8>) -> bool {
    data.len() == SPL_TOKEN_ACCOUNT_LENGTH && spec_is_initialized_account(data)
}

/// Whether raw data is a valid token account of the successor program:
/// a base account, or a base account followed by the account-type tag.
pub open spec fn spec_token_2022_account_valid(data: Seq<u8>) -> bool {
    spec_token_account_valid(data) || (data.len() > SPL_TOKEN_ACCOUNT_LENGTH && data.len()
        != SPL_TOKEN_MULTISIG_LENGTH && data[SPL_TOKEN_ACCOUNT_LENGTH as int]
        == ACCOUNTTYPE_ACCOUNT && spec_is_initialized_account(data))
}

/// Whether raw data is a valid mint of the original program.
pub open spec fn spec_token_mint_valid(data: Seq<u8>) -> bool {
    data.len() == SPL_TOKEN_MINT_LENGTH
}

/// Whether raw data is a valid mint of the successor program.
pub open spec fn spec_token_2022_mint_valid(data: Seq<u8>) -> bool {
    spec_token_mint_valid(data) || (data.len() > SPL_TOKEN_MINT_LENGTH && data[
        SPL_TOKEN_MINT_LENGTH as int
    ] == ACCOUNTTYPE_MINT)
}

/// Reading mint, owner, and amount out of token-account data, after its
/// shape has been checked.
pub trait GenericTokenAccount {
    /// Whether the raw data has this program's token-account shape.
    spec fn spec_valid_account_data(data: Seq<u8>) -> bool;

    /// Whether the raw data has this program's token-account shape.
    fn valid_account_data(account_data: &[u8]) -> (r: bool)
        ensures
            r == Self::spec_valid_account_data(account_data@),
    ;

    /// The mint address stored in the account data.
    fn unpack_account_mint_unchecked(account_data: &[u8]) -> (r: Pubkey)
        requires
            account_data@.len() >= SPL_TOKEN_ACCOUNT_LENGTH,
        ensures
            r@ == account_data@.subrange(0, 32),
    {
        read_pubkey(account_data, SPL_TOKEN_ACCOUNT_MINT_OFFSET)
    }

    /// The owner address stored in the account data.
    fn unpack_account_owner_unchecked(account_data: &[u8]) -> (r: Pubkey)
        requires
            account_data@.len() >= SPL_TOKEN_ACCOUNT_LENGTH,
        ensures
            r@ == account_data@.subrange(32, 64),
    {
        read_pubkey(account_data, SPL_TOKEN_ACCOUNT_OWNER_OFFSET)
    }

    /// The balance stored in the account data.
    fn unpack_account_amount_unchecked(account_data: &[u8]) -> (r: u64)
        requires
            account_data@.len() >= SPL_TOKEN_ACCOUNT_LENGTH,
        ensures
            r == spec_u64_from_le_bytes(account_data@.subrange(64, 72)),
    {
        u64_from_le_bytes(
            vstd::slice::slice_subrange(
                account_data,
                SPL_TOKEN_ACCOUNT_AMOUNT_OFFSET,
                SPL_TOKEN_ACCOUNT_AMOUNT_OFFSET + 8,
            ),
        )
    }

    /// The mint address, when the data has the right shape.
    fn unpack_account_mint(account_data: &[u8]) -> (r: Option<Pubkey>)
        requires
            account_data@.len() >= SPL_TOKEN_ACCOUNT_LENGTH
                || !Self::spec_valid_account_data(account_data@),
        ensures
            match r {
                Some(k) => Self::spec_valid_account_data(account_data@) && k@
                    == account_data@.subrange(0, 32),
                None => !Self::spec_valid_account_data(account_data@),
            },
    {
        if Self::valid_account_data(account_data) {
            Some(Self::unpack_account_mint_unchecked(account_data))
        } else {
            None
        }
    }
}

/// Read a 32-byte address out of account data.
fn read_pubkey(account_data: &[u8], offset: usize) -> (r: Pubkey)
    requires
        offset + 32 <= account_data@.len(),
    ensures
        r@ == account_data@.subrange(offset as int, offset + 32),
{
    let n = account_data.len();
    proof {
        assert(offset + 32 <= n);
    }
    let bytes = crate::item::Record::<32, 1>::new(
        vstd::slice::slice_subrange(account_data, offset, offset + 32),
    ).0;
    Pubkey::new_from_array(bytes)
}

/// Reading supply and decimals out of mint data, after its shape has
/// been checked.
pub trait GenericTokenMint {
    /// Whether the raw data has this program's mint shape.
    spec fn spec_valid_mint_data(data: Seq<u8>) -> bool;

    /// Whether the raw data has this program's mint shape.
    fn valid_account_data(account_data: &[u8]) -> (r: bool)
        ensures
            r == Self::spec_valid_mint_data(account_data@),
    ;

    /// The supply stored in the mint data.
    fn unpack_mint_supply_unchecked(account_data: &[u8]) -> (r: u64)
        requires
            account_data@.len() >= SPL_TOKEN_MINT_LENGTH,
        ensures
            r == spec_u64_from_le_bytes(account_data@.subrange(36, 44)),
    {
        u64_from_le_bytes(
            vstd::slice::slice_subrange(
                account_data,
                SPL_TOKEN_MINT_SUPPLY_OFFSET,
                SPL_TOKEN_MINT_SUPPLY_OFFSET + 8,
            ),
        )
    }

    /// The decimals stored in the mint data.
    fn unpack_mint_decimals_unchecked(account_data: &[u8]) -> (r: u8)
        requires
            account_data@.len() >= SPL_TOKEN_MINT_LENGTH,
        ensures
            r == account_data@[SPL_TOKEN_MINT_DECIMALS_OFFSET as int],
    {
        account_data[SPL_TOKEN_MINT_DECIMALS_OFFSET]
    }
}

/// The original token program's account shape.
pub struct Account;

impl GenericTokenAccount for Account {
    open spec fn spec_valid_account_data(data: Seq<u8>) -> bool {
        spec_token_account_valid(data)
    }

    fn valid_account_data(account_data: &[u8]) -> (r: bool) {
        account_data.len() == SPL_TOKEN_ACCOUNT_LENGTH && is_initialized_account(account_data)
    }
}

impl Account {
    /// Packed length of a token account.
    pub fn get_packed_len() -> (r: usize)
        ensures
            r == SPL_TOKEN_ACCOUNT_LENGTH,
    {
        SPL_TOKEN_ACCOUNT_LENGTH
    }
}

/// The original token program's mint shape.
pub struct Mint;

impl GenericTokenMint for Mint {
    open spec fn spec_valid_mint_data(data: Seq<u8>) -> bool {
        spec_token_mint_valid(data)
    }

    fn valid_account_data(account_data: &[u8]) -> (r: bool) {
        account_data.len() == SPL_TOKEN_MINT_LENGTH
    }
}

impl Mint {
    /// Packed length of a mint.
    pub fn get_packed_len() -> (r: usize)
        ensures
            r == SPL_TOKEN_MINT_LENGTH,
    {
        SPL_TOKEN_MINT_LENGTH
    }
}


} // verus!
