use tlv_account_resolution::collections::{TrailingStr, TrailingString, TrailingVec};
use tlv_account_resolution::error::{
    AccountResolutionError, ListViewError, ProgramError, SplPodError, TlvError,
};
use tlv_account_resolution::generic_token::Account;
use tlv_account_resolution::option::{Nullable, PodOption};
use tlv_account_resolution::optional_keys::{OptionalNonZeroElGamalPubkey, OptionalNonZeroPubkey};
use tlv_account_resolution::pubkey::Pubkey;
use tlv_account_resolution::token::{
    GenericTokenMint, Mint, TOKEN_2022_PROGRAM_ID, TOKEN_PROGRAM_ID,
};

fn new_unique() -> Pubkey {
    Pubkey::new_from_array(solana_pubkey::Pubkey::new_unique().to_bytes())
}

#[test]
fn error_codes_follow_the_taxonomy() {
    assert_eq!(ProgramError::from(SplPodError::CalculationFailure), ProgramError::Custom(0));
    assert_eq!(ProgramError::from(SplPodError::BufferTooSmall), ProgramError::Custom(1));
    assert_eq!(ProgramError::from(SplPodError::BufferTooLarge), ProgramError::Custom(2));
    assert_eq!(
        ProgramError::from(TlvError::TypeNotFound),
        ProgramError::Custom(1_202_666_432)
    );
    assert_eq!(
        ProgramError::from(TlvError::TypeAlreadyExists),
        ProgramError::Custom(1_202_666_433)
    );
    assert_eq!(
        ProgramError::from(AccountResolutionError::IncorrectAccount),
        ProgramError::Custom(2_724_315_840)
    );
    assert_eq!(
        ProgramError::from(AccountResolutionError::AccountNotFound),
        ProgramError::Custom(2_724_315_852)
    );
    assert_eq!(ListViewError::BufferTooSmall.code(), 1);
}

#[test]
fn error_messages() {
    assert_eq!(
        SplPodError::CalculationFailure.to_str(),
        "Error in checked math operation"
    );
    assert_eq!(
        AccountResolutionError::IncorrectAccount.to_str(),
        "Incorrect account provided"
    );
    assert_eq!(
        AccountResolutionError::InstructionDataTooSmall.to_str(),
        "Instruction data too small for seed configuration"
    );
    assert_eq!(TlvError::TypeNotFound.to_str(), "Type not found in TLV data");
    assert_eq!(
        ListViewError::ValueOutOfRange.to_str(),
        "An integer conversion failed because the value was out of range for the target type"
    );
}

fn token_account_data(mint: &Pubkey, owner: &Pubkey, amount: u64, initialized: bool) -> Vec<u8> {
    let mut data = vec![0u8; 165];
    data[0..32].copy_from_slice(&mint.0);
    data[32..64].copy_from_slice(&owner.0);
    data[64..72].copy_from_slice(&amount.to_le_bytes());
    data[108] = if initialized { 1 } else { 0 };
    data
}

#[test]
fn generic_account_parses_initialized_accounts() {
    let mint = new_unique();
    let owner = new_unique();
    let token = Pubkey::new_from_array(TOKEN_PROGRAM_ID);
    let token_2022 = Pubkey::new_from_array(TOKEN_2022_PROGRAM_ID);

    let data = token_account_data(&mint, &owner, 123_456, true);
    let parsed = Account::unpack(&data, &token).unwrap();
    assert_eq!(parsed.mint, mint);
    assert_eq!(parsed.owner, owner);
    assert_eq!(parsed.amount, 123_456);

    // a base account parses under both programs
    assert!(Account::unpack(&data, &token_2022).is_some());

    // uninitialized accounts never parse
    let uninit = token_account_data(&mint, &owner, 123_456, false);
    assert!(Account::unpack(&uninit, &token).is_none());
    assert!(Account::unpack(&uninit, &token_2022).is_none());

    // an unrelated program id parses nothing
    assert!(Account::unpack(&data, &new_unique()).is_none());

    // an extended account tagged as an account parses only as the
    // successor program's
    let mut extended = data.clone();
    extended.resize(167, 0);
    extended[165] = 2;
    assert!(Account::unpack(&extended, &token).is_none());
    let parsed = Account::unpack(&extended, &token_2022).unwrap();
    assert_eq!(parsed.amount, 123_456);

    // an otherwise valid account of multisig length parses as nothing
    let mut multisig = data;
    multisig.resize(355, 0);
    assert!(Account::unpack(&multisig, &token).is_none());
    assert!(Account::unpack(&multisig, &token_2022).is_none());
}

#[test]
fn mint_fields_read_back() {
    assert_eq!(Mint::get_packed_len(), 82);
    let mut data = vec![0u8; 82];
    data[36..44].copy_from_slice(&987u64.to_le_bytes());
    data[44] = 9;
    assert!(Mint::valid_account_data(&data));
    assert_eq!(Mint::unpack_mint_supply_unchecked(&data), 987);
    assert_eq!(Mint::unpack_mint_decimals_unchecked(&data), 9);
    assert!(!Mint::valid_account_data(&data[..81]));
}

#[test]
fn pod_option_over_addresses() {
    let some = new_unique();
    let opt = PodOption::from(some);
    assert_eq!(opt.get(), Some(some));
    assert_eq!(opt.copied(), Some(some));
    assert_eq!(opt.as_ref(), Some(&some));
    assert!(opt.cloned().is_some());

    let none = PodOption::from(Pubkey::none_value());
    assert_eq!(none.get(), None);
    assert_eq!(none.copied(), None);
    assert_eq!(none.as_ref(), None);
    assert!(none.cloned().is_none());

    let mut opt = PodOption::from(some);
    if let Some(inner) = opt.as_mut() {
        *inner = Pubkey::new_from_array([9; 32]);
    }
    assert_eq!(opt.get(), Some(Pubkey::new_from_array([9; 32])));

    assert!(PodOption::from_option(Some(Pubkey::none_value())).is_err());
    assert_eq!(PodOption::from_option(Some(some)).unwrap().get(), Some(some));
    assert_eq!(PodOption::<Pubkey>::from_option(None).unwrap().get(), None);
}

#[test]
fn optional_non_zero_pubkey() {
    let key = new_unique();
    let some = OptionalNonZeroPubkey::from_option(Some(key)).unwrap();
    assert_eq!(some.get(), Some(key));

    let none = OptionalNonZeroPubkey::from_option(None).unwrap();
    assert_eq!(none.get(), None);

    let zero = Pubkey::new_from_array([0; 32]);
    let err = OptionalNonZeroPubkey::from_option(Some(zero)).unwrap_err();
    assert_eq!(err, ProgramError::InvalidArgument);
}

#[test]
fn optional_non_zero_elgamal_pubkey() {
    let some = OptionalNonZeroElGamalPubkey::from_option(Some([7; 32])).unwrap();
    assert_eq!(some.get(), Some([7; 32]));

    let none = OptionalNonZeroElGamalPubkey::from_option(None).unwrap();
    assert_eq!(none.get(), None);

    let err = OptionalNonZeroElGamalPubkey::from_option(Some([0; 32])).unwrap_err();
    assert_eq!(err, ProgramError::InvalidArgument);
}

#[test]
fn trailing_collections_keep_their_contents() {
    let s = TrailingString::from_string(String::from("The quick brown fox"));
    assert_eq!(s.as_str(), "The quick brown fox");
    assert_eq!(s.len(), 19);

    let raw = TrailingStr::from_bytes(b"abc".to_vec());
    assert_eq!(raw.as_bytes(), b"abc");
    assert_eq!(raw.len(), 3);

    let v = TrailingVec::from_vec(vec![1u32, 2, 3]);
    assert_eq!(v.as_slice(), &[1u32, 2, 3]);
    assert_eq!(v.len(), 3);
}

#[test]
fn test_cloned_with_non_copy_nullable() {
    // A `String` is a non-copying nullable value whose empty value
    // means `None`; cloning the option preserves presence.
    let some = PodOption::from(String::from("full"));
    assert_eq!(some.cloned(), Some(String::from("full")));

    let none = PodOption::from(String::new());
    assert_eq!(none.cloned(), None);
}
