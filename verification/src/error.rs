//! Error types for the pod views, the list views, the type-length-value
//! framing and the account-resolution engine.

use vstd::prelude::*;

verus! {

/// The numeric code that account-resolution errors start at.
pub const ACCOUNT_RESOLUTION_ERROR_BASE: u32 = 2724315840;

/// The numeric code that type-length-value errors start at.
pub const TLV_ERROR_BASE: u32 = 1202666432;

/// Failure of a program-level operation.
///
/// Every fallible operation of this crate reports its failure through this
/// type, either directly or as a `Custom` code obtained from one of the
/// more precise error enums below.
#[derive(Clone, Copy, Debug, PartialEq, Eq, Structural)]
pub enum ProgramError {
    /// A caller-supplied argument was invalid.
    InvalidArgument,
    /// Account data did not have the expected shape.
    InvalidAccountData,
    /// A checked arithmetic operation overflowed.
    ArithmeticOverflow,
    /// A library-specific error, identified by its numeric code.
    Custom(u32),
}

/// Errors of the pod byte views.
#[derive(Clone, Copy, Debug, PartialEq, Eq, Structural)]
pub enum SplPodError {
    /// Error in checked math operation.
    CalculationFailure,
    /// Provided byte buffer too small for expected type.
    BufferTooSmall,
    /// Provided byte buffer too large for expected type.
    BufferTooLarge,
    /// Index out of range for list operation.
    IndexOutOfRange,
    /// Type used as a length prefix has invalid alignment.
    InvalidLengthTypeAlignment,
    /// A cast between a byte buffer and typed records failed.
    PodCast,
    /// An integer conversion failed because the value was out of range for
    /// the target type.
    ValueOutOfRange,
}

impl SplPodError {
    /// The numeric code of this error.
    pub open spec fn spec_code(&self) -> u32 {
        match self {
            SplPodError::CalculationFailure => 0u32,
            SplPodError::BufferTooSmall => 1u32,
            SplPodError::BufferTooLarge => 2u32,
            SplPodError::IndexOutOfRange => 3u32,
            SplPodError::InvalidLengthTypeAlignment => 4u32,
            SplPodError::PodCast => 5u32,
            SplPodError::ValueOutOfRange => 6u32,
        }
    }

    /// The numeric code of this error.
    pub fn code(&self) -> (r: u32)
        ensures
            r == self.spec_code(),
    {
        match self {
            SplPodError::CalculationFailure => 0u32,
            SplPodError::BufferTooSmall => 1u32,
            SplPodError::BufferTooLarge => 2u32,
            SplPodError::IndexOutOfRange => 3u32,
            SplPodError::InvalidLengthTypeAlignment => 4u32,
            SplPodError::PodCast => 5u32,
            SplPodError::ValueOutOfRange => 6u32,
        }
    }

    /// A short description of this error.
    pub fn to_str(&self) -> &'static str {
        match self {
            SplPodError::CalculationFailure => "Error in checked math operation",
            SplPodError::BufferTooSmall => "Provided byte buffer too small for expected type",
            SplPodError::BufferTooLarge => "Provided byte buffer too large for expected type",
            SplPodError::IndexOutOfRange => "Index out of range for list operation",
            SplPodError::InvalidLengthTypeAlignment => "Type used as a length prefix has invalid alignment",
            SplPodError::PodCast => "A `PodCast` operation from `bytemuck` failed",
            SplPodError::ValueOutOfRange => "An integer conversion failed because the value was out of range for the target type",
        }
    }
}

/// The `ProgramError` a pod error converts to.
pub open spec fn spec_pod_err(e: SplPodError) -> ProgramError {
    ProgramError::Custom(e.spec_code())
}

impl From<SplPodError> for ProgramError {
    fn from(e: SplPodError) -> (r: Self) {
        ProgramError::Custom(e.code())
    }
}

impl vstd::std_specs::convert::FromSpecImpl<SplPodError> for ProgramError {
    open spec fn obeys_from_spec() -> bool {
        true
    }

    open spec fn from_spec(e: SplPodError) -> Self {
        ProgramError::Custom(e.spec_code())
    }
}

/// Errors of the standalone mutable list view.
#[derive(Clone, Copy, Debug, PartialEq, Eq, Structural)]
pub enum ListViewError {
    /// Error in checked math operation.
    CalculationFailure,
    /// Provided byte buffer too small for expected type.
    BufferTooSmall,
    /// An integer conversion failed because the value was out of range for
    /// the target type.
    ValueOutOfRange,
}

impl ListViewError {
    /// The numeric code of this error.
    pub open spec fn spec_code(&self) -> u32 {
        match self {
            ListViewError::CalculationFailure => 0u32,
            ListViewError::BufferTooSmall => 1u32,
            ListViewError::ValueOutOfRange => 2u32,
        }
    }

    /// The numeric code of this error.
    pub fn code(&self) -> (r: u32)
        ensures
            r == self.spec_code(),
    {
        match self {
            ListViewError::CalculationFailure => 0u32,
            ListViewError::BufferTooSmall => 1u32,
            ListViewError::ValueOutOfRange => 2u32,
        }
    }

    /// A short description of this error.
    pub fn to_str(&self) -> &'static str {
        match self {
            ListViewError::CalculationFailure => "Error in checked math operation",
            ListViewError::BufferTooSmall => "Provided byte buffer too small for expected type",
            ListViewError::ValueOutOfRange => "An integer conversion failed because the value was out of range for the target type",
        }
    }
}

impl From<ListViewError> for ProgramError {
    fn from(e: ListViewError) -> (r: Self) {
        ProgramError::Custom(e.code())
    }
}

impl vstd::std_specs::convert::FromSpecImpl<ListViewError> for ProgramError {
    open spec fn obeys_from_spec() -> bool {
        true
    }

    open spec fn from_spec(e: ListViewError) -> Self {
        ProgramError::Custom(e.spec_code())
    }
}

/// Errors of the type-length-value framing.
#[derive(Clone, Copy, Debug, PartialEq, Eq, Structural)]
pub enum TlvError {
    /// Type not found in TLV data.
    TypeNotFound,
    /// Type already exists in TLV data.
    TypeAlreadyExists,
}

impl TlvError {
    /// The numeric code of this error.
    pub open spec fn spec_code(&self) -> u32 {
        match self {
            TlvError::TypeNotFound => TLV_ERROR_BASE,
            TlvError::TypeAlreadyExists => (TLV_ERROR_BASE + 1) as u32,
        }
    }

    /// The numeric code of this error.
    pub fn code(&self) -> (r: u32)
        ensures
            r == self.spec_code(),
    {
        match self {
            TlvError::TypeNotFound => TLV_ERROR_BASE,
            TlvError::TypeAlreadyExists => TLV_ERROR_BASE + 1,
        }
    }

    /// A short description of this error.
    pub fn to_str(&self) -> &'static str {
        match self {
            TlvError::TypeNotFound => "Type not found in TLV data",
            TlvError::TypeAlreadyExists => "Type already exists in TLV data",
        }
    }
}

impl From<TlvError> for ProgramError {
    fn from(e: TlvError) -> (r: Self) {
        ProgramError::Custom(e.code())
    }
}

impl vstd::std_specs::convert::FromSpecImpl<TlvError> for ProgramError {
    open spec fn obeys_from_spec() -> bool {
        true
    }

    open spec fn from_spec(e: TlvError) -> Self {
        ProgramError::Custom(e.spec_code())
    }
}

/// Errors of the account-resolution engine.
#[derive(Clone, Copy, Debug, PartialEq, Eq, Structural)]
pub enum AccountResolutionError {
    /// Incorrect account provided.
    IncorrectAccount,
    /// Not enough accounts provided.
    NotEnoughAccounts,
    /// No value initialized in TLV data.
    TlvUninitialized,
    /// Some value initialized in TLV data.
    TlvInitialized,
    /// Too many pubkeys provided.
    TooManyPubkeys,
    /// Failed to parse a pubkey from bytes.
    InvalidPubkey,
    /// Attempted to deserialize an account meta but the underlying type has
    /// PDA configurations rather than a fixed address.
    AccountTypeNotAccountMeta,
    /// Provided list of seed configurations too large for a validation
    /// account.
    SeedConfigsTooLarge,
    /// Not enough bytes available to pack seed configuration.
    NotEnoughBytesForSeed,
    /// The provided bytes are not valid for a seed configuration.
    InvalidBytesForSeed,
    /// Tried to pack an invalid seed configuration.
    InvalidSeedConfig,
    /// Instruction data too small for seed configuration.
    InstructionDataTooSmall,
    /// Could not find account at specified index.
    AccountNotFound,
    /// Error in checked math operation.
    CalculationFailure,
    /// Could not find account data at specified index.
    AccountDataNotFound,
    /// Account data too small for requested seed configuration.
    AccountDataTooSmall,
    /// Failed to fetch account.
    AccountFetchFailed,
    /// Not enough bytes available to pack pubkey data configuration.
    NotEnoughBytesForPubkeyData,
    /// The provided bytes are not valid for a pubkey data configuration.
    InvalidBytesForPubkeyData,
    /// Tried to pack an invalid pubkey data configuration.
    InvalidPubkeyDataConfig,
}

impl AccountResolutionError {
    /// The offset of this error within the account-resolution error range.
    pub open spec fn spec_offset(&self) -> u32 {
        match self {
            AccountResolutionError::IncorrectAccount => 0u32,
            AccountResolutionError::NotEnoughAccounts => 1u32,
            AccountResolutionError::TlvUninitialized => 2u32,
            AccountResolutionError::TlvInitialized => 3u32,
            AccountResolutionError::TooManyPubkeys => 4u32,
            AccountResolutionError::InvalidPubkey => 5u32,
            AccountResolutionError::AccountTypeNotAccountMeta => 6u32,
            AccountResolutionError::SeedConfigsTooLarge => 7u32,
            AccountResolutionError::NotEnoughBytesForSeed => 8u32,
            AccountResolutionError::InvalidBytesForSeed => 9u32,
            AccountResolutionError::InvalidSeedConfig => 10u32,
            AccountResolutionError::InstructionDataTooSmall => 11u32,
            AccountResolutionError::AccountNotFound => 12u32,
            AccountResolutionError::CalculationFailure => 13u32,
            AccountResolutionError::AccountDataNotFound => 14u32,
            AccountResolutionError::AccountDataTooSmall => 15u32,
            AccountResolutionError::AccountFetchFailed => 16u32,
            AccountResolutionError::NotEnoughBytesForPubkeyData => 17u32,
            AccountResolutionError::InvalidBytesForPubkeyData => 18u32,
            AccountResolutionError::InvalidPubkeyDataConfig => 19u32,
        }
    }

    /// The numeric code of this error.
    pub open spec fn spec_code(&self) -> u32 {
        (ACCOUNT_RESOLUTION_ERROR_BASE + self.spec_offset()) as u32
    }

    /// The offset of this error within the account-resolution error range.
    fn offset(&self) -> (r: u32)
        ensures
            r == self.spec_offset(),
    {
        match self {
            AccountResolutionError::IncorrectAccount => 0u32,
            AccountResolutionError::NotEnoughAccounts => 1u32,
            AccountResolutionError::TlvUninitialized => 2u32,
            AccountResolutionError::TlvInitialized => 3u32,
            AccountResolutionError::TooManyPubkeys => 4u32,
            AccountResolutionError::InvalidPubkey => 5u32,
            AccountResolutionError::AccountTypeNotAccountMeta => 6u32,
            AccountResolutionError::SeedConfigsTooLarge => 7u32,
            AccountResolutionError::NotEnoughBytesForSeed => 8u32,
            AccountResolutionError::InvalidBytesForSeed => 9u32,
            AccountResolutionError::InvalidSeedConfig => 10u32,
            AccountResolutionError::InstructionDataTooSmall => 11u32,
            AccountResolutionError::AccountNotFound => 12u32,
            AccountResolutionError::CalculationFailure => 13u32,
            AccountResolutionError::AccountDataNotFound => 14u32,
            AccountResolutionError::AccountDataTooSmall => 15u32,
            AccountResolutionError::AccountFetchFailed => 16u32,
            AccountResolutionError::NotEnoughBytesForPubkeyData => 17u32,
            AccountResolutionError::InvalidBytesForPubkeyData => 18u32,
            AccountResolutionError::InvalidPubkeyDataConfig => 19u32,
        }
    }

    /// The numeric code of this error.
    pub fn code(&self) -> (r: u32)
        ensures
            r == self.spec_code(),
    {
        ACCOUNT_RESOLUTION_ERROR_BASE + self.offset()
    }

    /// A short description of this error.
    pub fn to_str(&self) -> &'static str {
        match self {
            AccountResolutionError::IncorrectAccount => "Incorrect account provided",
            AccountResolutionError::NotEnoughAccounts => "Not enough accounts provided",
            AccountResolutionError::TlvUninitialized => "No value initialized in TLV data",
            AccountResolutionError::TlvInitialized => "Some value initialized in TLV data",
            AccountResolutionError::TooManyPubkeys => "Too many pubkeys provided",
            AccountResolutionError::InvalidPubkey => "Failed to parse `Pubkey` from bytes",
            AccountResolutionError::AccountTypeNotAccountMeta => "Attempted to deserialize an `AccountMeta` but the underlying type has PDA configs rather than a fixed address",
            AccountResolutionError::SeedConfigsTooLarge => "Provided list of seed configurations too large for a validation account",
            AccountResolutionError::NotEnoughBytesForSeed => "Not enough bytes available to pack seed configuration",
            AccountResolutionError::InvalidBytesForSeed => "The provided bytes are not valid for a seed configuration",
            AccountResolutionError::InvalidSeedConfig => "Tried to pack an invalid seed configuration",
            AccountResolutionError::InstructionDataTooSmall => "Instruction data too small for seed configuration",
            AccountResolutionError::AccountNotFound => "Could not find account at specified index",
            AccountResolutionError::CalculationFailure => "Error in checked math operation",
            AccountResolutionError::AccountDataNotFound => "Could not find account data at specified index",
            AccountResolutionError::AccountDataTooSmall => "Account data too small for requested seed configuration",
            AccountResolutionError::AccountFetchFailed => "Failed to fetch account",
            AccountResolutionError::NotEnoughBytesForPubkeyData => "Not enough bytes available to pack pubkey data configuration",
            AccountResolutionError::InvalidBytesForPubkeyData => "The provided bytes are not valid for a pubkey data configuration",
            AccountResolutionError::InvalidPubkeyDataConfig => "Tried to pack an invalid pubkey data configuration",
        }
    }
}

/// The `ProgramError` an account-resolution error converts to.
pub open spec fn spec_res_err(e: AccountResolutionError) -> ProgramError {
    ProgramError::Custom(e.spec_code())
}

impl From<AccountResolutionError> for ProgramError {
    fn from(e: AccountResolutionError) -> (r: Self) {
        ProgramError::Custom(e.code())
    }
}

impl vstd::std_specs::convert::FromSpecImpl<AccountResolutionError> for ProgramError {
    open spec fn obeys_from_spec() -> bool {
        true
    }

    open spec fn from_spec(e: AccountResolutionError) -> Self {
        ProgramError::Custom(e.spec_code())
    }
}

} // verus!
