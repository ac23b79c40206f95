//! Optional addresses that encode `None` as the all-zero address.

use crate::error::ProgramError;
use crate::option::Nullable;
use crate::pubkey::Pubkey;
use vstd::prelude::*;

verus! {

/// An address whose all-zero value means `None`.
#[derive(Clone, Copy, Debug)]
pub struct OptionalNonZeroPubkey(pub Pubkey);

impl OptionalNonZeroPubkey {
    /// Encode an `Option`, rejecting a present all-zero address.
    pub fn from_option(p: Option<Pubkey>) -> (r: Result<Self, ProgramError>)
        ensures
            match (r, p) {
                (Ok(v), Some(k)) => !k.spec_is_none() && v.0 == k,
                (Ok(v), None) => v.0.spec_is_none(),
                (Err(e), Some(k)) => k.spec_is_none() && e == ProgramError::InvalidArgument,
                (Err(e), None) => false,
            },
    {
        match p {
            None => Ok(OptionalNonZeroPubkey(Pubkey::none_value())),
            Some(k) => {
                if k.is_none() {
                    Err(ProgramError::InvalidArgument)
                } else {
                    Ok(OptionalNonZeroPubkey(k))
                }
            },
        }
    }

    /// The stored address, or `None` when it is all zeros.
    pub fn get(&self) -> (r: Option<Pubkey>)
        ensures
            match r {
                Some(k) => !self.0.spec_is_none() && k == self.0,
                None => self.0.spec_is_none(),
            },
    {
        if self.0.is_none() {
            None
        } else {
            Some(self.0)
        }
    }
}

/// A 32-byte twisted-ElGamal encryption key whose all-zero value means
/// `None`.
#[derive(Clone, Copy, Debug)]
pub struct OptionalNonZeroElGamalPubkey(pub [u8; 32]);

impl OptionalNonZeroElGamalPubkey {
    /// Whether the stored key is the all-zero `None` value.
    pub open spec fn spec_is_none(&self) -> bool {
        self.0@ == Seq::new(32, |i: int| 0u8)
    }

    /// Encode an `Option`, rejecting a present all-zero key.
    pub fn from_option(p: Option<[u8; 32]>) -> (r: Result<Self, ProgramError>)
        ensures
            match (r, p) {
                (Ok(v), Some(k)) => k@ != Seq::new(32, |i: int| 0u8) && v.0 == k,
                (Ok(v), None) => v.spec_is_none(),
                (Err(e), Some(k)) => k@ == Seq::new(32, |i: int| 0u8) && e
                    == ProgramError::InvalidArgument,
                (Err(e), None) => false,
            },
    {
        let zero = [0u8; 32];
        proof {
            assert(zero@ =~= Seq::new(32, |i: int| 0u8));
        }
        match p {
            None => Ok(OptionalNonZeroElGamalPubkey(zero)),
            Some(k) => {
                if crate::pods::bytes_eq(k.as_slice(), zero.as_slice()) {
                    Err(ProgramError::InvalidArgument)
                } else {
                    Ok(OptionalNonZeroElGamalPubkey(k))
                }
            },
        }
    }

    /// The stored key, or `None` when it is all zeros.
    pub fn get(&self) -> (r: Option<[u8; 32]>)
        ensures
            match r {
                Some(k) => !self.spec_is_none() && k == self.0,
                None => self.spec_is_none(),
            },
    {
        let zero = [0u8; 32];
        proof {
            assert(zero@ =~= Seq::new(32, |i: int| 0u8));
        }
        if crate::pods::bytes_eq(self.0.as_slice(), zero.as_slice()) {
            None
        } else {
            Some(self.0)
        }
    }
}

} // verus!
