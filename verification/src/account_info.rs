//! Runtime account handles, as the resolver sees them: an address and
//! the flags the runtime granted it.

use crate::pubkey::Pubkey;
use vstd::prelude::*;

verus! {

/// What a runtime account handle amounts to.
#[verifier::ext_equal]
pub struct AccountInfoV {
    /// The account's address bytes.
    pub key: Seq<u8>,
    /// Whether the account signed.
    pub is_signer: bool,
    /// Whether the account is writable.
    pub is_writable: bool,
}

/// A runtime account handle available to the current execution context.
#[derive(Clone, Copy, Debug)]
pub struct AccountInfo {
    /// The account's address.
    pub key: Pubkey,
    /// Whether the account signed.
    pub is_signer: bool,
    /// Whether the account is writable.
    pub is_writable: bool,
}

impl View for AccountInfo {
    type V = AccountInfoV;

    open spec fn view(&self) -> AccountInfoV {
        AccountInfoV { key: self.key@, is_signer: self.is_signer, is_writable: self.is_writable }
    }
}

impl AccountInfo {
    /// A handle for the given address and flags.
    pub fn new(key: Pubkey, is_signer: bool, is_writable: bool) -> (r: Self)
        ensures
            r@ == (AccountInfoV { key: key@, is_signer, is_writable }),
    {
        AccountInfo { key, is_signer, is_writable }
    }
}

impl PartialEq for AccountInfo {
    fn eq(&self, other: &Self) -> (r: bool) {
        self.key == other.key && self.is_signer == other.is_signer && self.is_writable
            == other.is_writable
    }
}

impl Eq for AccountInfo {

}

impl vstd::std_specs::cmp::PartialEqSpecImpl for AccountInfo {
    open spec fn obeys_eq_spec() -> bool {
        true
    }

    open spec fn eq_spec(&self, other: &Self) -> bool {
        self@ == other@
    }
}

/// The handles of a sequence, as spec values.
pub open spec fn infos_view(infos: Seq<AccountInfo>) -> Seq<AccountInfoV> {
    infos.map_values(|a: AccountInfo| a@)
}

} // verus!
