//! Instructions and the account references they carry.

use crate::pods::bytes_eq;
use crate::pubkey::Pubkey;
use vstd::prelude::*;

verus! {

/// What an account reference amounts to: an address and its flags.
#[verifier::ext_equal]
pub struct AccountMetaV {
    /// The account's address bytes.
    pub pubkey: Seq<u8>,
    /// Whether the account must sign.
    pub is_signer: bool,
    /// Whether the account may be written.
    pub is_writable: bool,
}

/// A reference to an account within an instruction, carrying its
/// signer and writable flags.
#[derive(Clone, Copy, Debug)]
pub struct AccountMeta {
    /// The account's address.
    pub pubkey: Pubkey,
    /// Whether the account must sign.
    pub is_signer: bool,
    /// Whether the account may be written.
    pub is_writable: bool,
}

impl View for AccountMeta {
    type V = AccountMetaV;

    open spec fn view(&self) -> AccountMetaV {
        AccountMetaV {
            pubkey: self.pubkey@,
            is_signer: self.is_signer,
            is_writable: self.is_writable,
        }
    }
}

impl AccountMeta {
    /// A writable account reference.
    pub fn new(pubkey: Pubkey, is_signer: bool) -> (r: Self)
        ensures
            r@ == (AccountMetaV { pubkey: pubkey@, is_signer, is_writable: true }),
    {
        AccountMeta { pubkey, is_signer, is_writable: true }
    }

    /// A read-only account reference.
    pub fn new_readonly(pubkey: Pubkey, is_signer: bool) -> (r: Self)
        ensures
            r@ == (AccountMetaV { pubkey: pubkey@, is_signer, is_writable: false }),
    {
        AccountMeta { pubkey, is_signer, is_writable: false }
    }
}

impl PartialEq for AccountMeta {
    fn eq(&self, other: &Self) -> (r: bool) {
        self.pubkey == other.pubkey && self.is_signer == other.is_signer && self.is_writable
            == other.is_writable
    }
}

impl Eq for AccountMeta {

}

impl vstd::std_specs::cmp::PartialEqSpecImpl for AccountMeta {
    open spec fn obeys_eq_spec() -> bool {
        true
    }

    open spec fn eq_spec(&self, other: &Self) -> bool {
        self@ == other@
    }
}

/// The accounts of a sequence of references, as spec values.
pub open spec fn metas_view(accounts: Seq<AccountMeta>) -> Seq<AccountMetaV> {
    accounts.map_values(|a: AccountMeta| a@)
}

/// The address bytes of a sequence of account references.
pub open spec fn keys_of(accounts: Seq<AccountMetaV>) -> Seq<Seq<u8>> {
    accounts.map_values(|a: AccountMetaV| a.pubkey)
}

/// What an instruction amounts to: the called program, the ordered
/// account references, and the opaque payload bytes.
#[verifier::ext_equal]
pub struct InstructionV {
    /// The called program's address bytes.
    pub program_id: Seq<u8>,
    /// The ordered account references.
    pub accounts: Seq<AccountMetaV>,
    /// The opaque payload bytes.
    pub data: Seq<u8>,
}

/// An instruction: the called program, the ordered account references,
/// and the opaque payload bytes.
#[derive(Clone, Debug)]
pub struct Instruction {
    /// The called program's address.
    pub program_id: Pubkey,
    /// The ordered account references.
    pub accounts: Vec<AccountMeta>,
    /// The opaque payload bytes.
    pub data: Vec<u8>,
}

impl View for Instruction {
    type V = InstructionV;

    open spec fn view(&self) -> InstructionV {
        InstructionV {
            program_id: self.program_id@,
            accounts: metas_view(self.accounts@),
            data: self.data@,
        }
    }
}

impl Instruction {
    /// An instruction over raw payload bytes.
    pub fn new_with_bytes(program_id: Pubkey, data: &[u8], accounts: Vec<AccountMeta>) -> (r: Self)
        ensures
            r@.program_id == program_id@,
            r@.data == data@,
            r@.accounts == metas_view(accounts@),
    {
        Instruction { program_id, accounts, data: vstd::slice::slice_to_vec(data) }
    }
}

impl PartialEq for Instruction {
    fn eq(&self, other: &Self) -> (r: bool) {
        if !(self.program_id == other.program_id) {
            return false;
        }
        if !bytes_eq(self.data.as_slice(), other.data.as_slice()) {
            return false;
        }
        if self.accounts.len() != other.accounts.len() {
            proof {
                assert(self@.accounts.len() != other@.accounts.len());
            }
            return false;
        }
        let n = self.accounts.len();
        let mut i: usize = 0;
        while i < n
            invariant
                n == self.accounts@.len() == other.accounts@.len(),
                0 <= i <= n,
                self@.program_id == other@.program_id,
                self@.data == other@.data,
                forall|j: int| 0 <= j < i ==> self@.accounts[j] == other@.accounts[j],
            decreases n - i,
        {
            if !(self.accounts[i] == other.accounts[i]) {
                proof {
                    assert(self@.accounts[i as int] != other@.accounts[i as int]);
                }
                return false;
            }
            i += 1;
        }
        proof {
            assert(self@.accounts =~= other@.accounts);
            assert(self@ =~= other@);
        }
        true
    }
}

impl Eq for Instruction {

}

impl vstd::std_specs::cmp::PartialEqSpecImpl for Instruction {
    open spec fn obeys_eq_spec() -> bool {
        true
    }

    open spec fn eq_spec(&self, other: &Self) -> bool {
        self@ == other@
    }
}

} // verus!
