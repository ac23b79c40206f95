//! Account requirements: fixed-size records that say which extra account
//! an instruction needs, either by a literal address or by seeds that
//! derive one.

use crate::error::{AccountResolutionError, ProgramError};
use crate::instruction::{AccountMeta, AccountMetaV};
use crate::item::PodItem;
use crate::account_info::AccountInfo;
use crate::pods::{bytes_eq, PodBool};
use crate::pubkey::{derived_address, find_derived_address, Pubkey};
use crate::seeds::{
    pack_address_config, seeds_view, spec_eval_seeds, spec_pack_seeds, spec_parse_seeds,
    unpack_address_config, Seed,
};
use vstd::prelude::*;

verus! {

/// Number of bytes one stored account requirement occupies.
pub const EXTRA_ACCOUNT_META_LEN: usize = 35;

/// What a stored account requirement amounts to.
#[verifier::ext_equal]
pub struct ExtraAccountMetaV {
    /// Which kind of requirement this is: zero for a literal address,
    /// one for a seed-derived address.
    pub discriminator: u8,
    /// The 32 configuration bytes: the address itself, or packed seeds.
    pub address_config: Seq<u8>,
    /// Whether the resolved account must sign.
    pub is_signer: bool,
    /// Whether the resolved account may be written.
    pub is_writable: bool,
}

/// One account requirement: a discriminator byte, a 32-byte
/// configuration area, and the signer and writable flags.
#[derive(Clone, Copy, Debug)]
pub struct ExtraAccountMeta {
    /// Which kind of requirement this is: zero for a literal address,
    /// one for a seed-derived address.
    pub discriminator: u8,
    /// The 32 configuration bytes: the address itself, or packed seeds.
    pub address_config: [u8; 32],
    /// Whether the resolved account must sign.
    pub is_signer: PodBool,
    /// Whether the resolved account may be written.
    pub is_writable: PodBool,
}

impl View for ExtraAccountMeta {
    type V = ExtraAccountMetaV;

    open spec fn view(&self) -> ExtraAccountMetaV {
        ExtraAccountMetaV {
            discriminator: self.discriminator,
            address_config: self.address_config@,
            is_signer: self.is_signer.spec_bool(),
            is_writable: self.is_writable.spec_bool(),
        }
    }
}

/// The requirement a record's stored bytes denote. The signer and
/// writable flags read any non-zero byte as set, so records whose bytes
/// differ may denote the same requirement.
pub open spec fn spec_meta_of_bytes(chunk: Seq<u8>) -> ExtraAccountMetaV {
    ExtraAccountMetaV {
        discriminator: chunk[0],
        address_config: chunk.subrange(1, 33),
        is_signer: chunk[33] != 0,
        is_writable: chunk[34] != 0,
    }
}

impl PodItem for ExtraAccountMeta {
    open spec fn spec_size() -> nat {
        35
    }

    open spec fn spec_align() -> nat {
        1
    }

    open spec fn enc(self) -> Seq<u8> {
        seq![self.discriminator] + self.address_config@ + seq![self.is_signer.0, self.is_writable.0]
    }

    proof fn lemma_align_pos() {
    }

    proof fn lemma_enc_len(self) {
    }

    proof fn lemma_enc_injective(self, other: Self) {
        if self.enc() == other.enc() {
            assert forall|i: int| 0 <= i < 32 implies self.address_config@[i]
                == other.address_config@[i] by {
                assert(self.enc()[1 + i] == other.enc()[1 + i]);
            }
            assert(self.address_config =~= other.address_config);
            assert(self.enc()[0] == other.enc()[0]);
            assert(self.enc()[33] == other.enc()[33]);
            assert(self.enc()[34] == other.enc()[34]);
        }
    }

    fn packed_len() -> (r: usize) {
        35
    }

    fn packed_align() -> (r: usize) {
        1
    }

    fn to_bytes(&self) -> (r: Vec<u8>) {
        let mut out: Vec<u8> = Vec::new();
        out.push(self.discriminator);
        let mut config = vstd::slice::slice_to_vec(self.address_config.as_slice());
        out.append(&mut config);
        out.push(self.is_signer.0);
        out.push(self.is_writable.0);
        proof {
            assert(out@ =~= self.enc());
        }
        out
    }

    fn from_bytes(bytes: &[u8]) -> (r: Self) {
        let discriminator = bytes[0];
        let config_slice = vstd::slice::slice_subrange(bytes, 1, 33);
        let address_config = crate::item::Record::<32, 1>::new(config_slice).0;
        let is_signer = PodBool(bytes[33]);
        let is_writable = PodBool(bytes[34]);
        let r = ExtraAccountMeta { discriminator, address_config, is_signer, is_writable };
        proof {
            assert(r.enc() =~= bytes@);
        }
        r
    }
}

impl PartialEq for ExtraAccountMeta {
    fn eq(&self, other: &Self) -> (r: bool) {
        self.discriminator == other.discriminator && bytes_eq(
            self.address_config.as_slice(),
            other.address_config.as_slice(),
        ) && self.is_signer.0 == other.is_signer.0 && self.is_writable.0 == other.is_writable.0
    }
}

impl Eq for ExtraAccountMeta {

}

impl vstd::std_specs::cmp::PartialEqSpecImpl for ExtraAccountMeta {
    open spec fn obeys_eq_spec() -> bool {
        true
    }

    open spec fn eq_spec(&self, other: &Self) -> bool {
        &&& self.discriminator == other.discriminator
        &&& self.address_config@ == other.address_config@
        &&& self.is_signer.0 == other.is_signer.0
        &&& self.is_writable.0 == other.is_writable.0
    }
}

/// The record that fixes the account of the given reference.
pub open spec fn fixed_meta_of(m: AccountMeta) -> ExtraAccountMeta {
    ExtraAccountMeta {
        discriminator: 0,
        address_config: m.pubkey.0,
        is_signer: PodBool(if m.is_signer { 1u8 } else { 0u8 }),
        is_writable: PodBool(if m.is_writable { 1u8 } else { 0u8 }),
    }
}

/// The record that fixes the account of the given runtime handle.
pub open spec fn fixed_meta_of_info(a: AccountInfo) -> ExtraAccountMeta {
    ExtraAccountMeta {
        discriminator: 0,
        address_config: a.key.0,
        is_signer: PodBool(if a.is_signer { 1u8 } else { 0u8 }),
        is_writable: PodBool(if a.is_writable { 1u8 } else { 0u8 }),
    }
}

/// The requirement that fixes the given account reference.
pub open spec fn spec_fixed_meta(m: AccountMetaV) -> ExtraAccountMetaV {
    ExtraAccountMetaV {
        discriminator: 0,
        address_config: m.pubkey,
        is_signer: m.is_signer,
        is_writable: m.is_writable,
    }
}

impl ExtraAccountMeta {
    /// A requirement whose address is derived from the given seeds.
    pub fn new_with_seeds(seeds: &Vec<Seed>, is_signer: bool, is_writable: bool) -> (r: Result<
        Self,
        ProgramError,
    >)
        ensures
            match (r, spec_pack_seeds(seeds_view(seeds@))) {
                (Ok(m), Ok(config)) => m@ == (ExtraAccountMetaV {
                    discriminator: 1,
                    address_config: config,
                    is_signer,
                    is_writable,
                }),
                (Err(e), Err(f)) => e == crate::error::spec_res_err(f),
                _ => false,
            },
    {
        match pack_address_config(seeds) {
            Ok(address_config) => Ok(
                ExtraAccountMeta {
                    discriminator: 1,
                    address_config,
                    is_signer: PodBool::from_bool(is_signer),
                    is_writable: PodBool::from_bool(is_writable),
                },
            ),
            Err(e) => Err(ProgramError::from(e)),
        }
    }

    /// The requirement that fixes the given account reference.
    pub fn from_meta(meta: &AccountMeta) -> (r: Self)
        ensures
            r == fixed_meta_of(*meta),
            r@ == spec_fixed_meta(meta@),
    {
        let config = meta.pubkey.to_bytes();
        proof {
            assert(config =~= meta.pubkey.0);
        }
        ExtraAccountMeta {
            discriminator: 0,
            address_config: config,
            is_signer: PodBool::from_bool(meta.is_signer),
            is_writable: PodBool::from_bool(meta.is_writable),
        }
    }

    /// The requirement that fixes the account a runtime handle refers
    /// to.
    pub fn from_info(info: &AccountInfo) -> (r: Self)
        ensures
            r == fixed_meta_of_info(*info),
            r@ == (ExtraAccountMetaV {
                discriminator: 0,
                address_config: info@.key,
                is_signer: info@.is_signer,
                is_writable: info@.is_writable,
            }),
    {
        let config = info.key.to_bytes();
        proof {
            assert(config =~= info.key.0);
        }
        ExtraAccountMeta {
            discriminator: 0,
            address_config: config,
            is_signer: PodBool::from_bool(info.is_signer),
            is_writable: PodBool::from_bool(info.is_writable),
        }
    }

    /// Resolve this requirement to a concrete account reference, given
    /// the program id, the accounts placed so far (the instruction's
    /// own accounts followed by requirements already resolved in this
    /// pass), and the instruction payload.
    pub fn resolve(&self, program_id: &Pubkey, accounts: &Vec<AccountMeta>, data: &[u8]) -> (r:
        Result<AccountMeta, ProgramError>)
        ensures
            ({
                let s = spec_resolve_meta(
                    self@,
                    program_id@,
                    crate::instruction::keys_of(crate::instruction::metas_view(accounts@)),
                    data@,
                );
                match (r, s) {
                    (Ok(m), Ok(v)) => m@ == v,
                    (Err(e), Err(f)) => e == f,
                    _ => false,
                }
            }),
    {
        if self.discriminator == 0 {
            let pubkey = Pubkey::new_from_array(self.address_config);
            Ok(
                AccountMeta {
                    pubkey,
                    is_signer: self.is_signer.get(),
                    is_writable: self.is_writable.get(),
                },
            )
        } else if self.discriminator == 1 {
            let seeds = match unpack_address_config(self.address_config.as_slice()) {
                Ok(s) => s,
                Err(e) => {
                    return Err(ProgramError::from(e));
                },
            };
            let mut keys: Vec<Pubkey> = Vec::new();
            let n = accounts.len();
            let mut i: usize = 0;
            while i < n
                invariant
                    n == accounts@.len(),
                    0 <= i <= n,
                    keys@.len() == i,
                    forall|j: int| 0 <= j < i ==> keys@[j]@ == accounts@[j]@.pubkey,
                decreases n - i,
            {
                keys.push(accounts[i].pubkey);
                i += 1;
            }
            proof {
                assert(keys@.map_values(|k: Pubkey| k@) =~= crate::instruction::keys_of(
                    crate::instruction::metas_view(accounts@),
                ));
            }
            let seed_bytes = match crate::seeds::evaluate_seeds(&seeds, &keys, data) {
                Ok(s) => s,
                Err(e) => {
                    return Err(ProgramError::from(e));
                },
            };
            match find_derived_address(&seed_bytes, program_id) {
                Some((pubkey, _bump)) => Ok(
                    AccountMeta {
                        pubkey,
                        is_signer: self.is_signer.get(),
                        is_writable: self.is_writable.get(),
                    },
                ),
                None => Err(ProgramError::from(AccountResolutionError::CalculationFailure)),
            }
        } else {
            Err(ProgramError::InvalidAccountData)
        }
    }
}

/// The account reference a requirement resolves to, given the program
/// id, the combined account addresses placed so far, and the
/// instruction payload.
pub open spec fn spec_resolve_meta(
    m: ExtraAccountMetaV,
    program_id: Seq<u8>,
    keys: Seq<Seq<u8>>,
    data: Seq<u8>,
) -> Result<AccountMetaV, ProgramError> {
    if m.discriminator == 0 {
        Ok(
            AccountMetaV {
                pubkey: m.address_config,
                is_signer: m.is_signer,
                is_writable: m.is_writable,
            },
        )
    } else if m.discriminator == 1 {
        match spec_parse_seeds(m.address_config) {
            Err(e) => Err(crate::error::spec_res_err(e)),
            Ok(seeds) => match spec_eval_seeds(seeds, keys, data) {
                Err(e) => Err(crate::error::spec_res_err(e)),
                Ok(seed_bytes) => match derived_address(seed_bytes, program_id) {
                    None => Err(
                        crate::error::spec_res_err(AccountResolutionError::CalculationFailure),
                    ),
                    Some((pubkey, bump)) => Ok(
                        AccountMetaV {
                            pubkey,
                            is_signer: m.is_signer,
                            is_writable: m.is_writable,
                        },
                    ),
                },
            },
        }
    } else {
        Err(ProgramError::InvalidAccountData)
    }
}

} // verus!
