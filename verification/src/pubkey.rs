//! Account addresses, and the derivation of program-derived addresses.

use vstd::prelude::*;

verus! {

/// Number of bytes in an account address.
pub const PUBKEY_BYTES: usize = 32;

/// An account address: 32 raw bytes.
#[derive(Clone, Copy, Debug)]
pub struct Pubkey(pub [u8; 32]);

impl View for Pubkey {
    type V = Seq<u8>;

    open spec fn view(&self) -> Seq<u8> {
        self.0@
    }
}

impl Pubkey {
    /// Build an address from its 32 bytes.
    pub fn new_from_array(bytes: [u8; 32]) -> (r: Self)
        ensures
            r@ == bytes@,
    {
        Pubkey(bytes)
    }

    /// The address's 32 bytes.
    pub fn to_bytes(&self) -> (r: [u8; 32])
        ensures
            r@ == self@,
    {
        self.0
    }

    /// The address's bytes, borrowed.
    pub fn as_bytes(&self) -> (r: &[u8])
        ensures
            r@ == self@,
    {
        self.0.as_slice()
    }

    /// The address's bytes, copied into a growable buffer.
    pub fn to_vec(&self) -> (r: Vec<u8>)
        ensures
            r@ == self@,
    {
        vstd::slice::slice_to_vec(self.0.as_slice())
    }
}

impl PartialEq for Pubkey {
    fn eq(&self, other: &Self) -> (r: bool) {
        crate::pods::bytes_eq(self.0.as_slice(), other.0.as_slice())
    }
}

impl Eq for Pubkey {

}

impl vstd::std_specs::cmp::PartialEqSpecImpl for Pubkey {
    open spec fn obeys_eq_spec() -> bool {
        true
    }

    open spec fn eq_spec(&self, other: &Self) -> bool {
        self.0@ == other.0@
    }
}

/// The program-derived address and bump that the derivation primitive
/// returns for the given seed byte strings and program id, or `None`
/// when no valid derivation exists.
pub uninterp spec fn derived_address(seeds: Seq<Seq<u8>>, program_id: Seq<u8>) -> Option<
    (Seq<u8>, u8),
>;

/// Relies on `solana_pubkey::Pubkey::try_find_program_address`: the
/// result is a deterministic function of the seed byte strings and the
/// program id alone, a found address is 32 bytes, and no input makes the
/// search panic.
#[verifier::external_body]
pub(crate) fn find_derived_address(seeds: &Vec<Vec<u8>>, program_id: &Pubkey) -> (r: Option<
    (Pubkey, u8),
>)
    ensures
        match (r, derived_address(seeds@.map_values(|s: Vec<u8>| s@), program_id@)) {
            (Some(p), Some(q)) => p.0@ == q.0 && p.1 == q.1,
            (None, None) => true,
            _ => false,
        },
{
    let seed_slices: Vec<&[u8]> = seeds.iter().map(|s: &Vec<u8>| s.as_slice()).collect();
    let pk = solana_pubkey::Pubkey::new_from_array(program_id.0);
    solana_pubkey::Pubkey::try_find_program_address(&seed_slices, &pk)
        .map(|(addr, bump)| (Pubkey(addr.to_bytes()), bump))
}

} // verus!
