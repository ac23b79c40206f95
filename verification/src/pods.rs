//! Fixed-layout replacements for `bool` and the standard integer types.
//!
//! Each type stores its value as little-endian bytes with no alignment
//! requirement, so that it can be embedded at any offset of a stored record.

use vstd::bytes::*;
use vstd::prelude::*;

verus! {

/// Whether two byte slices hold the same bytes.
pub fn bytes_eq(a: &[u8], b: &[u8]) -> (r: bool)
    ensures
        r == (a@ == b@),
{
    if a.len() != b.len() {
        proof {
            assert(a@ != b@);
        }
        return false;
    }
    let n = a.len();
    let mut i: usize = 0;
    while i < n
        invariant
            n == a@.len() == b@.len(),
            0 <= i <= n,
            forall|j: int| 0 <= j < i ==> a@[j] == b@[j],
        decreases n - i,
    {
        if a[i] != b[i] {
            proof {
                assert(a@ != b@);
            }
            return false;
        }
        i += 1;
    }
    proof {
        assert(a@ =~= b@);
    }
    true
}

/// The standard `bool` is not layout-stable, so records store this
/// replacement: zero means `false`, anything else means `true`.
#[derive(Clone, Copy, Debug, PartialEq, Eq, Structural)]
pub struct PodBool(pub u8);

impl PodBool {
    /// The boolean this byte denotes.
    pub open spec fn spec_bool(&self) -> bool {
        self.0 != 0
    }

    /// Encode a `bool`.
    pub fn from_bool(b: bool) -> (r: Self)
        ensures
            r.spec_bool() == b,
            r.0 == (if b { 1u8 } else { 0u8 }),
    {
        Self(if b { 1 } else { 0 })
    }

    /// Decode to a `bool`.
    pub fn get(&self) -> (r: bool)
        ensures
            r == self.spec_bool(),
    {
        self.0 != 0
    }
}

/// `u16` stored as two little-endian bytes.
#[derive(Clone, Copy, Debug)]
pub struct PodU16(pub [u8; 2]);

impl PodU16 {
    /// The integer these bytes denote.
    pub open spec fn spec_value(&self) -> u16 {
        spec_u16_from_le_bytes(self.0@)
    }

    /// Encode an integer.
    pub fn from_primitive(n: u16) -> (r: Self)
        ensures
            r.0@ == spec_u16_to_le_bytes(n),
            r.spec_value() == n,
    {
        proof {
            lemma_auto_spec_u16_to_from_le_bytes();
        }
        let s = u16_to_le_bytes(n);
        let r = Self([s[0], s[1]]);
        proof {
            assert(r.0@ =~= s@);
        }
        r
    }

    /// Decode to an integer.
    pub fn get(&self) -> (r: u16)
        ensures
            r == self.spec_value(),
    {
        u16_from_le_bytes(self.0.as_slice())
    }
}

/// `i16` stored as two little-endian bytes, two's complement.
#[derive(Clone, Copy, Debug)]
pub struct PodI16(pub [u8; 2]);

impl PodI16 {
    /// The signed integer these bytes denote.
    pub open spec fn spec_value(&self) -> i16 {
        spec_i16_of_u16(spec_u16_from_le_bytes(self.0@))
    }

    /// Encode an integer.
    pub fn from_primitive(n: i16) -> (r: Self)
        ensures
            r.spec_value() == n,
    {
        proof {
            lemma_auto_spec_u16_to_from_le_bytes();
        }
        let u: u16 = if n >= 0 {
            n as u16
        } else {
            ((n as i32) + 0x10000) as u16
        };
        let s = u16_to_le_bytes(u);
        let r = Self([s[0], s[1]]);
        proof {
            assert(r.0@ =~= s@);
        }
        r
    }

    /// Decode to an integer.
    pub fn get(&self) -> (r: i16)
        ensures
            r == self.spec_value(),
    {
        let u = u16_from_le_bytes(self.0.as_slice());
        if u < 0x8000 {
            u as i16
        } else {
            ((u as i32) - 0x10000) as i16
        }
    }
}

/// The signed reading of an unsigned 16-bit value, two's complement.
pub open spec fn spec_i16_of_u16(u: u16) -> i16 {
    if u < 0x8000 {
        u as i16
    } else {
        (u - 0x10000) as i16
    }
}

/// `u32` stored as four little-endian bytes.
#[derive(Clone, Copy, Debug)]
pub struct PodU32(pub [u8; 4]);

impl PodU32 {
    /// The integer these bytes denote.
    pub open spec fn spec_value(&self) -> u32 {
        spec_u32_from_le_bytes(self.0@)
    }

    /// Encode an integer.
    pub fn from_primitive(n: u32) -> (r: Self)
        ensures
            r.0@ == spec_u32_to_le_bytes(n),
            r.spec_value() == n,
    {
        proof {
            lemma_auto_spec_u32_to_from_le_bytes();
        }
        let s = u32_to_le_bytes(n);
        let r = Self([s[0], s[1], s[2], s[3]]);
        proof {
            assert(r.0@ =~= s@);
        }
        r
    }

    /// Decode to an integer.
    pub fn get(&self) -> (r: u32)
        ensures
            r == self.spec_value(),
    {
        u32_from_le_bytes(self.0.as_slice())
    }
}

/// `u64` stored as eight little-endian bytes.
#[derive(Clone, Copy, Debug)]
pub struct PodU64(pub [u8; 8]);

impl PodU64 {
    /// The integer these bytes denote.
    pub open spec fn spec_value(&self) -> u64 {
        spec_u64_from_le_bytes(self.0@)
    }

    /// Encode an integer.
    pub fn from_primitive(n: u64) -> (r: Self)
        ensures
            r.0@ == spec_u64_to_le_bytes(n),
            r.spec_value() == n,
    {
        proof {
            lemma_auto_spec_u64_to_from_le_bytes();
        }
        let s = u64_to_le_bytes(n);
        let r = Self([s[0], s[1], s[2], s[3], s[4], s[5], s[6], s[7]]);
        proof {
            assert(r.0@ =~= s@);
        }
        r
    }

    /// Decode to an integer.
    pub fn get(&self) -> (r: u64)
        ensures
            r == self.spec_value(),
    {
        u64_from_le_bytes(self.0.as_slice())
    }
}

/// `i64` stored as eight little-endian bytes, two's complement.
#[derive(Clone, Copy, Debug)]
pub struct PodI64(pub [u8; 8]);

impl PodI64 {
    /// The signed integer these bytes denote.
    pub open spec fn spec_value(&self) -> i64 {
        spec_i64_of_u64(spec_u64_from_le_bytes(self.0@))
    }

    /// Encode an integer.
    pub fn from_primitive(n: i64) -> (r: Self)
        ensures
            r.spec_value() == n,
    {
        proof {
            lemma_auto_spec_u64_to_from_le_bytes();
        }
        let u: u64 = if n >= 0 {
            n as u64
        } else {
            ((n as i128) + 0x10000000000000000i128) as u64
        };
        let s = u64_to_le_bytes(u);
        let r = Self([s[0], s[1], s[2], s[3], s[4], s[5], s[6], s[7]]);
        proof {
            assert(r.0@ =~= s@);
        }
        r
    }

    /// Decode to an integer.
    pub fn get(&self) -> (r: i64)
        ensures
            r == self.spec_value(),
    {
        let u = u64_from_le_bytes(self.0.as_slice());
        if u < 0x8000000000000000u64 {
            u as i64
        } else {
            ((u as i128) - 0x10000000000000000i128) as i64
        }
    }
}

/// The signed reading of an unsigned 64-bit value, two's complement.
pub open spec fn spec_i64_of_u64(u: u64) -> i64 {
    if u < 0x8000000000000000u64 {
        u as i64
    } else {
        (u - 0x10000000000000000) as i64
    }
}

/// `u128` stored as sixteen little-endian bytes.
#[derive(Clone, Copy, Debug)]
pub struct PodU128(pub [u8; 16]);

impl PodU128 {
    /// The integer these bytes denote.
    pub open spec fn spec_value(&self) -> u128 {
        spec_u128_from_le_bytes(self.0@)
    }

    /// Encode an integer.
    pub fn from_primitive(n: u128) -> (r: Self)
        ensures
            r.0@ == spec_u128_to_le_bytes(n),
            r.spec_value() == n,
    {
        proof {
            lemma_auto_spec_u128_to_from_le_bytes();
        }
        let s = u128_to_le_bytes(n);
        let r = Self(
            [
                s[0],
                s[1],
                s[2],
                s[3],
                s[4],
                s[5],
                s[6],
                s[7],
                s[8],
                s[9],
                s[10],
                s[11],
                s[12],
                s[13],
                s[14],
                s[15],
            ],
        );
        proof {
            assert(r.0@ =~= s@);
        }
        r
    }

    /// Decode to an integer.
    pub fn get(&self) -> (r: u128)
        ensures
            r == self.spec_value(),
    {
        u128_from_le_bytes(self.0.as_slice())
    }
}


impl PartialEq for PodU16 {
    fn eq(&self, other: &Self) -> (r: bool) {
        bytes_eq(self.0.as_slice(), other.0.as_slice())
    }
}

impl Eq for PodU16 {

}

impl vstd::std_specs::cmp::PartialEqSpecImpl for PodU16 {
    open spec fn obeys_eq_spec() -> bool {
        true
    }

    open spec fn eq_spec(&self, other: &Self) -> bool {
        self.0@ == other.0@
    }
}


impl PartialEq for PodI16 {
    fn eq(&self, other: &Self) -> (r: bool) {
        bytes_eq(self.0.as_slice(), other.0.as_slice())
    }
}

impl Eq for PodI16 {

}

impl vstd::std_specs::cmp::PartialEqSpecImpl for PodI16 {
    open spec fn obeys_eq_spec() -> bool {
        true
    }

    open spec fn eq_spec(&self, other: &Self) -> bool {
        self.0@ == other.0@
    }
}


impl PartialEq for PodU32 {
    fn eq(&self, other: &Self) -> (r: bool) {
        bytes_eq(self.0.as_slice(), other.0.as_slice())
    }
}

impl Eq for PodU32 {

}

impl vstd::std_specs::cmp::PartialEqSpecImpl for PodU32 {
    open spec fn obeys_eq_spec() -> bool {
        true
    }

    open spec fn eq_spec(&self, other: &Self) -> bool {
        self.0@ == other.0@
    }
}


impl PartialEq for PodU64 {
    fn eq(&self, other: &Self) -> (r: bool) {
        bytes_eq(self.0.as_slice(), other.0.as_slice())
    }
}

impl Eq for PodU64 {

}

impl vstd::std_specs::cmp::PartialEqSpecImpl for PodU64 {
    open spec fn obeys_eq_spec() -> bool {
        true
    }

    open spec fn eq_spec(&self, other: &Self) -> bool {
        self.0@ == other.0@
    }
}


impl PartialEq for PodI64 {
    fn eq(&self, other: &Self) -> (r: bool) {
        bytes_eq(self.0.as_slice(), other.0.as_slice())
    }
}

impl Eq for PodI64 {

}

impl vstd::std_specs::cmp::PartialEqSpecImpl for PodI64 {
    open spec fn obeys_eq_spec() -> bool {
        true
    }

    open spec fn eq_spec(&self, other: &Self) -> bool {
        self.0@ == other.0@
    }
}


impl PartialEq for PodU128 {
    fn eq(&self, other: &Self) -> (r: bool) {
        bytes_eq(self.0.as_slice(), other.0.as_slice())
    }
}

impl Eq for PodU128 {

}

impl vstd::std_specs::cmp::PartialEqSpecImpl for PodU128 {
    open spec fn obeys_eq_spec() -> bool {
        true
    }

    open spec fn eq_spec(&self, other: &Self) -> bool {
        self.0@ == other.0@
    }
}

} // verus!
