//! Fixed-size records that live inside raw byte buffers.
//!
//! The byte views of this crate do not reinterpret memory: a record type
//! states how many bytes one record occupies, which alignment the stored
//! layout keeps, and how a record value is encoded. Every byte string of
//! the declared size is the encoding of exactly one value, so records can
//! be read back from any well-sized buffer.

use crate::error::SplPodError;
use crate::pods::{PodBool, PodI16, PodI64, PodU128, PodU16, PodU32, PodU64};
use vstd::bytes::*;
use vstd::prelude::*;

verus! {

broadcast use vstd::array::group_array_axioms;

/// A value with a fixed-size byte encoding.
///
/// Encodings have the declared size, no two values share an encoding, and
/// every byte string of the declared size is an encoding, so `from_bytes`
/// is total on well-sized inputs.
pub trait PodItem: Sized + Copy {
    /// Number of bytes one stored record occupies.
    spec fn spec_size() -> nat;

    /// Alignment the stored layout keeps for the record's byte offset.
    spec fn spec_align() -> nat;

    /// The stored byte encoding of the value.
    spec fn enc(self) -> Seq<u8>;

    /// The stored layout's alignment is at least one.
    proof fn lemma_align_pos()
        ensures
            Self::spec_align() >= 1,
    ;

    /// Encodings have the declared size.
    proof fn lemma_enc_len(self)
        ensures
            self.enc().len() == Self::spec_size(),
    ;

    /// No two values share an encoding.
    proof fn lemma_enc_injective(self, other: Self)
        ensures
            self.enc() == other.enc() ==> self == other,
    ;

    /// Number of bytes one stored record occupies.
    fn packed_len() -> (r: usize)
        ensures
            r == Self::spec_size(),
    ;

    /// Alignment the stored layout keeps for the record's byte offset.
    fn packed_align() -> (r: usize)
        ensures
            r == Self::spec_align(),
    ;

    /// Encode the value.
    fn to_bytes(&self) -> (r: Vec<u8>)
        ensures
            r@ == self.enc(),
    ;

    /// Read the value a byte string of the record size encodes.
    fn from_bytes(bytes: &[u8]) -> (r: Self)
        requires
            bytes@.len() == Self::spec_size(),
        ensures
            r.enc() == bytes@,
    ;
}

/// A length prefix: a record whose bytes denote a count of stored items.
pub trait PodLength: PodItem {
    /// The count a stored prefix of `spec_size` bytes denotes.
    spec fn spec_len_of_bytes(bytes: Seq<u8>) -> nat;

    /// The largest count the prefix type can store.
    spec fn spec_max() -> nat;

    /// Every stored prefix denotes a count within range.
    proof fn lemma_len_bound(bytes: Seq<u8>)
        ensures
            Self::spec_len_of_bytes(bytes) <= Self::spec_max(),
    ;

    /// The count this prefix denotes, or `None` when it does not fit in
    /// `usize`.
    fn len_value(&self) -> (r: Option<usize>)
        ensures
            match r {
                Some(v) => v == Self::spec_len_of_bytes(self.enc()),
                None => Self::spec_len_of_bytes(self.enc()) > usize::MAX,
            },
    ;

    /// Encode a count, failing when it exceeds the range of the prefix.
    fn from_len(v: usize) -> (r: Result<Self, SplPodError>)
        ensures
            match r {
                Ok(l) => v <= Self::spec_max() && Self::spec_len_of_bytes(l.enc()) == v,
                Err(e) => v > Self::spec_max() && e == SplPodError::ValueOutOfRange,
            },
    ;
}

/// A plain record of `N` bytes whose stored layout keeps an alignment of
/// `A` (an alignment of zero is read as one).
#[derive(Clone, Copy, Debug)]
pub struct Record<const N: usize, const A: usize>(pub [u8; N]);

impl<const N: usize, const A: usize> Record<N, A> {
    /// Build a record from exactly `N` bytes.
    pub fn new(bytes: &[u8]) -> (r: Self)
        requires
            bytes@.len() == N,
        ensures
            r.0@ == bytes@,
    {
        let mut arr = vstd::array::array_fill_for_copy_types::<u8, N>(0u8);
        let mut i: usize = 0;
        while i < N
            invariant
                bytes@.len() == N,
                arr@.len() == N,
                0 <= i <= N,
                forall|j: int| 0 <= j < i ==> arr@[j] == bytes@[j],
            decreases N - i,
        {
            arr[i] = bytes[i];
            i += 1;
        }
        proof {
            assert(arr@ =~= bytes@);
        }
        Record(arr)
    }
}

impl<const N: usize, const A: usize> PartialEq for Record<N, A> {
    fn eq(&self, other: &Self) -> (r: bool) {
        crate::pods::bytes_eq(self.0.as_slice(), other.0.as_slice())
    }
}

impl<const N: usize, const A: usize> Eq for Record<N, A> {

}

impl<const N: usize, const A: usize> vstd::std_specs::cmp::PartialEqSpecImpl for Record<N, A> {
    open spec fn obeys_eq_spec() -> bool {
        true
    }

    open spec fn eq_spec(&self, other: &Self) -> bool {
        self.0@ == other.0@
    }
}

impl<const N: usize, const A: usize> PodItem for Record<N, A> {
    open spec fn spec_size() -> nat {
        N as nat
    }

    open spec fn spec_align() -> nat {
        if A == 0 {
            1
        } else {
            A as nat
        }
    }

    open spec fn enc(self) -> Seq<u8> {
        self.0@
    }

    proof fn lemma_align_pos() {
    }

    proof fn lemma_enc_len(self) {
    }

    proof fn lemma_enc_injective(self, other: Self) {
        if self.enc() == other.enc() {
            assert(self.0 =~= other.0);
        }
    }

    fn packed_len() -> (r: usize) {
        N
    }

    fn packed_align() -> (r: usize) {
        if A == 0 {
            1
        } else {
            A
        }
    }

    fn to_bytes(&self) -> (r: Vec<u8>) {
        let mut v: Vec<u8> = Vec::new();
        let mut i: usize = 0;
        while i < N
            invariant
                v@.len() == i,
                0 <= i <= N,
                forall|j: int| 0 <= j < i ==> v@[j] == self.0@[j],
            decreases N - i,
        {
            v.push(self.0[i]);
            i += 1;
        }
        proof {
            assert(v@ =~= self.0@);
        }
        v
    }

    fn from_bytes(bytes: &[u8]) -> (r: Self) {
        Record::new(bytes)
    }
}

impl PodItem for u8 {
    open spec fn spec_size() -> nat {
        1
    }

    open spec fn spec_align() -> nat {
        1
    }

    open spec fn enc(self) -> Seq<u8> {
        seq![self]
    }

    proof fn lemma_align_pos() {
    }

    proof fn lemma_enc_len(self) {
    }

    proof fn lemma_enc_injective(self, other: Self) {
        if self.enc() == other.enc() {
            assert(self.enc()[0] == other.enc()[0]);
        }
    }

    fn packed_len() -> (r: usize) {
        1
    }

    fn packed_align() -> (r: usize) {
        1
    }

    fn to_bytes(&self) -> (r: Vec<u8>) {
        let mut v: Vec<u8> = Vec::new();
        v.push(*self);
        proof {
            assert(v@ =~= self.enc());
        }
        v
    }

    fn from_bytes(bytes: &[u8]) -> (r: Self) {
        let r = bytes[0];
        proof {
            assert(r.enc() =~= bytes@);
        }
        r
    }
}

impl PodItem for u32 {
    open spec fn spec_size() -> nat {
        4
    }

    open spec fn spec_align() -> nat {
        4
    }

    open spec fn enc(self) -> Seq<u8> {
        spec_u32_to_le_bytes(self)
    }

    proof fn lemma_align_pos() {
    }

    proof fn lemma_enc_len(self) {
        lemma_auto_spec_u32_to_from_le_bytes();
    }

    proof fn lemma_enc_injective(self, other: Self) {
        lemma_auto_spec_u32_to_from_le_bytes();
        assert(spec_u32_to_le_bytes(self).len() == 4);
        assert(spec_u32_to_le_bytes(other).len() == 4);
        assert(spec_u32_from_le_bytes(spec_u32_to_le_bytes(self)) == self);
        assert(spec_u32_from_le_bytes(spec_u32_to_le_bytes(other)) == other);
    }

    fn packed_len() -> (r: usize) {
        4
    }

    fn packed_align() -> (r: usize) {
        4
    }

    fn to_bytes(&self) -> (r: Vec<u8>) {
        u32_to_le_bytes(*self)
    }

    fn from_bytes(bytes: &[u8]) -> (r: Self) {
        proof {
            lemma_auto_spec_u32_to_from_le_bytes();
        }
        u32_from_le_bytes(bytes)
    }
}

impl PodItem for u64 {
    open spec fn spec_size() -> nat {
        8
    }

    open spec fn spec_align() -> nat {
        8
    }

    open spec fn enc(self) -> Seq<u8> {
        spec_u64_to_le_bytes(self)
    }

    proof fn lemma_align_pos() {
    }

    proof fn lemma_enc_len(self) {
        lemma_auto_spec_u64_to_from_le_bytes();
    }

    proof fn lemma_enc_injective(self, other: Self) {
        lemma_auto_spec_u64_to_from_le_bytes();
        assert(spec_u64_to_le_bytes(self).len() == 8);
        assert(spec_u64_to_le_bytes(other).len() == 8);
        assert(spec_u64_from_le_bytes(spec_u64_to_le_bytes(self)) == self);
        assert(spec_u64_from_le_bytes(spec_u64_to_le_bytes(other)) == other);
    }

    fn packed_len() -> (r: usize) {
        8
    }

    fn packed_align() -> (r: usize) {
        8
    }

    fn to_bytes(&self) -> (r: Vec<u8>) {
        u64_to_le_bytes(*self)
    }

    fn from_bytes(bytes: &[u8]) -> (r: Self) {
        proof {
            lemma_auto_spec_u64_to_from_le_bytes();
        }
        u64_from_le_bytes(bytes)
    }
}


impl PodItem for PodU16 {
    open spec fn spec_size() -> nat {
        2
    }

    open spec fn spec_align() -> nat {
        1
    }

    open spec fn enc(self) -> Seq<u8> {
        self.0@
    }

    proof fn lemma_align_pos() {
    }

    proof fn lemma_enc_len(self) {
    }

    proof fn lemma_enc_injective(self, other: Self) {
        if self.enc() == other.enc() {
            assert(self.0 =~= other.0);
        }
    }

    fn packed_len() -> (r: usize) {
        2
    }

    fn packed_align() -> (r: usize) {
        1
    }

    fn to_bytes(&self) -> (r: Vec<u8>) {
        let mut v: Vec<u8> = Vec::new();
        let mut i: usize = 0;
        while i < 2
            invariant
                v@.len() == i,
                0 <= i <= 2,
                forall|j: int| 0 <= j < i ==> v@[j] == self.0@[j],
            decreases 2 - i,
        {
            v.push(self.0[i]);
            i += 1;
        }
        proof {
            assert(v@ =~= self.0@);
        }
        v
    }

    fn from_bytes(bytes: &[u8]) -> (r: Self) {
        let r = Self([bytes[0], bytes[1]]);
        proof {
            assert(r.0@ =~= bytes@);
        }
        r
    }
}


impl PodItem for PodU32 {
    open spec fn spec_size() -> nat {
        4
    }

    open spec fn spec_align() -> nat {
        1
    }

    open spec fn enc(self) -> Seq<u8> {
        self.0@
    }

    proof fn lemma_align_pos() {
    }

    proof fn lemma_enc_len(self) {
    }

    proof fn lemma_enc_injective(self, other: Self) {
        if self.enc() == other.enc() {
            assert(self.0 =~= other.0);
        }
    }

    fn packed_len() -> (r: usize) {
        4
    }

    fn packed_align() -> (r: usize) {
        1
    }

    fn to_bytes(&self) -> (r: Vec<u8>) {
        let mut v: Vec<u8> = Vec::new();
        let mut i: usize = 0;
        while i < 4
            invariant
                v@.len() == i,
                0 <= i <= 4,
                forall|j: int| 0 <= j < i ==> v@[j] == self.0@[j],
            decreases 4 - i,
        {
            v.push(self.0[i]);
            i += 1;
        }
        proof {
            assert(v@ =~= self.0@);
        }
        v
    }

    fn from_bytes(bytes: &[u8]) -> (r: Self) {
        let r = Self([bytes[0], bytes[1], bytes[2], bytes[3]]);
        proof {
            assert(r.0@ =~= bytes@);
        }
        r
    }
}


impl PodItem for PodU64 {
    open spec fn spec_size() -> nat {
        8
    }

    open spec fn spec_align() -> nat {
        1
    }

    open spec fn enc(self) -> Seq<u8> {
        self.0@
    }

    proof fn lemma_align_pos() {
    }

    proof fn lemma_enc_len(self) {
    }

    proof fn lemma_enc_injective(self, other: Self) {
        if self.enc() == other.enc() {
            assert(self.0 =~= other.0);
        }
    }

    fn packed_len() -> (r: usize) {
        8
    }

    fn packed_align() -> (r: usize) {
        1
    }

    fn to_bytes(&self) -> (r: Vec<u8>) {
        let mut v: Vec<u8> = Vec::new();
        let mut i: usize = 0;
        while i < 8
            invariant
                v@.len() == i,
                0 <= i <= 8,
                forall|j: int| 0 <= j < i ==> v@[j] == self.0@[j],
            decreases 8 - i,
        {
            v.push(self.0[i]);
            i += 1;
        }
        proof {
            assert(v@ =~= self.0@);
        }
        v
    }

    fn from_bytes(bytes: &[u8]) -> (r: Self) {
        let r = Self([bytes[0], bytes[1], bytes[2], bytes[3], bytes[4], bytes[5], bytes[6], bytes[7]]);
        proof {
            assert(r.0@ =~= bytes@);
        }
        r
    }
}


impl PodItem for PodU128 {
    open spec fn spec_size() -> nat {
        16
    }

    open spec fn spec_align() -> nat {
        1
    }

    open spec fn enc(self) -> Seq<u8> {
        self.0@
    }

    proof fn lemma_align_pos() {
    }

    proof fn lemma_enc_len(self) {
    }

    proof fn lemma_enc_injective(self, other: Self) {
        if self.enc() == other.enc() {
            assert(self.0 =~= other.0);
        }
    }

    fn packed_len() -> (r: usize) {
        16
    }

    fn packed_align() -> (r: usize) {
        1
    }

    fn to_bytes(&self) -> (r: Vec<u8>) {
        let mut v: Vec<u8> = Vec::new();
        let mut i: usize = 0;
        while i < 16
            invariant
                v@.len() == i,
                0 <= i <= 16,
                forall|j: int| 0 <= j < i ==> v@[j] == self.0@[j],
            decreases 16 - i,
        {
            v.push(self.0[i]);
            i += 1;
        }
        proof {
            assert(v@ =~= self.0@);
        }
        v
    }

    fn from_bytes(bytes: &[u8]) -> (r: Self) {
        let r = Self([bytes[0], bytes[1], bytes[2], bytes[3], bytes[4], bytes[5], bytes[6], bytes[7], bytes[8], bytes[9], bytes[10], bytes[11], bytes[12], bytes[13], bytes[14], bytes[15]]);
        proof {
            assert(r.0@ =~= bytes@);
        }
        r
    }
}


impl PodLength for PodU16 {
    open spec fn spec_len_of_bytes(bytes: Seq<u8>) -> nat {
        spec_u16_from_le_bytes(bytes) as nat
    }

    open spec fn spec_max() -> nat {
        0xffff
    }

    proof fn lemma_len_bound(bytes: Seq<u8>) {
    }

    fn len_value(&self) -> (r: Option<usize>) {
        Some(self.get() as usize)
    }

    fn from_len(v: usize) -> (r: Result<Self, SplPodError>) {
        proof {
            lemma_auto_spec_u16_to_from_le_bytes();
        }
        if v <= (0xffff as usize) {
            Ok(Self::from_primitive(v as u16))
        } else {
            Err(SplPodError::ValueOutOfRange)
        }
    }
}


impl PodLength for PodU32 {
    open spec fn spec_len_of_bytes(bytes: Seq<u8>) -> nat {
        spec_u32_from_le_bytes(bytes) as nat
    }

    open spec fn spec_max() -> nat {
        0xffffffff
    }

    proof fn lemma_len_bound(bytes: Seq<u8>) {
    }

    fn len_value(&self) -> (r: Option<usize>) {
        Some(self.get() as usize)
    }

    fn from_len(v: usize) -> (r: Result<Self, SplPodError>) {
        proof {
            lemma_auto_spec_u32_to_from_le_bytes();
        }
        if v <= (0xffffffff as usize) {
            Ok(Self::from_primitive(v as u32))
        } else {
            Err(SplPodError::ValueOutOfRange)
        }
    }
}


impl PodLength for PodU64 {
    open spec fn spec_len_of_bytes(bytes: Seq<u8>) -> nat {
        spec_u64_from_le_bytes(bytes) as nat
    }

    open spec fn spec_max() -> nat {
        0xffffffffffffffff
    }

    proof fn lemma_len_bound(bytes: Seq<u8>) {
    }

    fn len_value(&self) -> (r: Option<usize>) {
        let x = self.get();
        if x <= (usize::MAX as u64) {
            Some(x as usize)
        } else {
            None
        }
    }

    fn from_len(v: usize) -> (r: Result<Self, SplPodError>) {
        proof {
            lemma_auto_spec_u64_to_from_le_bytes();
        }
        if (v as u64) <= 0xffffffffffffffffu64 {
            Ok(Self::from_primitive(v as u64))
        } else {
            Err(SplPodError::ValueOutOfRange)
        }
    }
}


impl PodLength for PodU128 {
    open spec fn spec_len_of_bytes(bytes: Seq<u8>) -> nat {
        spec_u128_from_le_bytes(bytes) as nat
    }

    open spec fn spec_max() -> nat {
        0xffffffffffffffffffffffffffffffff
    }

    proof fn lemma_len_bound(bytes: Seq<u8>) {
    }

    fn len_value(&self) -> (r: Option<usize>) {
        let x = self.get();
        if x <= (usize::MAX as u128) {
            Some(x as usize)
        } else {
            None
        }
    }

    fn from_len(v: usize) -> (r: Result<Self, SplPodError>) {
        proof {
            lemma_auto_spec_u128_to_from_le_bytes();
        }
        if (v as u128) <= 0xffffffffffffffffffffffffffffffffu128 {
            Ok(Self::from_primitive(v as u128))
        } else {
            Err(SplPodError::ValueOutOfRange)
        }
    }
}


impl PodItem for PodBool {
    open spec fn spec_size() -> nat {
        1
    }

    open spec fn spec_align() -> nat {
        1
    }

    open spec fn enc(self) -> Seq<u8> {
        seq![self.0]
    }

    proof fn lemma_align_pos() {
    }

    proof fn lemma_enc_len(self) {
    }

    proof fn lemma_enc_injective(self, other: Self) {
        if self.enc() == other.enc() {
            assert(self.enc()[0] == other.enc()[0]);
        }
    }

    fn packed_len() -> (r: usize) {
        1
    }

    fn packed_align() -> (r: usize) {
        1
    }

    fn to_bytes(&self) -> (r: Vec<u8>) {
        let mut v: Vec<u8> = Vec::new();
        v.push(self.0);
        proof {
            assert(v@ =~= self.enc());
        }
        v
    }

    fn from_bytes(bytes: &[u8]) -> (r: Self) {
        let r = PodBool(bytes[0]);
        proof {
            assert(r.enc() =~= bytes@);
        }
        r
    }
}


impl PodItem for PodI16 {
    open spec fn spec_size() -> nat {
        2
    }

    open spec fn spec_align() -> nat {
        1
    }

    open spec fn enc(self) -> Seq<u8> {
        self.0@
    }

    proof fn lemma_align_pos() {
    }

    proof fn lemma_enc_len(self) {
    }

    proof fn lemma_enc_injective(self, other: Self) {
        if self.enc() == other.enc() {
            assert(self.0 =~= other.0);
        }
    }

    fn packed_len() -> (r: usize) {
        2
    }

    fn packed_align() -> (r: usize) {
        1
    }

    fn to_bytes(&self) -> (r: Vec<u8>) {
        let mut v: Vec<u8> = Vec::new();
        let mut i: usize = 0;
        while i < 2
            invariant
                v@.len() == i,
                0 <= i <= 2,
                forall|j: int| 0 <= j < i ==> v@[j] == self.0@[j],
            decreases 2 - i,
        {
            v.push(self.0[i]);
            i += 1;
        }
        proof {
            assert(v@ =~= self.0@);
        }
        v
    }

    fn from_bytes(bytes: &[u8]) -> (r: Self) {
        let r = Self([bytes[0], bytes[1]]);
        proof {
            assert(r.0@ =~= bytes@);
        }
        r
    }
}


impl PodItem for PodI64 {
    open spec fn spec_size() -> nat {
        8
    }

    open spec fn spec_align() -> nat {
        1
    }

    open spec fn enc(self) -> Seq<u8> {
        self.0@
    }

    proof fn lemma_align_pos() {
    }

    proof fn lemma_enc_len(self) {
    }

    proof fn lemma_enc_injective(self, other: Self) {
        if self.enc() == other.enc() {
            assert(self.0 =~= other.0);
        }
    }

    fn packed_len() -> (r: usize) {
        8
    }

    fn packed_align() -> (r: usize) {
        1
    }

    fn to_bytes(&self) -> (r: Vec<u8>) {
        let mut v: Vec<u8> = Vec::new();
        let mut i: usize = 0;
        while i < 8
            invariant
                v@.len() == i,
                0 <= i <= 8,
                forall|j: int| 0 <= j < i ==> v@[j] == self.0@[j],
            decreases 8 - i,
        {
            v.push(self.0[i]);
            i += 1;
        }
        proof {
            assert(v@ =~= self.0@);
        }
        v
    }

    fn from_bytes(bytes: &[u8]) -> (r: Self) {
        let r = Self([bytes[0], bytes[1], bytes[2], bytes[3], bytes[4], bytes[5], bytes[6], bytes[7]]);
        proof {
            assert(r.0@ =~= bytes@);
        }
        r
    }
}

} // verus!
