//! Views over a byte buffer that holds a `u32` record count followed by a
//! packed run of fixed-size records.

use crate::error::{spec_pod_err, ProgramError, SplPodError};
use crate::item::{PodItem, PodLength};
use crate::layout::{
    encodes, lemma_chunk_fits, lemma_chunks_outside_splice, read_chunks, read_count_prefix,
    spec_chunk, spec_chunks, spec_stored_count, splice, write_count_prefix,
};
use crate::pods::PodU32;
use vstd::arithmetic::div_mod::lemma_fundamental_div_mod;
use vstd::arithmetic::mul::lemma_mul_inequality;
use vstd::prelude::*;

verus! {

/// Number of bytes the `u32` record count occupies.
pub const LENGTH_SIZE: usize = 4;

/// The number of whole records of `item_size` bytes that fit in
/// `data_len` bytes, provided the count `length_val` fits and the buffer
/// divides evenly into records.
pub open spec fn spec_max_len_for_type(data_len: int, length_val: int, item_size: int) -> Result<
    int,
    ProgramError,
> {
    if item_size <= 0 {
        Err(spec_pod_err(SplPodError::CalculationFailure))
    } else {
        let max_len = data_len / item_size;
        if max_len < length_val {
            Err(spec_pod_err(SplPodError::BufferTooSmall))
        } else if max_len * item_size != data_len {
            if max_len == 0 {
                Err(spec_pod_err(SplPodError::BufferTooSmall))
            } else {
                Err(spec_pod_err(SplPodError::BufferTooLarge))
            }
        } else {
            Ok(max_len)
        }
    }
}

/// The record capacity of a buffer of `data_len` bytes holding records of
/// `item_size` bytes, where `length_val` records are claimed to be stored.
///
/// Fails when the count does not fit, or when the buffer is not an exact
/// run of records (over- or under-allocated).
pub fn max_len_for_type<T: PodItem>(data_len: usize, length_val: usize) -> (r: Result<
    usize,
    ProgramError,
>)
    ensures
        ({
            let s = spec_max_len_for_type(data_len as int, length_val as int, T::spec_size() as int);
            match (r, s) {
                (Ok(v), Ok(w)) => v as int == w,
                (Err(e), Err(f)) => e == f,
                _ => false,
            }
        }),
{
    let item_size = T::packed_len();
    if item_size == 0 {
        return Err(ProgramError::from(SplPodError::CalculationFailure));
    }
    let max_len = data_len / item_size;
    if max_len < length_val {
        return Err(ProgramError::from(SplPodError::BufferTooSmall));
    }
    proof {
        lemma_fundamental_div_mod(data_len as int, item_size as int);
        lemma_mul_inequality(
            data_len as int / item_size as int,
            data_len as int / item_size as int,
            item_size as int,
        );
    }
    if max_len * item_size != data_len {
        if max_len == 0 {
            return Err(ProgramError::from(SplPodError::BufferTooSmall));
        } else {
            return Err(ProgramError::from(SplPodError::BufferTooLarge));
        }
    }
    Ok(max_len)
}

/// Everything the stored form of a record run determines: on success, the
/// byte chunks of the stored records, in stored order.
pub open spec fn spec_pod_slice_unpack<T: PodItem>(bytes: Seq<u8>) -> Result<
    Seq<Seq<u8>>,
    ProgramError,
> {
    if bytes.len() < LENGTH_SIZE {
        Err(spec_pod_err(SplPodError::BufferTooSmall))
    } else {
        let count = spec_stored_count::<PodU32>(bytes) as int;
        match spec_max_len_for_type(
            bytes.len() - LENGTH_SIZE,
            count,
            T::spec_size() as int,
        ) {
            Ok(max_len) => Ok(
                spec_chunks(bytes, LENGTH_SIZE as int, T::spec_size() as int, count),
            ),
            Err(e) => Err(e),
        }
    }
}

/// A read-only unpacked record run: the stored records, decoded.
#[derive(Debug)]
pub struct PodSlice<T: PodItem> {
    items: Vec<T>,
}

impl<T: PodItem> PodSlice<T> {
    /// The decoded records.
    pub closed spec fn spec_items(&self) -> Seq<T> {
        self.items@
    }

    /// Unpack the buffer into its stored records.
    pub fn unpack(data: &[u8]) -> (r: Result<Self, ProgramError>)
        ensures
            match (r, spec_pod_slice_unpack::<T>(data@)) {
                (Ok(s), Ok(chunks)) => encodes(s.spec_items(), chunks),
                (Err(e), Err(f)) => e == f,
                _ => false,
            },
    {
        if data.len() < LENGTH_SIZE {
            return Err(ProgramError::from(SplPodError::BufferTooSmall));
        }
        let count = match read_count_prefix::<PodU32>(data) {
            Some(v) => v,
            None => {
                proof {
                    PodU32::lemma_len_bound(crate::layout::spec_prefix::<PodU32>(data@));
                }
                return Err(ProgramError::from(SplPodError::BufferTooSmall));
            },
        };
        let max_len = max_len_for_type::<T>(data.len() - LENGTH_SIZE, count)?;
        proof {
            let size = T::spec_size() as int;
            lemma_fundamental_div_mod(data@.len() - LENGTH_SIZE, size);
            lemma_mul_inequality(count as int, max_len as int, size);
        }
        let items = read_chunks::<T>(data, LENGTH_SIZE, count);
        Ok(PodSlice { items })
    }

    /// The stored records.
    pub fn data(&self) -> (r: &[T])
        ensures
            r@ == self.spec_items(),
    {
        self.items.as_slice()
    }

    /// The number of bytes a run of `num_items` records occupies, count
    /// prefix included.
    pub fn size_of(num_items: usize) -> (r: Result<usize, ProgramError>)
        ensures
            match r {
                Ok(v) => v == LENGTH_SIZE + num_items * T::spec_size() && v <= usize::MAX,
                Err(e) => LENGTH_SIZE + num_items * T::spec_size() > usize::MAX && e
                    == spec_pod_err(SplPodError::CalculationFailure),
            },
    {
        let item_size = T::packed_len();
        match num_items.checked_mul(item_size) {
            Some(v) => match v.checked_add(LENGTH_SIZE) {
                Some(w) => Ok(w),
                None => Err(ProgramError::from(SplPodError::CalculationFailure)),
            },
            None => Err(ProgramError::from(SplPodError::CalculationFailure)),
        }
    }
}

/// A mutable record run: owns the backing buffer and appends records to
/// it in place.
#[derive(Debug)]
pub struct PodSliceMut<T: PodItem> {
    data: Vec<u8>,
    max_length: usize,
    item: core::marker::PhantomData<T>,
}

impl<T: PodItem> PodSliceMut<T> {
    /// The bytes of the backing buffer.
    pub closed spec fn spec_bytes(&self) -> Seq<u8> {
        self.data@
    }

    /// The stored record count.
    pub closed spec fn spec_count(&self) -> nat {
        spec_stored_count::<PodU32>(self.data@)
    }

    /// The record capacity of the backing buffer.
    pub closed spec fn spec_capacity(&self) -> nat {
        self.max_length as nat
    }

    /// The byte chunks of the stored records, in stored order.
    pub closed spec fn spec_chunks_stored(&self) -> Seq<Seq<u8>> {
        spec_chunks(
            self.data@,
            LENGTH_SIZE as int,
            T::spec_size() as int,
            self.spec_count() as int,
        )
    }

    /// The buffer is a well-formed record run.
    pub closed spec fn wf(&self) -> bool {
        let size = T::spec_size() as int;
        &&& size > 0
        &&& self.data@.len() >= LENGTH_SIZE
        &&& self.max_length as int == (self.data@.len() - LENGTH_SIZE) / size
        &&& (self.max_length as int) * size == self.data@.len() - LENGTH_SIZE
        &&& self.spec_count() <= self.max_length
    }

    /// Unpack a buffer, optionally resetting the stored count to zero
    /// first.
    fn unpack_internal(data: Vec<u8>, init: bool) -> (r: Result<Self, ProgramError>)
        ensures
            match r {
                Ok(s) => {
                    &&& s.wf()
                    &&& s.spec_bytes().len() == data@.len()
                    &&& s.spec_bytes().skip(LENGTH_SIZE as int) == data@.skip(LENGTH_SIZE as int)
                    &&& if init {
                        s.spec_count() == 0
                    } else {
                        s.spec_bytes() == data@
                    }
                    &&& spec_pod_slice_mut_accept::<T>(data@, init) is Ok
                },
                Err(e) => spec_pod_slice_mut_accept::<T>(data@, init) == Err::<(), ProgramError>(e),
            },
    {
        if data.len() < LENGTH_SIZE {
            return Err(ProgramError::from(SplPodError::BufferTooSmall));
        }
        let mut data = data;
        if init {
            match write_count_prefix::<PodU32>(&mut data, 0) {
                Ok(()) => (),
                Err(_) => {
                    proof {
                        assert(false);
                    }
                    return Err(ProgramError::from(SplPodError::CalculationFailure));
                },
            }
        }
        let count = match read_count_prefix::<PodU32>(data.as_slice()) {
            Some(v) => v,
            None => {
                proof {
                    PodU32::lemma_len_bound(crate::layout::spec_prefix::<PodU32>(data@));
                }
                return Err(ProgramError::from(SplPodError::BufferTooSmall));
            },
        };
        let max_length = max_len_for_type::<T>(data.len() - LENGTH_SIZE, count)?;
        Ok(PodSliceMut { data, max_length, item: core::marker::PhantomData })
    }

    /// Unpack a buffer whose stored count is kept.
    pub fn unpack(data: Vec<u8>) -> (r: Result<Self, ProgramError>)
        ensures
            match r {
                Ok(s) => {
                    &&& s.wf()
                    &&& s.spec_bytes() == data@
                },
                Err(e) => spec_pod_slice_mut_accept::<T>(data@, false) == Err::<
                    (),
                    ProgramError,
                >(e),
            },
            r is Ok <==> spec_pod_slice_mut_accept::<T>(data@, false) is Ok,
    {
        Self::unpack_internal(data, false)
    }

    /// Unpack a buffer and reset its stored count to zero.
    pub fn init(data: Vec<u8>) -> (r: Result<Self, ProgramError>)
        ensures
            match r {
                Ok(s) => {
                    &&& s.wf()
                    &&& s.spec_count() == 0
                    &&& s.spec_bytes().len() == data@.len()
                    &&& s.spec_bytes().skip(LENGTH_SIZE as int) == data@.skip(LENGTH_SIZE as int)
                },
                Err(e) => spec_pod_slice_mut_accept::<T>(data@, true) == Err::<(), ProgramError>(e),
            },
            r is Ok <==> spec_pod_slice_mut_accept::<T>(data@, true) is Ok,
    {
        Self::unpack_internal(data, true)
    }

    /// Append a record, failing when the buffer is full.
    pub fn push(&mut self, t: T) -> (r: Result<(), ProgramError>)
        requires
            old(self).wf(),
        ensures
            final(self).wf(),
            old(self).spec_count() < old(self).spec_capacity() && old(self).spec_count()
                < 0xffffffff ==> {
                &&& r is Ok
                &&& final(self).spec_chunks_stored() == old(self).spec_chunks_stored().push(t.enc())
                &&& final(self).spec_count() == old(self).spec_count() + 1
                &&& final(self).spec_capacity() == old(self).spec_capacity()
                &&& final(self).spec_bytes().len() == old(self).spec_bytes().len()
            },
            old(self).spec_count() >= old(self).spec_capacity() ==> r == Err::<(), ProgramError>(
                spec_pod_err(SplPodError::BufferTooSmall),
            ) && *final(self) == *old(self),
            old(self).spec_count() < old(self).spec_capacity() && old(self).spec_count()
                >= 0xffffffff ==> r == Err::<(), ProgramError>(
                spec_pod_err(SplPodError::ValueOutOfRange),
            ) && *final(self) == *old(self),
    {
        let count = match read_count_prefix::<PodU32>(self.data.as_slice()) {
            Some(v) => v,
            None => {
                proof {
                    PodU32::lemma_len_bound(crate::layout::spec_prefix::<PodU32>(self.data@));
                }
                return Err(ProgramError::from(SplPodError::BufferTooSmall));
            },
        };
        if count == self.max_length {
            return Err(ProgramError::from(SplPodError::BufferTooSmall));
        }
        if count >= 0xffffffffusize {
            return Err(ProgramError::from(SplPodError::ValueOutOfRange));
        }
        let size = T::packed_len();
        let dlen = self.data.len();
        proof {
            lemma_chunk_fits(
                self.data@.len() as int,
                LENGTH_SIZE as int,
                size as int,
                count as int,
            );
            t.lemma_enc_len();
            assert(LENGTH_SIZE + count * size + size <= dlen);
        }
        let ghost pre = self.data@;
        let off = LENGTH_SIZE + count * size;
        let bytes = t.to_bytes();
        splice(&mut self.data, off, bytes.as_slice());
        let ghost mid = self.data@;
        match write_count_prefix::<PodU32>(&mut self.data, count + 1) {
            Ok(()) => (),
            Err(_) => {
                proof {
                    assert(false);
                }
                return Err(ProgramError::from(SplPodError::CalculationFailure));
            },
        }
        proof {
            let size = T::spec_size() as int;
            let start = LENGTH_SIZE as int;
            let cnt = count as int;
            let len = pre.len() as int;
            lemma_chunks_outside_splice(pre, mid, start, size, cnt, start + cnt * size, size);
            assert forall|j: int| 0 <= j < mid.len() && !(0 <= j < start) implies self.data@[j]
                == mid[j] by {
                assert(self.data@.subrange(start, len)[j - start] == mid.subrange(start, len)[j
                    - start]);
            }
            lemma_chunks_outside_splice(mid, self.data@, start, size, cnt + 1, 0, start);
            assert(spec_chunk(mid, start, size, cnt) =~= t.enc());
            assert(spec_chunk(self.data@, start, size, cnt) == spec_chunk(mid, start, size, cnt));
            assert(self.spec_chunks_stored() =~= old(self).spec_chunks_stored().push(t.enc()));
        }
        Ok(())
    }

    /// Hand the backing buffer back.
    pub fn into_data(self) -> (r: Vec<u8>)
        ensures
            r@ == self.spec_bytes(),
    {
        self.data
    }
}

/// Whether a buffer is accepted as a mutable record run; on `init` the
/// stored count is reset before validation.
pub open spec fn spec_pod_slice_mut_accept<T: PodItem>(bytes: Seq<u8>, init: bool) -> Result<
    (),
    ProgramError,
> {
    if bytes.len() < LENGTH_SIZE {
        Err(spec_pod_err(SplPodError::BufferTooSmall))
    } else {
        let count: int = if init {
            0
        } else {
            spec_stored_count::<PodU32>(bytes) as int
        };
        match spec_max_len_for_type(bytes.len() - LENGTH_SIZE, count, T::spec_size() as int) {
            Ok(max_len) => Ok(()),
            Err(e) => Err(e),
        }
    }
}

} // verus!
