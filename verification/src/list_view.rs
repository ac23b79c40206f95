//! Entry points for reading and writing a buffer laid out as a length
//! prefix, alignment padding, and a run of fixed-size records.

use crate::error::SplPodError;
use crate::item::{PodItem, PodLength};
use crate::layout::{
    encodes, read_chunks, read_count_prefix, spec_capacity_of, spec_chunks, spec_padding_for,
    spec_stored_count, write_count_prefix,
};
use crate::list_view_mut::ListViewMut;
use crate::list_view_read_only::ListViewReadOnly;
use crate::pods::PodU32;
use vstd::arithmetic::div_mod::lemma_fundamental_div_mod;
use vstd::arithmetic::mul::lemma_mul_inequality;
use vstd::prelude::*;

verus! {

/// Padding kept between the length prefix and the data, or a failure when
/// the prefix type itself carries an alignment requirement.
pub open spec fn spec_header_padding<T: PodItem, L: PodLength>() -> Result<int, SplPodError> {
    if L::spec_align() != 1 {
        Err(SplPodError::InvalidLengthTypeAlignment)
    } else {
        Ok(spec_padding_for(L::spec_size() as int, T::spec_align() as int))
    }
}

/// Byte offset at which the record run starts.
pub open spec fn spec_data_start<T: PodItem, L: PodLength>() -> int {
    L::spec_size() + spec_padding_for(L::spec_size() as int, T::spec_align() as int)
}

/// Total byte size of a buffer holding `n` records: prefix, padding and
/// data; fails when the size does not fit in `usize`.
pub open spec fn spec_list_size_of<T: PodItem, L: PodLength>(n: int) -> Result<int, SplPodError> {
    match spec_header_padding::<T, L>() {
        Err(e) => Err(e),
        Ok(pad) => {
            let total = n * T::spec_size() + L::spec_size() + pad;
            if total <= usize::MAX {
                Ok(total)
            } else {
                Err(SplPodError::CalculationFailure)
            }
        },
    }
}

/// Everything unpacking determines about a stored list: the byte chunks
/// of the stored records and the buffer's record capacity.
pub open spec fn spec_list_unpack<T: PodItem, L: PodLength>(bytes: Seq<u8>) -> Result<
    (Seq<Seq<u8>>, int),
    SplPodError,
> {
    match spec_header_padding::<T, L>() {
        Err(e) => Err(e),
        Ok(pad) => {
            let start = spec_data_start::<T, L>();
            let size = T::spec_size() as int;
            if bytes.len() < start {
                Err(SplPodError::BufferTooSmall)
            } else if size == 0 || (bytes.len() - start) % size != 0 {
                Err(SplPodError::PodCast)
            } else {
                let capacity = spec_capacity_of(bytes.len() as int, start, size);
                let count = spec_stored_count::<L>(bytes) as int;
                if count > capacity {
                    Err(SplPodError::BufferTooSmall)
                } else {
                    Ok((spec_chunks(bytes, start, size, count), capacity))
                }
            }
        },
    }
}

/// A typed reading of a raw byte buffer as a length-prefixed, padded,
/// capacity-bounded run of fixed-size records.
pub struct ListView<T: PodItem, L: PodLength = PodU32> {
    item: core::marker::PhantomData<T>,
    length: core::marker::PhantomData<L>,
}

impl<T: PodItem, L: PodLength> ListView<T, L> {
    /// Padding kept between the length prefix and the data.
    pub fn header_padding() -> (r: Result<usize, SplPodError>)
        ensures
            match (r, spec_header_padding::<T, L>()) {
                (Ok(v), Ok(w)) => v == w,
                (Err(e), Err(f)) => e == f,
                _ => false,
            },
    {
        if L::packed_align() != 1 {
            return Err(SplPodError::InvalidLengthTypeAlignment);
        }
        let length_size = L::packed_len();
        let data_align = T::packed_align();
        if data_align == 0 || data_align == 1 {
            return Ok(0);
        }
        let remainder = length_size % data_align;
        if remainder == 0 {
            Ok(0)
        } else {
            Ok(data_align - remainder)
        }
    }

    /// Total byte size of a buffer holding `num_items` records.
    pub fn size_of(num_items: usize) -> (r: Result<usize, SplPodError>)
        ensures
            match (r, spec_list_size_of::<T, L>(num_items as int)) {
                (Ok(v), Ok(w)) => v == w,
                (Err(e), Err(f)) => e == f,
                _ => false,
            },
    {
        let header_padding = Self::header_padding()?;
        match T::packed_len().checked_mul(num_items) {
            Some(a) => match a.checked_add(L::packed_len()) {
                Some(b) => match b.checked_add(header_padding) {
                    Some(c) => Ok(c),
                    None => Err(SplPodError::CalculationFailure),
                },
                None => Err(SplPodError::CalculationFailure),
            },
            None => Err(SplPodError::CalculationFailure),
        }
    }

    /// Unpack a read-only buffer into its stored records.
    pub fn unpack(buf: &[u8]) -> (r: Result<ListViewReadOnly<T, L>, SplPodError>)
        ensures
            match (r, spec_list_unpack::<T, L>(buf@)) {
                (Ok(v), Ok((chunks, capacity))) => encodes(v.spec_items(), chunks)
                    && v.spec_capacity() == capacity,
                (Err(e), Err(f)) => e == f,
                _ => false,
            },
    {
        let blen = buf.len();
        let pad = Self::header_padding()?;
        let start = match L::packed_len().checked_add(pad) {
            Some(s) => s,
            None => {
                proof {
                    assert(buf@.len() < spec_data_start::<T, L>());
                }
                return Err(SplPodError::BufferTooSmall);
            },
        };
        let size = T::packed_len();
        if blen < start {
            return Err(SplPodError::BufferTooSmall);
        }
        if size == 0 || (blen - start) % size != 0 {
            return Err(SplPodError::PodCast);
        }
        let capacity = (blen - start) / size;
        let count = match read_count_prefix::<L>(buf) {
            Some(v) => v,
            None => {
                proof {
                    L::lemma_len_bound(crate::layout::spec_prefix::<L>(buf@));
                }
                return Err(SplPodError::BufferTooSmall);
            },
        };
        if count > capacity {
            return Err(SplPodError::BufferTooSmall);
        }
        proof {
            let bl = blen as int;
            let st = start as int;
            let sz = size as int;
            lemma_fundamental_div_mod(bl - st, sz);
            assert(sz * (capacity as int) == bl - st);
            assert((count as int) * sz <= (capacity as int) * sz) by (nonlinear_arith)
                requires
                    count as int <= capacity as int,
                    sz >= 0,
            ;
            assert((capacity as int) * sz == sz * (capacity as int)) by (nonlinear_arith);
            assert(start + count * size <= buf@.len());
        }
        let items = read_chunks::<T>(buf, start, count);
        Ok(ListViewReadOnly::make(items, capacity))
    }

    /// Unpack a mutable buffer, keeping its stored count.
    pub fn unpack_mut(buf: Vec<u8>) -> (r: Result<ListViewMut<T, L>, SplPodError>)
        ensures
            match (r, spec_list_unpack::<T, L>(buf@)) {
                (Ok(v), Ok((chunks, capacity))) => {
                    &&& v.wf()
                    &&& v.spec_bytes() == buf@
                    &&& v.spec_chunks_stored() == chunks
                    &&& v.spec_capacity() == capacity
                },
                (Err(e), Err(f)) => e == f,
                _ => false,
            },
    {
        let v = match Self::build_mut_view(buf) {
            Ok(v) => v,
            Err(e) => {
                return Err(e);
            },
        };
        proof {
            v.lemma_chunks_form();
        }
        let cap = v.capacity();
        let count = match v.stored_count_or_too_small() {
            Ok(c) => c,
            Err(e) => {
                return Err(e);
            },
        };
        if count > cap {
            return Err(SplPodError::BufferTooSmall);
        }
        proof {
            v.lemma_wf_from_count();
            v.lemma_chunks_form();
        }
        Ok(v)
    }

    /// Unpack a mutable buffer and reset its stored count to zero.
    pub fn init(buf: Vec<u8>) -> (r: Result<ListViewMut<T, L>, SplPodError>)
        ensures
            match (r, spec_list_init_accept::<T, L>(buf@)) {
                (Ok(v), Ok(capacity)) => {
                    &&& v.wf()
                    &&& v.spec_count() == 0
                    &&& v.spec_capacity() == capacity
                    &&& v.spec_bytes().len() == buf@.len()
                    &&& v.spec_bytes().skip(L::spec_size() as int) == buf@.skip(
                        L::spec_size() as int,
                    )
                },
                (Err(e), Err(f)) => e == f,
                _ => false,
            },
    {
        let mut v = Self::build_mut_view(buf)?;
        match v.reset_count() {
            Ok(()) => Ok(v),
            Err(e) => {
                proof {
                    assert(false);
                }
                Err(e)
            },
        }
    }

    /// Build a mutable view over the buffer, validating only the layout.
    fn build_mut_view(buf: Vec<u8>) -> (r: Result<ListViewMut<T, L>, SplPodError>)
        ensures
            match (r, spec_list_layout_accept::<T, L>(buf@)) {
                (Ok(v), Ok(capacity)) => {
                    &&& v.wf_layout()
                    &&& v.spec_bytes() == buf@
                    &&& v.spec_capacity() == capacity
                },
                (Err(e), Err(f)) => e == f,
                _ => false,
            },
    {
        let blen = buf.len();
        let pad = Self::header_padding()?;
        let start = match L::packed_len().checked_add(pad) {
            Some(s) => s,
            None => {
                proof {
                    assert(buf@.len() < spec_data_start::<T, L>());
                }
                return Err(SplPodError::BufferTooSmall);
            },
        };
        let size = T::packed_len();
        if blen < start {
            return Err(SplPodError::BufferTooSmall);
        }
        if size == 0 || (blen - start) % size != 0 {
            return Err(SplPodError::PodCast);
        }
        let capacity = (blen - start) / size;
        proof {
            let bl = blen as int;
            lemma_fundamental_div_mod(bl - start as int, size as int);
            assert((size as int) * (capacity as int) == bl - start as int);
            assert((capacity as int) * (size as int) == (size as int) * (capacity as int))
                by (nonlinear_arith);
        }
        Ok(ListViewMut::make(buf, start, capacity))
    }
}

/// Whether a buffer has an acceptable layout for records of `T` under a
/// prefix of `L`, and with which record capacity.
pub open spec fn spec_list_layout_accept<T: PodItem, L: PodLength>(bytes: Seq<u8>) -> Result<
    int,
    SplPodError,
> {
    match spec_header_padding::<T, L>() {
        Err(e) => Err(e),
        Ok(pad) => {
            let start = spec_data_start::<T, L>();
            let size = T::spec_size() as int;
            if bytes.len() < start {
                Err(SplPodError::BufferTooSmall)
            } else if size == 0 || (bytes.len() - start) % size != 0 {
                Err(SplPodError::PodCast)
            } else {
                Ok(spec_capacity_of(bytes.len() as int, start, size))
            }
        },
    }
}

/// Whether a buffer is accepted by `init`, which resets the stored count
/// before any count check.
pub open spec fn spec_list_init_accept<T: PodItem, L: PodLength>(bytes: Seq<u8>) -> Result<
    int,
    SplPodError,
> {
    spec_list_layout_accept::<T, L>(bytes)
}

} // verus!
