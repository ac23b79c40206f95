//! The mutable list view: owns a prefixed record buffer and edits it in
//! place.

use crate::error::{spec_pod_err, ProgramError, SplPodError};
use crate::item::{PodItem, PodLength};
use crate::layout::{
    encodes, read_count_prefix, shift_chunks_left, spec_capacity_of, spec_chunk, spec_chunks,
    spec_stored_count, splice, write_count_prefix,
};
use crate::list_view::spec_data_start;
use crate::pods::PodU32;
use vstd::arithmetic::mul::lemma_mul_inequality;
use vstd::prelude::*;

verus! {

/// A mutable, capacity-bounded run of records inside an owned byte
/// buffer.
#[derive(Debug)]
pub struct ListViewMut<T: PodItem, L: PodLength = PodU32> {
    data: Vec<u8>,
    start: usize,
    capacity: usize,
    item: core::marker::PhantomData<T>,
    length: core::marker::PhantomData<L>,
}

impl<T: PodItem, L: PodLength> ListViewMut<T, L> {
    /// The bytes of the backing buffer.
    pub closed spec fn spec_bytes(&self) -> Seq<u8> {
        self.data@
    }

    /// The stored record count.
    pub closed spec fn spec_count(&self) -> nat {
        spec_stored_count::<L>(self.data@)
    }

    /// The record capacity of the backing buffer.
    pub closed spec fn spec_capacity(&self) -> nat {
        self.capacity as nat
    }

    /// The byte chunks of the stored records, in stored order.
    pub closed spec fn spec_chunks_stored(&self) -> Seq<Seq<u8>> {
        spec_chunks(
            self.data@,
            self.start as int,
            T::spec_size() as int,
            self.spec_count() as int,
        )
    }

    /// The buffer's layout is sound: prefix and padding fit, and the data
    /// region divides evenly into records.
    pub closed spec fn wf_layout(&self) -> bool {
        let size = T::spec_size() as int;
        &&& size > 0
        &&& self.start as int == spec_data_start::<T, L>()
        &&& L::spec_align() == 1
        &&& self.data@.len() >= self.start
        &&& self.capacity as int == spec_capacity_of(
            self.data@.len() as int,
            self.start as int,
            size,
        )
        &&& (self.capacity as int) * size == self.data@.len() - self.start
    }

    /// The buffer is a well-formed list: sound layout, and the stored
    /// count is within capacity.
    pub closed spec fn wf(&self) -> bool {
        &&& self.wf_layout()
        &&& self.spec_count() <= self.spec_capacity()
    }

    /// Assemble a view over a buffer whose layout has been validated.
    pub(crate) fn make(data: Vec<u8>, start: usize, capacity: usize) -> (r: Self)
        requires
            T::spec_size() > 0,
            start as int == spec_data_start::<T, L>(),
            L::spec_align() == 1,
            data@.len() >= start,
            capacity as int == spec_capacity_of(
                data@.len() as int,
                start as int,
                T::spec_size() as int,
            ),
            (capacity as int) * T::spec_size() == data@.len() - start,
        ensures
            r.wf_layout(),
            r.spec_bytes() == data@,
            r.spec_capacity() == capacity,
    {
        ListViewMut {
            data,
            start,
            capacity,
            item: core::marker::PhantomData,
            length: core::marker::PhantomData,
        }
    }

    /// A well-formed view stores at most its capacity.
    pub proof fn lemma_wf_bounds(&self)
        requires
            self.wf(),
        ensures
            self.spec_count() <= self.spec_capacity(),
    {
    }

    /// A view with a sound layout whose stored count is within capacity
    /// is well-formed.
    pub proof fn lemma_wf_from_count(&self)
        requires
            self.wf_layout(),
            self.spec_count() <= self.spec_capacity(),
        ensures
            self.wf(),
    {
    }

    /// How the view's stored chunks and count read off its backing
    /// bytes.
    pub proof fn lemma_chunks_form(&self)
        requires
            self.wf_layout(),
        ensures
            self.spec_count() == spec_stored_count::<L>(self.spec_bytes()),
            self.spec_chunks_stored() == spec_chunks(
                self.spec_bytes(),
                spec_data_start::<T, L>(),
                T::spec_size() as int,
                self.spec_count() as int,
            ),
    {
    }

    /// The stored count, or `BufferTooSmall` when it cannot fit the
    /// buffer (it then exceeds `usize`).
    pub(crate) fn stored_count_or_too_small(&self) -> (r: Result<usize, SplPodError>)
        requires
            self.wf_layout(),
        ensures
            match r {
                Ok(v) => v == self.spec_count(),
                Err(e) => e == SplPodError::BufferTooSmall && self.spec_count() > usize::MAX,
            },
    {
        proof {
            L::lemma_align_pos();
            assert(L::spec_size() <= self.start as int);
        }
        match read_count_prefix::<L>(self.data.as_slice()) {
            Some(v) => Ok(v),
            None => Err(SplPodError::BufferTooSmall),
        }
    }

    /// Reset the stored count to zero.
    pub(crate) fn reset_count(&mut self) -> (r: Result<(), SplPodError>)
        requires
            old(self).wf_layout(),
        ensures
            r is Ok,
            final(self).wf(),
            final(self).spec_count() == 0,
            final(self).spec_capacity() == old(self).spec_capacity(),
            final(self).spec_bytes().len() == old(self).spec_bytes().len(),
            final(self).spec_bytes().skip(L::spec_size() as int) == old(self).spec_bytes().skip(
                L::spec_size() as int,
            ),
    {
        proof {
            assert(L::spec_size() <= self.start as int);
        }
        match write_count_prefix::<L>(&mut self.data, 0) {
            Ok(()) => Ok(()),
            Err(e) => {
                proof {
                    assert(false);
                }
                Err(e)
            },
        }
    }

    /// The stored record count.
    pub fn len(&self) -> (r: usize)
        requires
            self.wf(),
        ensures
            r == self.spec_count(),
    {
        match self.stored_count_or_too_small() {
            Ok(v) => v,
            Err(_) => {
                proof {
                    assert(false);
                }
                0
            },
        }
    }

    /// Whether no records are stored.
    pub fn is_empty(&self) -> (r: bool)
        requires
            self.wf(),
        ensures
            r == (self.spec_count() == 0),
    {
        self.len() == 0
    }

    /// The record capacity of the backing buffer.
    pub fn capacity(&self) -> (r: usize)
        ensures
            r == self.spec_capacity(),
    {
        self.capacity
    }

    /// Append a record, failing when the buffer is full.
    pub fn push(&mut self, item: T) -> (r: Result<(), ProgramError>)
        requires
            old(self).wf(),
        ensures
            final(self).wf(),
            old(self).spec_count() < old(self).spec_capacity() && old(self).spec_count()
                < L::spec_max() ==> {
                &&& r is Ok
                &&& final(self).spec_chunks_stored() == old(self).spec_chunks_stored().push(
                    item.enc(),
                )
                &&& final(self).spec_count() == old(self).spec_count() + 1
                &&& final(self).spec_capacity() == old(self).spec_capacity()
                &&& final(self).spec_bytes().len() == old(self).spec_bytes().len()
            },
            old(self).spec_count() >= old(self).spec_capacity() ==> r == Err::<(), ProgramError>(
                spec_pod_err(SplPodError::BufferTooSmall),
            ) && *final(self) == *old(self),
            old(self).spec_count() < old(self).spec_capacity() && old(self).spec_count()
                >= L::spec_max() ==> r == Err::<(), ProgramError>(
                spec_pod_err(SplPodError::ValueOutOfRange),
            ) && *final(self) == *old(self),
    {
        let count = match self.stored_count_or_too_small() {
            Ok(v) => v,
            Err(_) => {
                proof {
                    assert(false);
                }
                return Err(ProgramError::from(SplPodError::BufferTooSmall));
            },
        };
        if count >= self.capacity {
            return Err(ProgramError::from(SplPodError::BufferTooSmall));
        }
        match L::from_len(count + 1) {
            Ok(_) => (),
            Err(_) => {
                return Err(ProgramError::from(SplPodError::ValueOutOfRange));
            },
        }
        let size = T::packed_len();
        let dlen = self.data.len();
        proof {
            lemma_mul_inequality(count + 1 as int, self.capacity as int, size as int);
            assert(count * size >= 0) by (nonlinear_arith)
                requires
                    count >= 0,
                    size > 0,
            ;
            assert((count + 1) * size == count * size + size) by (nonlinear_arith);
            item.lemma_enc_len();
        }
        let ghost pre = self.data@;
        let off = self.start + count * size;
        let bytes = item.to_bytes();
        splice(&mut self.data, off, bytes.as_slice());
        let ghost mid = self.data@;
        match write_count_prefix::<L>(&mut self.data, count + 1) {
            Ok(()) => (),
            Err(_) => {
                proof {
                    assert(false);
                }
                return Err(ProgramError::from(SplPodError::ValueOutOfRange));
            },
        }
        proof {
            let start = self.start as int;
            let sz = T::spec_size() as int;
            let cnt = count as int;
            let len = pre.len() as int;
            crate::layout::lemma_chunks_outside_splice(
                pre,
                mid,
                start,
                sz,
                cnt,
                start + cnt * sz,
                sz,
            );
            assert(L::spec_size() <= start);
            assert forall|b: int| 0 <= b < mid.len() && !(0 <= b < L::spec_size()) implies self.data@[b]
                == mid[b] by {
                assert(self.data@.subrange(L::spec_size() as int, len)[b - L::spec_size()]
                    == mid.subrange(L::spec_size() as int, len)[b - L::spec_size()]);
            }
            crate::layout::lemma_chunks_outside_splice(
                mid,
                self.data@,
                start,
                sz,
                cnt + 1,
                0,
                start,
            );
            assert(spec_chunk(mid, start, sz, cnt) =~= item.enc());
            assert(spec_chunk(self.data@, start, sz, cnt) == spec_chunk(mid, start, sz, cnt));
            assert(self.spec_chunks_stored() =~= old(self).spec_chunks_stored().push(item.enc()));
        }
        Ok(())
    }

    /// Remove and return the record at `index`, shifting all later
    /// records one position down.
    pub fn remove(&mut self, index: usize) -> (r: Result<T, ProgramError>)
        requires
            old(self).wf(),
        ensures
            final(self).wf(),
            index < old(self).spec_count() ==> {
                &&& (r matches Ok(x) && x.enc() == old(self).spec_chunks_stored()[index as int])
                &&& final(self).spec_chunks_stored() == old(self).spec_chunks_stored().remove(
                    index as int,
                )
                &&& final(self).spec_count() == old(self).spec_count() - 1
                &&& final(self).spec_capacity() == old(self).spec_capacity()
                &&& final(self).spec_bytes().len() == old(self).spec_bytes().len()
            },
            index >= old(self).spec_count() ==> r == Err::<T, ProgramError>(
                ProgramError::InvalidArgument,
            ) && *final(self) == *old(self),
    {
        let count = match self.stored_count_or_too_small() {
            Ok(v) => v,
            Err(_) => {
                proof {
                    assert(false);
                }
                return Err(ProgramError::InvalidArgument);
            },
        };
        if index >= count {
            return Err(ProgramError::InvalidArgument);
        }
        let size = T::packed_len();
        let dlen = self.data.len();
        proof {
            lemma_mul_inequality(count as int, self.capacity as int, size as int);
            lemma_mul_inequality(index + 1 as int, count as int, size as int);
            assert(index * size >= 0) by (nonlinear_arith)
                requires
                    index >= 0,
                    size > 0,
            ;
            assert((index + 1) * size == index * size + size) by (nonlinear_arith);
        }
        let off = self.start + index * size;
        let removed = T::from_bytes(vstd::slice::slice_subrange(
            self.data.as_slice(),
            off,
            off + size,
        ));
        proof {
            assert(removed.enc() =~= spec_chunk(self.data@, self.start as int, size as int, index as int));
        }
        proof {
            L::lemma_len_bound(crate::layout::spec_prefix::<L>(self.data@));
        }
        let ghost pre = self.data@;
        shift_chunks_left(&mut self.data, self.start, size, index, count);
        let ghost mid = self.data@;
        match write_count_prefix::<L>(&mut self.data, count - 1) {
            Ok(()) => (),
            Err(_) => {
                proof {
                    assert(false);
                }
                return Err(ProgramError::InvalidArgument);
            },
        }
        proof {
            let start = self.start as int;
            let sz = T::spec_size() as int;
            let cnt = count as int;
            let idx = index as int;
            let len = pre.len() as int;
            assert(L::spec_size() <= start);
            assert forall|b: int| 0 <= b < mid.len() && !(0 <= b < L::spec_size()) implies self.data@[b]
                == mid[b] by {
                assert(self.data@.subrange(L::spec_size() as int, len)[b - L::spec_size()]
                    == mid.subrange(L::spec_size() as int, len)[b - L::spec_size()]);
            }
            assert forall|k: int| 0 <= k < cnt - 1 implies spec_chunk(self.data@, start, sz, k)
                == old(self).spec_chunks_stored().remove(idx)[k] by {
                assert(k * size >= 0) by (nonlinear_arith)
                    requires
                        k >= 0,
                        size > 0,
                ;
                assert((k + 1) * size == k * size + size) by (nonlinear_arith);
                lemma_mul_inequality(k + 1, cnt, sz);
                if k < idx {
                    assert(k * size + size <= idx * size) by (nonlinear_arith)
                        requires
                            k < idx,
                            size > 0,
                    ;
                    assert(spec_chunk(mid, start, sz, k) =~= spec_chunk(pre, start, sz, k));
                    assert(spec_chunk(self.data@, start, sz, k) =~= spec_chunk(mid, start, sz, k));
                } else {
                    assert(spec_chunk(mid, start, sz, k) == spec_chunk(pre, start, sz, k + 1));
                    assert(spec_chunk(self.data@, start, sz, k) =~= spec_chunk(mid, start, sz, k));
                }
            }
            assert(self.spec_chunks_stored() =~= old(self).spec_chunks_stored().remove(idx));
        }
        Ok(removed)
    }

    /// Zero-fill the free slot right past the stored records.
    pub(crate) fn zero_slot_at_count(&mut self) -> (r: Result<(), ProgramError>)
        requires
            old(self).wf(),
            old(self).spec_count() < old(self).spec_capacity(),
        ensures
            r is Ok,
            final(self).wf(),
            final(self).spec_chunks_stored() == old(self).spec_chunks_stored(),
            final(self).spec_count() == old(self).spec_count(),
            final(self).spec_capacity() == old(self).spec_capacity(),
            final(self).spec_bytes().len() == old(self).spec_bytes().len(),
            spec_chunk(
                final(self).spec_bytes(),
                spec_data_start::<T, L>(),
                T::spec_size() as int,
                old(self).spec_count() as int,
            ) == Seq::new(T::spec_size(), |i: int| 0u8),
    {
        let count = match self.stored_count_or_too_small() {
            Ok(v) => v,
            Err(_) => {
                proof {
                    assert(false);
                }
                return Err(ProgramError::InvalidArgument);
            },
        };
        let size = T::packed_len();
        let dlen = self.data.len();
        proof {
            lemma_mul_inequality(count + 1 as int, self.capacity as int, size as int);
            assert(count * size >= 0) by (nonlinear_arith)
                requires
                    count >= 0,
                    size > 0,
            ;
            assert((count + 1) * size == count * size + size) by (nonlinear_arith);
            assert(self.start + count * size + size <= dlen);
        }
        let ghost pre = self.data@;
        let off = self.start + count * size;
        let zeros: Vec<u8> = vec![0u8; size];
        splice(&mut self.data, off, zeros.as_slice());
        proof {
            let start = self.start as int;
            let sz = T::spec_size() as int;
            let cnt = count as int;
            assert(spec_stored_count::<L>(self.data@) == spec_stored_count::<L>(pre)) by {
                assert(L::spec_size() <= start);
                assert(crate::layout::spec_prefix::<L>(self.data@) =~= crate::layout::spec_prefix::<
                    L,
                >(pre));
            }
            crate::layout::lemma_chunks_outside_splice(
                pre,
                self.data@,
                start,
                sz,
                cnt,
                start + cnt * sz,
                sz,
            );
            assert(spec_chunk(self.data@, start, sz, cnt) =~= Seq::new(T::spec_size(), |i: int| 0u8));
        }
        Ok(())
    }

    /// Decode the record at `index`.
    pub fn item(&self, index: usize) -> (r: T)
        requires
            self.wf(),
            index < self.spec_count(),
        ensures
            r.enc() == self.spec_chunks_stored()[index as int],
    {
        let count = match self.stored_count_or_too_small() {
            Ok(v) => v,
            Err(_) => {
                proof {
                    assert(false);
                }
                0
            },
        };
        let size = T::packed_len();
        let dlen = self.data.len();
        proof {
            lemma_mul_inequality(count as int, self.capacity as int, size as int);
            lemma_mul_inequality(index + 1 as int, count as int, size as int);
            assert(index * size >= 0) by (nonlinear_arith)
                requires
                    index >= 0,
                    size > 0,
            ;
            assert((index + 1) * size == index * size + size) by (nonlinear_arith);
            assert(self.start + index * size + size <= dlen);
        }
        let off = self.start + index * size;
        let r = T::from_bytes(vstd::slice::slice_subrange(self.data.as_slice(), off, off + size));
        proof {
            assert(r.enc() =~= spec_chunk(
                self.data@,
                self.start as int,
                size as int,
                index as int,
            ));
        }
        r
    }

    /// Decode the record at `index`, or `None` past the stored count.
    pub fn get(&self, index: usize) -> (r: Option<T>)
        requires
            self.wf(),
        ensures
            match r {
                Some(x) => index < self.spec_count() && x.enc()
                    == self.spec_chunks_stored()[index as int],
                None => index >= self.spec_count(),
            },
    {
        if index < self.len() {
            Some(self.item(index))
        } else {
            None
        }
    }

    /// Overwrite the record at `index`.
    pub fn set(&mut self, index: usize, item: T) -> (r: Result<(), ProgramError>)
        requires
            old(self).wf(),
        ensures
            final(self).wf(),
            index < old(self).spec_count() ==> {
                &&& r is Ok
                &&& final(self).spec_chunks_stored() == old(self).spec_chunks_stored().update(
                    index as int,
                    item.enc(),
                )
                &&& final(self).spec_count() == old(self).spec_count()
                &&& final(self).spec_capacity() == old(self).spec_capacity()
                &&& final(self).spec_bytes().len() == old(self).spec_bytes().len()
            },
            index >= old(self).spec_count() ==> r == Err::<(), ProgramError>(
                ProgramError::InvalidArgument,
            ) && *final(self) == *old(self),
    {
        let count = match self.stored_count_or_too_small() {
            Ok(v) => v,
            Err(_) => {
                proof {
                    assert(false);
                }
                return Err(ProgramError::InvalidArgument);
            },
        };
        if index >= count {
            return Err(ProgramError::InvalidArgument);
        }
        let size = T::packed_len();
        let dlen = self.data.len();
        proof {
            lemma_mul_inequality(count as int, self.capacity as int, size as int);
            lemma_mul_inequality(index + 1 as int, count as int, size as int);
            assert(index * size >= 0) by (nonlinear_arith)
                requires
                    index >= 0,
                    size > 0,
            ;
            assert((index + 1) * size == index * size + size) by (nonlinear_arith);
            item.lemma_enc_len();
            assert(self.start + index * size + size <= dlen);
        }
        let ghost pre = self.data@;
        let off = self.start + index * size;
        let bytes = item.to_bytes();
        splice(&mut self.data, off, bytes.as_slice());
        proof {
            let start = self.start as int;
            let sz = T::spec_size() as int;
            let cnt = count as int;
            let idx = index as int;
            assert(spec_stored_count::<L>(self.data@) == spec_stored_count::<L>(pre)) by {
                assert(L::spec_size() <= start);
                assert(crate::layout::spec_prefix::<L>(self.data@) =~= crate::layout::spec_prefix::<
                    L,
                >(pre));
            }
            assert forall|k: int| 0 <= k < cnt implies spec_chunk(self.data@, start, sz, k)
                == old(self).spec_chunks_stored().update(idx, item.enc())[k] by {
                assert(k * size >= 0) by (nonlinear_arith)
                    requires
                        k >= 0,
                        size > 0,
                ;
                assert((k + 1) * size == k * size + size) by (nonlinear_arith);
                lemma_mul_inequality(k + 1, cnt, sz);
                if k < idx {
                    assert(k * size + size <= idx * size) by (nonlinear_arith)
                        requires
                            k < idx,
                            size > 0,
                    ;
                    assert(spec_chunk(self.data@, start, sz, k) =~= spec_chunk(pre, start, sz, k));
                } else if k == idx {
                    assert(spec_chunk(self.data@, start, sz, k) =~= item.enc());
                } else {
                    assert(idx * size + size <= k * size) by (nonlinear_arith)
                        requires
                            idx < k,
                            size > 0,
                    ;
                    assert(spec_chunk(self.data@, start, sz, k) =~= spec_chunk(pre, start, sz, k));
                }
            }
            assert(self.spec_chunks_stored() =~= old(self).spec_chunks_stored().update(
                idx,
                item.enc(),
            ));
        }
        Ok(())
    }

    /// Decode every stored record, in stored order.
    pub fn to_vec(&self) -> (r: Vec<T>)
        requires
            self.wf(),
        ensures
            encodes(r@, self.spec_chunks_stored()),
    {
        let count = self.len();
        let size = T::packed_len();
        proof {
            lemma_mul_inequality(count as int, self.capacity as int, size as int);
        }
        crate::layout::read_chunks::<T>(self.data.as_slice(), self.start, count)
    }

    /// Hand the backing buffer back.
    pub fn into_buffer(self) -> (r: Vec<u8>)
        ensures
            r@ == self.spec_bytes(),
    {
        self.data
    }
}

} // verus!
