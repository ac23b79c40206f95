//! The earlier standalone mutable list view, kept with its own interface:
//! a `PodU64`-prefixed record run that is edited in place, and that
//! zero-fills a record's slot when the record is removed.

use crate::error::{spec_pod_err, ProgramError, SplPodError};
use crate::item::{PodItem, PodLength};
use crate::layout::{encodes, spec_chunk};
use crate::list_view::{spec_list_size_of, spec_list_unpack, ListView as LayoutView};
use crate::list_view_mut::ListViewMut;
use crate::pods::PodU64;
use vstd::prelude::*;

verus! {

/// A mutable, capacity-bounded run of records inside an owned byte
/// buffer, prefixed by a `PodU64` count.
#[derive(Debug)]
pub struct ListView<T: PodItem, L: PodLength = PodU64> {
    view: ListViewMut<T, L>,
}

impl<T: PodItem, L: PodLength> ListView<T, L> {
    /// The bytes of the backing buffer.
    pub closed spec fn spec_bytes(&self) -> Seq<u8> {
        self.view.spec_bytes()
    }

    /// The stored record count.
    pub closed spec fn spec_count(&self) -> nat {
        self.view.spec_count()
    }

    /// The record capacity of the backing buffer.
    pub closed spec fn spec_capacity(&self) -> nat {
        self.view.spec_capacity()
    }

    /// The byte chunks of the stored records, in stored order.
    pub closed spec fn spec_chunks_stored(&self) -> Seq<Seq<u8>> {
        self.view.spec_chunks_stored()
    }

    /// The buffer is a well-formed list.
    pub closed spec fn wf(&self) -> bool {
        self.view.wf()
    }

    /// Unpack a mutable buffer, keeping its stored count.
    pub fn unpack(data: Vec<u8>) -> (r: Result<Self, ProgramError>)
        ensures
            match (r, spec_list_unpack::<T, L>(data@)) {
                (Ok(v), Ok((chunks, capacity))) => {
                    &&& v.wf()
                    &&& v.spec_bytes() == data@
                    &&& v.spec_chunks_stored() == chunks
                    &&& v.spec_capacity() == capacity
                },
                (Err(e), Err(f)) => e == spec_pod_err(f),
                _ => false,
            },
    {
        match LayoutView::<T, L>::unpack_mut(data) {
            Ok(view) => Ok(ListView { view }),
            Err(e) => Err(ProgramError::from(e)),
        }
    }

    /// Unpack a mutable buffer and reset its stored count to zero.
    pub fn init(data: Vec<u8>) -> (r: Result<Self, ProgramError>)
        ensures
            match (r, crate::list_view::spec_list_init_accept::<T, L>(data@)) {
                (Ok(v), Ok(capacity)) => {
                    &&& v.wf()
                    &&& v.spec_count() == 0
                    &&& v.spec_capacity() == capacity
                    &&& v.spec_bytes().len() == data@.len()
                    &&& v.spec_bytes().skip(L::spec_size() as int) == data@.skip(
                        L::spec_size() as int,
                    )
                },
                (Err(e), Err(f)) => e == spec_pod_err(f),
                _ => false,
            },
    {
        match LayoutView::<T, L>::init(data) {
            Ok(view) => Ok(ListView { view }),
            Err(e) => Err(ProgramError::from(e)),
        }
    }

    /// Append a record, failing when the buffer is full.
    pub fn push(&mut self, item: T) -> (r: Result<(), ProgramError>)
        requires
            old(self).wf(),
        ensures
            final(self).wf(),
            old(self).spec_count() < old(self).spec_capacity() && old(self).spec_count()
                < L::spec_max() ==> {
                &&& r is Ok
                &&& final(self).spec_chunks_stored() == old(self).spec_chunks_stored().push(
                    item.enc(),
                )
                &&& final(self).spec_count() == old(self).spec_count() + 1
                &&& final(self).spec_capacity() == old(self).spec_capacity()
                &&& final(self).spec_bytes().len() == old(self).spec_bytes().len()
            },
            old(self).spec_count() >= old(self).spec_capacity() ==> r == Err::<(), ProgramError>(
                spec_pod_err(SplPodError::BufferTooSmall),
            ) && *final(self) == *old(self),
            old(self).spec_count() < old(self).spec_capacity() && old(self).spec_count()
                >= L::spec_max() ==> r == Err::<(), ProgramError>(
                spec_pod_err(SplPodError::ValueOutOfRange),
            ) && *final(self) == *old(self),
    {
        self.view.push(item)
    }

    /// Remove and return the record at `index`, shifting all later
    /// records one position down and zero-filling the freed slot.
    pub fn remove(&mut self, index: usize) -> (r: Result<T, ProgramError>)
        requires
            old(self).wf(),
        ensures
            final(self).wf(),
            index < old(self).spec_count() ==> {
                &&& (r matches Ok(x) && x.enc() == old(self).spec_chunks_stored()[index as int])
                &&& final(self).spec_chunks_stored() == old(self).spec_chunks_stored().remove(
                    index as int,
                )
                &&& final(self).spec_count() == old(self).spec_count() - 1
                &&& final(self).spec_capacity() == old(self).spec_capacity()
                &&& final(self).spec_bytes().len() == old(self).spec_bytes().len()
                &&& spec_chunk(
                    final(self).spec_bytes(),
                    crate::list_view::spec_data_start::<T, L>(),
                    T::spec_size() as int,
                    old(self).spec_count() - 1,
                ) == Seq::new(T::spec_size(), |i: int| 0u8)
            },
            index >= old(self).spec_count() ==> r == Err::<T, ProgramError>(
                ProgramError::InvalidArgument,
            ) && *final(self) == *old(self),
    {
        let removed = self.view.remove(index)?;
        proof {
            old(self).view.lemma_wf_bounds();
        }
        match self.view.zero_slot_at_count() {
            Ok(()) => Ok(removed),
            Err(_) => {
                proof {
                    assert(false);
                }
                Err(ProgramError::InvalidArgument)
            },
        }
    }

    /// Total byte size of a buffer holding `num_items` records.
    pub fn size_of(num_items: usize) -> (r: Result<usize, ProgramError>)
        ensures
            match (r, spec_list_size_of::<T, L>(num_items as int)) {
                (Ok(v), Ok(w)) => v == w,
                (Err(e), Err(f)) => e == spec_pod_err(f),
                _ => false,
            },
    {
        match LayoutView::<T, L>::size_of(num_items) {
            Ok(v) => Ok(v),
            Err(e) => Err(ProgramError::from(e)),
        }
    }

    /// The stored record count.
    pub fn len(&self) -> (r: usize)
        requires
            self.wf(),
        ensures
            r == self.spec_count(),
    {
        self.view.len()
    }

    /// Whether no records are stored.
    pub fn is_empty(&self) -> (r: bool)
        requires
            self.wf(),
        ensures
            r == (self.spec_count() == 0),
    {
        self.view.is_empty()
    }

    /// The record capacity of the backing buffer.
    pub fn capacity(&self) -> (r: usize)
        ensures
            r == self.spec_capacity(),
    {
        self.view.capacity()
    }

    /// Decode every stored record, in stored order.
    pub fn iter(&self) -> (r: Vec<T>)
        requires
            self.wf(),
        ensures
            encodes(r@, self.spec_chunks_stored()),
    {
        self.view.to_vec()
    }

    /// Decode the record at `index`, or `None` past the stored count.
    pub fn get(&self, index: usize) -> (r: Option<T>)
        requires
            self.wf(),
        ensures
            match r {
                Some(x) => index < self.spec_count() && x.enc()
                    == self.spec_chunks_stored()[index as int],
                None => index >= self.spec_count(),
            },
    {
        self.view.get(index)
    }

    /// Hand the backing buffer back.
    pub fn into_buffer(self) -> (r: Vec<u8>)
        ensures
            r@ == self.spec_bytes(),
    {
        self.view.into_buffer()
    }
}

} // verus!
