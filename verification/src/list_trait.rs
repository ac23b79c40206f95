//! Shared read-only behaviour of the two list views.

use crate::error::SplPodError;
use crate::item::{PodItem, PodLength};
use crate::list_view::{spec_list_size_of, ListView};
use crate::list_view_mut::ListViewMut;
use crate::list_view_read_only::ListViewReadOnly;
use vstd::prelude::*;

verus! {

/// Read-only behaviour shared by the mutable and the read-only list view.
pub trait List: Sized {
    /// The record type the list stores.
    type Item: PodItem;

    /// The length-prefix type of the backing buffer.
    type Length: PodLength;

    /// What the view may assume of itself.
    spec fn list_inv(&self) -> bool;

    /// The number of stored records.
    spec fn spec_list_len(&self) -> nat;

    /// The record capacity of the backing buffer.
    spec fn spec_list_capacity(&self) -> nat;

    /// The record capacity of the backing buffer.
    fn capacity(&self) -> (r: usize)
        requires
            self.list_inv(),
        ensures
            r == self.spec_list_capacity(),
    ;

    /// The number of stored records.
    fn list_len(&self) -> (r: usize)
        requires
            self.list_inv(),
        ensures
            r == self.spec_list_len(),
    ;

    /// The number of bytes the stored records occupy, prefix and padding
    /// included.
    fn bytes_used(&self) -> (r: Result<usize, SplPodError>)
        requires
            self.list_inv(),
        ensures
            match (r, spec_list_size_of::<Self::Item, Self::Length>(
                self.spec_list_len() as int,
            )) {
                (Ok(v), Ok(w)) => v == w,
                (Err(e), Err(f)) => e == f,
                _ => false,
            },
    ;

    /// The number of bytes the entire backing buffer reserves.
    fn bytes_allocated(&self) -> (r: Result<usize, SplPodError>)
        requires
            self.list_inv(),
        ensures
            match (r, spec_list_size_of::<Self::Item, Self::Length>(
                self.spec_list_capacity() as int,
            )) {
                (Ok(v), Ok(w)) => v == w,
                (Err(e), Err(f)) => e == f,
                _ => false,
            },
    ;
}

impl<T: PodItem, L: PodLength> List for ListViewReadOnly<T, L> {
    type Item = T;

    type Length = L;

    open spec fn list_inv(&self) -> bool {
        true
    }

    open spec fn spec_list_len(&self) -> nat {
        self.spec_items().len()
    }

    open spec fn spec_list_capacity(&self) -> nat {
        self.spec_capacity()
    }

    fn capacity(&self) -> (r: usize) {
        self.capacity()
    }

    fn list_len(&self) -> (r: usize) {
        self.len()
    }

    fn bytes_used(&self) -> (r: Result<usize, SplPodError>) {
        ListView::<T, L>::size_of(self.len())
    }

    fn bytes_allocated(&self) -> (r: Result<usize, SplPodError>) {
        ListView::<T, L>::size_of(self.capacity())
    }
}

impl<T: PodItem, L: PodLength> List for ListViewMut<T, L> {
    type Item = T;

    type Length = L;

    open spec fn list_inv(&self) -> bool {
        self.wf()
    }

    open spec fn spec_list_len(&self) -> nat {
        self.spec_count()
    }

    open spec fn spec_list_capacity(&self) -> nat {
        self.spec_capacity()
    }

    fn capacity(&self) -> (r: usize) {
        self.capacity()
    }

    fn list_len(&self) -> (r: usize) {
        self.len()
    }

    fn bytes_used(&self) -> (r: Result<usize, SplPodError>) {
        ListView::<T, L>::size_of(self.len())
    }

    fn bytes_allocated(&self) -> (r: Result<usize, SplPodError>) {
        ListView::<T, L>::size_of(self.capacity())
    }
}

} // verus!
