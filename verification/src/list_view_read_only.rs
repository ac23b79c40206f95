//! The read-only list view: the stored records, decoded out of the
//! buffer.

use crate::item::{PodItem, PodLength};
use crate::pods::PodU32;
use vstd::prelude::*;

verus! {

/// The decoded records of a stored list, with the buffer's record
/// capacity.
#[derive(Debug)]
pub struct ListViewReadOnly<T: PodItem, L: PodLength = PodU32> {
    items: Vec<T>,
    capacity: usize,
    length: core::marker::PhantomData<L>,
}

impl<T: PodItem, L: PodLength> ListViewReadOnly<T, L> {
    /// The decoded records, in stored order.
    pub closed spec fn spec_items(&self) -> Seq<T> {
        self.items@
    }

    /// The record capacity of the buffer the records came from.
    pub closed spec fn spec_capacity(&self) -> nat {
        self.capacity as nat
    }

    /// Assemble a read-only view from decoded records.
    pub(crate) fn make(items: Vec<T>, capacity: usize) -> (r: Self)
        ensures
            r.spec_items() == items@,
            r.spec_capacity() == capacity,
    {
        ListViewReadOnly { items, capacity, length: core::marker::PhantomData }
    }

    /// The stored records.
    pub fn as_slice(&self) -> (r: &[T])
        ensures
            r@ == self.spec_items(),
    {
        self.items.as_slice()
    }

    /// The number of stored records.
    pub fn len(&self) -> (r: usize)
        ensures
            r == self.spec_items().len(),
    {
        self.items.len()
    }

    /// Whether no records are stored.
    pub fn is_empty(&self) -> (r: bool)
        ensures
            r == (self.spec_items().len() == 0),
    {
        self.items.len() == 0
    }

    /// The record capacity of the buffer the records came from.
    pub fn capacity(&self) -> (r: usize)
        ensures
            r == self.spec_capacity(),
    {
        self.capacity
    }

    /// The record at `index`, or `None` past the stored count.
    pub fn get(&self, index: usize) -> (r: Option<&T>)
        ensures
            match r {
                Some(x) => index < self.spec_items().len() && *x == self.spec_items()[index as int],
                None => index >= self.spec_items().len(),
            },
    {
        if index < self.items.len() {
            Some(&self.items[index])
        } else {
            None
        }
    }

    /// The first record, or `None` when the list is empty.
    pub fn first(&self) -> (r: Option<&T>)
        ensures
            match r {
                Some(x) => self.spec_items().len() > 0 && *x == self.spec_items()[0],
                None => self.spec_items().len() == 0,
            },
    {
        self.get(0)
    }
}

} // verus!
