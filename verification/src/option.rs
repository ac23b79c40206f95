//! A layout-friendly option: a type that reserves one of its own values
//! to mean `None` needs no extra tag byte.

use vstd::prelude::*;

verus! {

broadcast use vstd::array::group_array_axioms;

/// A type with a designated value that means `None`.
pub trait Nullable: Sized {
    /// Whether this value is the designated `None` value.
    spec fn spec_is_none(&self) -> bool;

    /// Whether this value is the designated `None` value.
    fn is_none(&self) -> (r: bool)
        ensures
            r == self.spec_is_none(),
    ;

    /// The designated `None` value.
    fn none_value() -> (r: Self)
        ensures
            r.spec_is_none(),
    ;

    /// Whether this value carries information.
    fn is_some(&self) -> (r: bool)
        ensures
            r == !self.spec_is_none(),
    {
        !self.is_none()
    }
}

/// An option stored as a bare `T`, whose designated value means `None`.
#[derive(Clone, Copy, Debug)]
pub struct PodOption<T: Nullable>(pub T);

impl<T: Nullable> PodOption<T> {
    /// What the stored value denotes.
    pub open spec fn spec_get(&self) -> Option<T> {
        if self.0.spec_is_none() {
            None
        } else {
            Some(self.0)
        }
    }

    /// The contained value, as an `Option`.
    pub fn get(self) -> (r: Option<T>)
        ensures
            r == self.spec_get(),
    {
        if self.0.is_none() {
            None
        } else {
            Some(self.0)
        }
    }

    /// The contained value, borrowed, as an `Option`.
    pub fn as_ref(&self) -> (r: Option<&T>)
        ensures
            match r {
                Some(x) => !self.0.spec_is_none() && *x == self.0,
                None => self.0.spec_is_none(),
            },
    {
        if self.0.is_none() {
            None
        } else {
            Some(&self.0)
        }
    }

    /// The contained value, borrowed mutably, as an `Option`.
    pub fn as_mut(&mut self) -> (r: Option<&mut T>)
        ensures
            match r {
                Some(x) => !old(self).0.spec_is_none() && *x == old(self).0 && final(self).0
                    == *final(x),
                None => old(self).0.spec_is_none() && *final(self) == *old(self),
            },
    {
        if self.0.is_none() {
            None
        } else {
            Some(&mut self.0)
        }
    }

    /// The contained value, copied, as an `Option`.
    pub fn copied(&self) -> (r: Option<T>)
        where T: Copy
        ensures
            r == self.spec_get(),
    {
        if self.0.is_none() {
            None
        } else {
            Some(self.0)
        }
    }

    /// The contained value, cloned, as an `Option`; whether a value is
    /// present is preserved.
    pub fn cloned(&self) -> (r: Option<T>)
        where T: Clone
        ensures
            r is Some <==> !self.0.spec_is_none(),
    {
        if self.0.is_none() {
            None
        } else {
            Some(self.0.clone())
        }
    }

    /// Wrap a value; the designated value reads back as `None`.
    pub fn new(value: T) -> (r: Self)
        ensures
            r.0 == value,
    {
        PodOption(value)
    }

    /// Encode an `Option`, rejecting a present value that equals the
    /// designated `None` value.
    pub fn from_option(value: Option<T>) -> (r: Result<Self, crate::error::ProgramError>)
        ensures
            match (r, value) {
                (Ok(p), Some(v)) => !v.spec_is_none() && p.0 == v,
                (Ok(p), None) => p.0.spec_is_none(),
                (Err(e), Some(v)) => v.spec_is_none() && e
                    == crate::error::ProgramError::InvalidArgument,
                (Err(e), None) => false,
            },
    {
        match value {
            Some(v) => {
                if v.is_none() {
                    Err(crate::error::ProgramError::InvalidArgument)
                } else {
                    Ok(PodOption(v))
                }
            },
            None => Ok(PodOption(T::none_value())),
        }
    }
}

impl<T: Nullable> From<T> for PodOption<T> {
    fn from(value: T) -> (r: Self) {
        PodOption(value)
    }
}

impl<T: Nullable> vstd::std_specs::convert::FromSpecImpl<T> for PodOption<T> {
    open spec fn obeys_from_spec() -> bool {
        true
    }

    open spec fn from_spec(value: T) -> Self {
        PodOption(value)
    }
}

impl Nullable for String {
    open spec fn spec_is_none(&self) -> bool {
        self@.len() == 0
    }

    fn is_none(&self) -> (r: bool) {
        self.as_str().unicode_len() == 0
    }

    fn none_value() -> (r: Self) {
        String::new()
    }
}

impl Nullable for crate::pubkey::Pubkey {
    open spec fn spec_is_none(&self) -> bool {
        self@ == Seq::new(32, |i: int| 0u8)
    }

    fn is_none(&self) -> (r: bool) {
        let zero = vstd::array::array_fill_for_copy_types::<u8, 32>(0u8);
        let r = crate::pods::bytes_eq(self.as_bytes(), zero.as_slice());
        proof {
            assert(zero@ =~= Seq::new(32, |i: int| 0u8));
        }
        r
    }

    fn none_value() -> (r: Self) {
        let zero = vstd::array::array_fill_for_copy_types::<u8, 32>(0u8);
        let r = crate::pubkey::Pubkey::new_from_array(zero);
        proof {
            assert(zero@ =~= Seq::new(32, |i: int| 0u8));
        }
        r
    }
}

} // verus!
