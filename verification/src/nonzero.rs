//! Integers that are known not to be zero.

use vstd::prelude::*;

verus! {

/// A `u64` that is not zero.
#[derive(Clone, Copy, Debug, PartialEq, Eq)]
pub struct NonZeroU64 {
    value: u64,
}

impl NonZeroU64 {
    pub closed spec fn value(&self) -> u64 {
        self.value
    }

    #[verifier::type_invariant]
    closed spec fn well_formed(&self) -> bool {
        self.value != 0
    }

    /// The value as a non-zero one, unless it is zero.
    pub fn new(value: u64) -> (nonzero: Option<NonZeroU64>)
        ensures
            match nonzero {
                Some(n) => n.value() == value && value != 0,
                None => value == 0,
            },
    {
        if value == 0 {
            None
        } else {
            Some(NonZeroU64 { value })
        }
    }

    /// The plain value.
    pub fn get(&self) -> (value: u64)
        ensures
            value == self.value(),
            value != 0,
    {
        proof {
            use_type_invariant(self);
        }
        self.value
    }
}

/// A `usize` that is not zero.
#[derive(Clone, Copy, Debug, PartialEq, Eq)]
pub struct NonZeroUsize {
    value: usize,
}

impl NonZeroUsize {
    pub closed spec fn value(&self) -> usize {
        self.value
    }

    #[verifier::type_invariant]
    closed spec fn well_formed(&self) -> bool {
        self.value != 0
    }

    /// The value as a non-zero one, unless it is zero.
    pub fn new(value: usize) -> (nonzero: Option<NonZeroUsize>)
        ensures
            match nonzero {
                Some(n) => n.value() == value && value != 0,
                None => value == 0,
            },
    {
        if value == 0 {
            None
        } else {
            Some(NonZeroUsize { value })
        }
    }

    /// The plain value.
    pub fn get(&self) -> (value: usize)
        ensures
            value == self.value(),
            value != 0,
    {
        proof {
            use_type_invariant(self);
        }
        self.value
    }
}

} // verus!
