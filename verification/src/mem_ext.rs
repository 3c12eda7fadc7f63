use vstd::prelude::*;

verus! {

/// Sizes written in kibibytes and mebibytes.
pub trait MemExt<T>: Sized {
    /// The number of units that `self` stands for.
    spec fn units(self) -> int;

    /// The largest value of the result type.
    spec fn limit() -> int;

    /// What `value` is as a member of the result type.
    spec fn as_units(value: T) -> int;

    fn kb(self) -> (bytes: T)
        requires
            self.units() * 1024 <= Self::limit(),
        ensures
            Self::as_units(bytes) == self.units() * 1024,
    ;

    fn mb(self) -> (bytes: T)
        requires
            self.units() * 1_048_576 <= Self::limit(),
        ensures
            Self::as_units(bytes) == self.units() * 1_048_576,
    ;
}

impl MemExt<u32> for u32 {
    open spec fn units(self) -> int {
        self as int
    }

    open spec fn limit() -> int {
        u32::MAX as int
    }

    open spec fn as_units(value: u32) -> int {
        value as int
    }

    fn kb(self) -> (bytes: u32) {
        self * 1024u32
    }

    fn mb(self) -> (bytes: u32) {
        self * 1_048_576u32
    }
}

impl MemExt<usize> for usize {
    open spec fn units(self) -> int {
        self as int
    }

    open spec fn limit() -> int {
        usize::MAX as int
    }

    open spec fn as_units(value: usize) -> int {
        value as int
    }

    fn kb(self) -> (bytes: usize) {
        self * 1024usize
    }

    fn mb(self) -> (bytes: usize) {
        self * 1_048_576usize
    }
}

} // verus!
