use vstd::prelude::*;

verus! {

/// A numeric coordinate type: an unsigned integer, convertible losslessly
/// to and from `usize` within its own range.
pub trait Scalar: Sized + Copy {
    /// The mathematical value this scalar holds.
    spec fn as_nat(self) -> nat;

    /// The largest value the type can hold.
    spec fn max_nat() -> nat;

    /// Every value lies within the type's range, and the range fits in `usize`.
    proof fn lemma_bounds(self)
        ensures
            self.as_nat() <= Self::max_nat(),
            Self::max_nat() <= usize::MAX as nat,
    ;

    /// Lossless widening to `usize`.
    fn to_usize(self) -> (r: usize)
        ensures
            r as nat == self.as_nat(),
    ;

    /// Lossless narrowing from `usize`, defined on values in range.
    fn from_usize(v: usize) -> (r: Self)
        requires
            v as nat <= Self::max_nat(),
        ensures
            r.as_nat() == v as nat,
    ;
}

impl Scalar for usize {
    open spec fn as_nat(self) -> nat {
        self as nat
    }

    open spec fn max_nat() -> nat {
        usize::MAX as nat
    }

    proof fn lemma_bounds(self) {
    }

    fn to_usize(self) -> usize {
        self
    }

    fn from_usize(v: usize) -> usize {
        v
    }
}

impl Scalar for u32 {
    open spec fn as_nat(self) -> nat {
        self as nat
    }

    open spec fn max_nat() -> nat {
        u32::MAX as nat
    }

    proof fn lemma_bounds(self) {
    }

    fn to_usize(self) -> usize {
        self as usize
    }

    fn from_usize(v: usize) -> u32 {
        v as u32
    }
}

impl Scalar for u16 {
    open spec fn as_nat(self) -> nat {
        self as nat
    }

    open spec fn max_nat() -> nat {
        u16::MAX as nat
    }

    proof fn lemma_bounds(self) {
    }

    fn to_usize(self) -> usize {
        self as usize
    }

    fn from_usize(v: usize) -> u16 {
        v as u16
    }
}

impl Scalar for u8 {
    open spec fn as_nat(self) -> nat {
        self as nat
    }

    open spec fn max_nat() -> nat {
        u8::MAX as nat
    }

    proof fn lemma_bounds(self) {
    }

    fn to_usize(self) -> usize {
        self as usize
    }

    fn from_usize(v: usize) -> u8 {
        v as u8
    }
}

} // verus!
