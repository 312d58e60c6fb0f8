//! Static conditions on backends, as predicates over their alignment.

use crate::align::is_power_of_two;
use crate::align::power_of_two;
use crate::pointer::Pointer;
use vstd::prelude::*;

verus! {

/// A condition on type parameters that is either met or not.
pub trait Eval {
    /// Whether the condition is met.
    spec fn result() -> bool;
}

/// What can be asked of a backend's alignment against a wanted minimum `N`.
pub trait VerifyAlignment<const N: usize>: Pointer {
    /// Whether both the backend's alignment and `N` are powers of two.
    spec fn alignment_valid() -> bool;

    /// Whether the backend's alignment is at least `N`.
    spec fn alignment_sufficient() -> bool;
}

impl<T: Pointer, const N: usize> VerifyAlignment<N> for T {
    open spec fn alignment_valid() -> bool {
        is_power_of_two(T::spec_alignment()) && is_power_of_two(N)
    }

    open spec fn alignment_sufficient() -> bool {
        T::spec_alignment() >= N
    }
}

/// Whether a backend guarantees, soundly, an alignment of at least `N`.
pub trait AlignedTo<const N: usize>: VerifyAlignment<N> {
    /// The alignment is a power of two, as is `N`, and is at least `N`.
    spec fn aligned() -> bool;

    /// Evaluates [`AlignedTo::aligned`].
    fn check_aligned() -> (b: bool)
        requires
            Self::valid(),
        ensures
            b == <Self as AlignedTo<N>>::aligned(),
    ;
}

impl<T: Pointer, const N: usize> AlignedTo<N> for T {
    open spec fn aligned() -> bool {
        <T as VerifyAlignment<N>>::alignment_valid() && <T as VerifyAlignment<N>>::alignment_sufficient()
    }

    fn check_aligned() -> (b: bool) {
        let a: usize = T::alignment();
        power_of_two(a) && power_of_two(N) && a >= N
    }
}

} // verus!
