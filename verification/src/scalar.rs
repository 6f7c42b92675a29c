//! What the contracts of this library ask of the type of a matrix's entries.
//!
//! The entries are of any type with `+`, `*` and a default value, which serves as zero.
//! What these compute is the type's own affair: the contracts speak of it through the
//! specifications that `vstd` attaches to the operator traits. The machine integers meet
//! all of the predicates below, with `0` for `zero`.
use core::ops::{Add, Mul};
use vstd::prelude::*;
use vstd::std_specs::cmp::PartialOrdSpec;
use vstd::std_specs::ops::{AddSpec, MulSpec};

verus! {

/// `zero` is the one value that `T::default()` can return.
pub open spec fn default_is<T: Default>(zero: T) -> bool {
    forall|d: T| call_ensures(T::default, (), d) ==> d == zero
}

/// `zero` is the one value that `T::default()` can return, and `+` and `*` on `T`
/// compute what `add_spec` and `mul_spec` say.
pub open spec fn lawful<T: Add<Output = T> + Mul<Output = T> + Default>(zero: T) -> bool {
    &&& T::obeys_add_spec()
    &&& T::obeys_mul_spec()
    &&& default_is(zero)
}

/// `<`, `>` and their kin on `T` compute what `partial_cmp_spec` says.
pub open spec fn ordered<T: PartialOrd>() -> bool {
    T::obeys_partial_cmp_spec()
}

/// The machine integers meet what the contracts ask, with `0` for zero.
pub proof fn lemma_integers_lawful()
    ensures
        lawful(0u8) && ordered::<u8>(),
        lawful(0u16) && ordered::<u16>(),
        lawful(0u32) && ordered::<u32>(),
        lawful(0u64) && ordered::<u64>(),
        lawful(0u128) && ordered::<u128>(),
        lawful(0usize) && ordered::<usize>(),
        lawful(0i8) && ordered::<i8>(),
        lawful(0i16) && ordered::<i16>(),
        lawful(0i32) && ordered::<i32>(),
        lawful(0i64) && ordered::<i64>(),
        lawful(0i128) && ordered::<i128>(),
        lawful(0isize) && ordered::<isize>(),
{
}

} // verus!
