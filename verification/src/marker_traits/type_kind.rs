//! Choosing, from the type of a value alone, how the value is handed to the formatting
//! methods: wrapped in a `PWrapper`, where the methods are those of the wrapper, or as it
//! is, where the type has the methods itself.

use core::marker::PhantomData;
use vstd::prelude::*;

verus! {

/// The kind of a type that is formatted through `PWrapper`: the types of the standard
/// library.
pub struct IsStdKind;

/// The kind of a type that has the formatting methods itself.
pub struct IsNotStdKind;

/// Says of a type which of the two kinds it is.
pub trait GetTypeKind {
    /// `IsStdKind` or `IsNotStdKind`.
    type Kind;

    /// The type that is formatted: the type itself, or what a reference to it points to.
    type This: ?Sized;
}

/// A value without content that stands for formatting a `T` of kind `K`, reached from
/// an expression of type `R`. Its `coerce` method, chosen by `K` and `T`, makes the value
/// on which the formatting methods are called.
pub struct TypeKindMarker<K, T: ?Sized, R: ?Sized>(
    pub PhantomData<K>,
    pub PhantomData<T>,
    pub PhantomData<R>,
);

impl<K, T: ?Sized, R: ?Sized> TypeKindMarker<K, T, R> {
    /// The marker for these three types.
    pub fn new() -> Self {
        TypeKindMarker(PhantomData, PhantomData, PhantomData)
    }
}

impl<T: ?Sized, R: ?Sized> TypeKindMarker<IsNotStdKind, T, R> {
    /// A value of the other kind is formatted as it is.
    pub fn coerce<'a>(self, reference: &'a T) -> (same: &'a T)
        ensures
            same == reference,
    {
        reference
    }
}

} // verus!
