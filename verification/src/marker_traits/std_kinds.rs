//! The kinds of the integers, the booleans, the characters and the string slices: all are
//! formatted through their wrapper.

use crate::marker_traits::type_kind::{GetTypeKind, IsStdKind, TypeKindMarker};
use crate::wrapper_types::pwrapper::PWrapper;
use vstd::prelude::*;

verus! {

impl GetTypeKind for u8 {
    type Kind = IsStdKind;

    type This = Self;
}

impl<T> TypeKindMarker<IsStdKind, u8, T> {
    /// The value in its wrapper.
    pub fn coerce(self, reference: &u8) -> (wrapped: PWrapper<u8>)
        ensures
            wrapped.0 == *reference,
    {
        PWrapper(*reference)
    }
}

impl GetTypeKind for u16 {
    type Kind = IsStdKind;

    type This = Self;
}

impl<T> TypeKindMarker<IsStdKind, u16, T> {
    /// The value in its wrapper.
    pub fn coerce(self, reference: &u16) -> (wrapped: PWrapper<u16>)
        ensures
            wrapped.0 == *reference,
    {
        PWrapper(*reference)
    }
}

impl GetTypeKind for u32 {
    type Kind = IsStdKind;

    type This = Self;
}

impl<T> TypeKindMarker<IsStdKind, u32, T> {
    /// The value in its wrapper.
    pub fn coerce(self, reference: &u32) -> (wrapped: PWrapper<u32>)
        ensures
            wrapped.0 == *reference,
    {
        PWrapper(*reference)
    }
}

impl GetTypeKind for u64 {
    type Kind = IsStdKind;

    type This = Self;
}

impl<T> TypeKindMarker<IsStdKind, u64, T> {
    /// The value in its wrapper.
    pub fn coerce(self, reference: &u64) -> (wrapped: PWrapper<u64>)
        ensures
            wrapped.0 == *reference,
    {
        PWrapper(*reference)
    }
}

impl GetTypeKind for u128 {
    type Kind = IsStdKind;

    type This = Self;
}

impl<T> TypeKindMarker<IsStdKind, u128, T> {
    /// The value in its wrapper.
    pub fn coerce(self, reference: &u128) -> (wrapped: PWrapper<u128>)
        ensures
            wrapped.0 == *reference,
    {
        PWrapper(*reference)
    }
}

impl GetTypeKind for i8 {
    type Kind = IsStdKind;

    type This = Self;
}

impl<T> TypeKindMarker<IsStdKind, i8, T> {
    /// The value in its wrapper.
    pub fn coerce(self, reference: &i8) -> (wrapped: PWrapper<i8>)
        ensures
            wrapped.0 == *reference,
    {
        PWrapper(*reference)
    }
}

impl GetTypeKind for i16 {
    type Kind = IsStdKind;

    type This = Self;
}

impl<T> TypeKindMarker<IsStdKind, i16, T> {
    /// The value in its wrapper.
    pub fn coerce(self, reference: &i16) -> (wrapped: PWrapper<i16>)
        ensures
            wrapped.0 == *reference,
    {
        PWrapper(*reference)
    }
}

impl GetTypeKind for i32 {
    type Kind = IsStdKind;

    type This = Self;
}

impl<T> TypeKindMarker<IsStdKind, i32, T> {
    /// The value in its wrapper.
    pub fn coerce(self, reference: &i32) -> (wrapped: PWrapper<i32>)
        ensures
            wrapped.0 == *reference,
    {
        PWrapper(*reference)
    }
}

impl GetTypeKind for i64 {
    type Kind = IsStdKind;

    type This = Self;
}

impl<T> TypeKindMarker<IsStdKind, i64, T> {
    /// The value in its wrapper.
    pub fn coerce(self, reference: &i64) -> (wrapped: PWrapper<i64>)
        ensures
            wrapped.0 == *reference,
    {
        PWrapper(*reference)
    }
}

impl GetTypeKind for i128 {
    type Kind = IsStdKind;

    type This = Self;
}

impl<T> TypeKindMarker<IsStdKind, i128, T> {
    /// The value in its wrapper.
    pub fn coerce(self, reference: &i128) -> (wrapped: PWrapper<i128>)
        ensures
            wrapped.0 == *reference,
    {
        PWrapper(*reference)
    }
}

impl GetTypeKind for usize {
    type Kind = IsStdKind;

    type This = Self;
}

impl<T> TypeKindMarker<IsStdKind, usize, T> {
    /// The value in its wrapper.
    pub fn coerce(self, reference: &usize) -> (wrapped: PWrapper<usize>)
        ensures
            wrapped.0 == *reference,
    {
        PWrapper(*reference)
    }
}

impl GetTypeKind for isize {
    type Kind = IsStdKind;

    type This = Self;
}

impl<T> TypeKindMarker<IsStdKind, isize, T> {
    /// The value in its wrapper.
    pub fn coerce(self, reference: &isize) -> (wrapped: PWrapper<isize>)
        ensures
            wrapped.0 == *reference,
    {
        PWrapper(*reference)
    }
}

impl GetTypeKind for bool {
    type Kind = IsStdKind;

    type This = Self;
}

impl<T> TypeKindMarker<IsStdKind, bool, T> {
    /// The value in its wrapper.
    pub fn coerce(self, reference: &bool) -> (wrapped: PWrapper<bool>)
        ensures
            wrapped.0 == *reference,
    {
        PWrapper(*reference)
    }
}

impl GetTypeKind for char {
    type Kind = IsStdKind;

    type This = Self;
}

impl<T> TypeKindMarker<IsStdKind, char, T> {
    /// The value in its wrapper.
    pub fn coerce(self, reference: &char) -> (wrapped: PWrapper<char>)
        ensures
            wrapped.0 == *reference,
    {
        PWrapper(*reference)
    }
}

impl GetTypeKind for str {
    type Kind = IsStdKind;

    type This = Self;
}

impl<T> TypeKindMarker<IsStdKind, str, T> {
    /// The string slice in its wrapper.
    pub fn coerce<'a>(self, reference: &'a str) -> (wrapped: PWrapper<&'a str>)
        ensures
            wrapped.0 == reference,
    {
        PWrapper(reference)
    }
}

} // verus!
