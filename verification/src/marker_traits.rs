//! Choosing how a value is formatted by its type.

pub mod const_debug;
pub mod std_kinds;
pub mod type_kind;

pub use const_debug::ConstDebug;
pub use type_kind::{GetTypeKind, IsNotStdKind, IsStdKind, TypeKindMarker};
