//! The wrapper through which the primitive types are measured and written.

pub mod digit_count;
pub mod pwrapper;
pub mod signed;
pub mod unsigned;

pub use pwrapper::PWrapper;
