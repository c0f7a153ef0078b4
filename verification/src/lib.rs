//! Formatting into buffers of fixed capacity, in two passes.
//!
//! Nothing here allocates the text that it writes, so the buffer must be large enough before
//! the first byte is written. Formatting therefore has a first pass that only counts, and
//! a second pass that writes: for every supported value, under every setting of the
//! flags, the first pass returns exactly the number of bytes that the second appends.
//! Both passes are specified against one model of the text, in [`text`], and proved
//! against it.
//!
//! - [`formatting`] holds the flags and the escape tables,
//! - [`wrapper_types`] the lengths of the primitive types and the digits of numbers,
//! - [`fmt`] the writer, the formatter that borrows it, and the writing of every type,
//! - [`marker_traits`] the choice of the methods by the type of a value,
//! - [`pargument`] the arguments of a concatenation,
//! - [`format_str_parsing`], [`format_args`] and [`writec`] format strings.

pub mod fmt;
pub mod format_args;
pub mod format_str_parsing;
pub mod formatting;
pub mod marker_traits;
pub mod pargument;
pub mod text;
pub mod wrapper_types;
pub mod writec;

pub use fmt::{Error, Formatter, FormattingLength, StrWriter};
pub use formatting::{FormattingFlags, FormattingMode, StartAndArray};
pub use wrapper_types::PWrapper;
